//! The base field of the trace: integers modulo `P = 2^64 - 2^32 + 1`.
//!
//! Every cell of the execution trace holds one such element. Values are
//! kept in canonical form (`0 <= v < P`); the contracts state each
//! operation exactly as modular arithmetic over the integers.

use vstd::arithmetic::div_mod::{
    lemma_add_mod_noop, lemma_mod_bound, lemma_mod_sub_multiples_vanish, lemma_mod_twice,
    lemma_mul_mod_noop_left, lemma_mul_mod_noop_right, lemma_small_mod, lemma_sub_mod_noop,
};
use vstd::arithmetic::mul::{
    lemma_mul_is_associative, lemma_mul_is_commutative, lemma_mul_is_distributive_add,
};
use vstd::prelude::*;

verus! {

/// The field modulus: 2^64 - 2^32 + 1.
pub const P: u64 = 0xffff_ffff_0000_0001;

/// An element of the base field, in canonical form.
#[derive(Clone, Copy, PartialEq, Eq, Structural, Debug)]
pub struct Felt {
    pub v: u64,
}

/// Canonical-form invariant: the stored word is a proper residue.
pub open spec fn is_felt(a: Felt) -> bool {
    a.v < P
}

/// Addition in the field, as a mathematical specification.
pub open spec fn f_add(a: Felt, b: Felt) -> Felt {
    Felt { v: ((a.v + b.v) % (P as int)) as u64 }
}

/// Subtraction in the field (Euclidean remainder, so the result is canonical).
pub open spec fn f_sub(a: Felt, b: Felt) -> Felt {
    Felt { v: ((a.v - b.v) % (P as int)) as u64 }
}

/// Multiplication in the field.
pub open spec fn f_mul(a: Felt, b: Felt) -> Felt {
    Felt { v: ((a.v * b.v) % (P as int)) as u64 }
}

pub open spec fn f_zero() -> Felt {
    Felt { v: 0 }
}

pub open spec fn f_one() -> Felt {
    Felt { v: 1 }
}

impl Felt {
    /// The additive identity.
    pub fn zero() -> (r: Felt)
        ensures
            r == f_zero(),
            is_felt(r),
    {
        Felt { v: 0 }
    }

    /// The multiplicative identity.
    pub fn one() -> (r: Felt)
        ensures
            r == f_one(),
            is_felt(r),
    {
        Felt { v: 1 }
    }

    /// Builds an element from an arbitrary word by reducing it modulo `P`.
    pub fn new(value: u64) -> (r: Felt)
        ensures
            is_felt(r),
            r.v == value as int % (P as int),
    {
        Felt { v: value % P }
    }

    /// Builds an element from a 32-bit value, which is always canonical.
    pub fn from_u32(value: u32) -> (r: Felt)
        ensures
            is_felt(r),
            r.v == value,
    {
        Felt { v: value as u64 }
    }

    /// The canonical integer representative of this element.
    pub fn as_int(&self) -> (r: u64)
        ensures
            r == self.v,
    {
        self.v
    }

    /// Field addition.
    pub fn add(self, other: Felt) -> (r: Felt)
        requires
            is_felt(self),
            is_felt(other),
        ensures
            r == f_add(self, other),
            is_felt(r),
    {
        let s: u128 = self.v as u128 + other.v as u128;
        let p: u128 = P as u128;
        if s >= p {
            proof {
                lemma_mod_sub_multiples_vanish(s as int, P as int);
                lemma_small_mod((s - p) as nat, P as nat);
            }
            Felt { v: (s - p) as u64 }
        } else {
            proof {
                lemma_small_mod(s as nat, P as nat);
            }
            Felt { v: s as u64 }
        }
    }

    /// Field subtraction.
    pub fn sub(self, other: Felt) -> (r: Felt)
        requires
            is_felt(self),
            is_felt(other),
        ensures
            r == f_sub(self, other),
            is_felt(r),
    {
        if self.v >= other.v {
            proof {
                lemma_small_mod((self.v - other.v) as nat, P as nat);
            }
            Felt { v: self.v - other.v }
        } else {
            let d: u64 = P - other.v + self.v;
            proof {
                lemma_mod_sub_multiples_vanish((self.v - other.v) as int, P as int);
                assert(self.v - other.v - P as int * (-1) == d as int);
                lemma_small_mod(d as nat, P as nat);
            }
            Felt { v: d }
        }
    }

    /// Field negation.
    pub fn neg(self) -> (r: Felt)
        requires
            is_felt(self),
        ensures
            r == f_sub(f_zero(), self),
            is_felt(r),
    {
        Felt::zero().sub(self)
    }

    /// Field multiplication.
    pub fn mul(self, other: Felt) -> (r: Felt)
        requires
            is_felt(self),
            is_felt(other),
        ensures
            r == f_mul(self, other),
            is_felt(r),
    {
        proof {
            assert(self.v as int * other.v as int <= 0xffff_ffff_ffff_ffff * 0xffff_ffff_ffff_ffff)
                by (nonlinear_arith)
                requires
                    self.v <= 0xffff_ffff_ffff_ffffu64,
                    other.v <= 0xffff_ffff_ffff_ffffu64,
            ;
            lemma_mod_bound((self.v * other.v) as int, P as int);
        }
        let prod: u128 = self.v as u128 * other.v as u128;
        Felt { v: (prod % (P as u128)) as u64 }
    }

    /// Doubles this element.
    pub fn double(self) -> (r: Felt)
        requires
            is_felt(self),
        ensures
            r == f_add(self, self),
            is_felt(r),
    {
        self.add(self)
    }

    /// Raises this element to the given power by square-and-multiply.
    pub fn pow(self, exp: u64) -> (r: Felt)
        requires
            is_felt(self),
        ensures
            is_felt(r),
            r == f_pow(self, exp as nat),
    {
        let mut acc = Felt::one();
        let mut base = self;
        let mut e = exp;
        proof {
            lemma_f_mul_one(acc);
        }
        while e > 0
            invariant
                is_felt(acc),
                is_felt(base),
                f_mul(acc, f_pow(base, e as nat)) == f_pow(self, exp as nat),
            decreases e,
        {
            if e % 2 == 1 {
                proof {
                    lemma_f_pow_odd(acc, base, e as nat);
                }
                acc = acc.mul(base);
            } else {
                proof {
                    lemma_f_pow_even(acc, base, e as nat);
                }
            }
            base = base.mul(base);
            e = e / 2;
        }
        proof {
            lemma_f_mul_one(acc);
            assert(f_pow(base, 0) == f_one());
            lemma_f_mul_comm(acc, f_one());
        }
        acc
    }

    /// Attempts to invert this element, and succeeds exactly on the
    /// invertible ones.
    ///
    /// The extended Euclidean algorithm yields either a checked Bezout
    /// coefficient — a proven inverse — or a common divisor of the
    /// element and the field order greater than one, which refutes any
    /// inverse. Neither direction assumes anything of the order beyond
    /// its value.
    pub fn try_inv(self) -> (r: Option<Felt>)
        requires
            is_felt(self),
        ensures
            (r is Some) <==> f_invertible(self),
            match r {
                Some(t) => is_felt(t) && f_mul(t, self) == f_one(),
                None => true,
            },
            self.v == 0 ==> r is None,
    {
        proof {
            if self.v == 0 {
                assert forall|t: Felt| #[trigger] f_mul(t, self) != f_one() by {
                    lemma_f_mul_zero(t);
                }
            }
        }
        let mut r0: u64 = P;
        let mut r1: u64 = self.v;
        let mut x0 = Felt::zero();
        let mut x1 = Felt::one();
        let ghost mut c0: int = 0;
        let ghost mut c1: int = 1;
        let ghost mut d0: int = 1;
        let ghost mut d1: int = 0;
        proof {
            lemma_f_mul_zero(self);
            lemma_small_mod(self.v as nat, P as nat);
            lemma_f_mul_one(self);
            vstd::arithmetic::div_mod::lemma_mod_self_0(P as int);
        }
        while r1 != 0
            invariant
                is_felt(self),
                is_felt(x0),
                is_felt(x1),
                1 <= r0 <= P,
                r1 < r0,
                f_mul(x0, self).v == r0 as int % (P as int),
                f_mul(x1, self).v == r1,
                self.v as int == c0 * r0 + c1 * r1,
                P as int == d0 * r0 + d1 * r1,
            decreases r1,
        {
            let q: u64 = r0 / r1;
            let r2: u64 = r0 % r1;
            let qf = Felt::new(q);
            let x2 = x0.sub(qf.mul(x1));
            proof {
                let p = P as int;
                vstd::arithmetic::div_mod::lemma_fundamental_div_mod(r0 as int, r1 as int);
                lemma_mod_bound(r0 as int, r1 as int);
                lemma_mul_is_commutative(q as int, r1 as int);
                // (x0 - q*x1) * a == x0*a - q*(x1*a) == r0 - q*r1 == r2 (mod P)
                lemma_f_mul_distrib_sub(x0, f_mul(qf, x1), self);
                lemma_f_mul_assoc(qf, x1, self);
                // f_mul(qf, x1*a) has value (q * r1) % P
                lemma_mul_mod_noop_left(q as int, r1 as int, p);
                lemma_mod_bound((q * r1) as int, p);
                lemma_mod_bound((x0.v * self.v) as int, p);
                lemma_sub_mod_noop((r0 % P) as int, ((q * r1) as int % p) as int, p);
                lemma_mod_twice(r0 as int, p);
                lemma_mod_twice((q * r1) as int, p);
                lemma_sub_mod_noop(r0 as int, (q * r1) as int, p);
                assert(r0 as int - q * r1 == r2);
                lemma_small_mod(r2 as nat, P as nat);
                assert(f_mul(x2, self).v == r2);
                // the coefficient bookkeeping
                assert(c0 * (q * r1 + r2) + c1 * r1 == (c0 * q + c1) * r1 + c0 * r2)
                    by (nonlinear_arith);
                assert(d0 * (q * r1 + r2) + d1 * r1 == (d0 * q + d1) * r1 + d0 * r2)
                    by (nonlinear_arith);
            }
            proof {
                let tmp0 = c0;
                c0 = c0 * q + c1;
                c1 = tmp0;
                let tmp1 = d0;
                d0 = d0 * q + d1;
                d1 = tmp1;
            }
            r0 = r1;
            r1 = r2;
            x0 = x1;
            x1 = x2;
        }
        if r0 == 1 {
            proof {
                lemma_small_mod(1nat, P as nat);
                assert(f_mul(x0, self) == f_one());
            }
            Some(x0)
        } else {
            proof {
                // r0 > 1 divides both the element and the order, so no
                // product with the element can reach one
                assert forall|t: Felt| #[trigger] f_mul(t, self) != f_one() by {
                    if f_mul(t, self) == f_one() {
                        let p = P as int;
                        let prod = t.v as int * self.v as int;
                        vstd::arithmetic::div_mod::lemma_fundamental_div_mod(prod, p);
                        let k = prod / p;
                        assert(prod % p == 1);
                        assert(prod == k * p + 1);
                        assert(self.v as int == c0 * r0) by {
                            assert(c1 * r1 == c1 * 0);
                            assert(c1 * 0 == 0) by (nonlinear_arith);
                        }
                        assert(p == d0 * r0) by {
                            assert(d1 * 0 == 0) by (nonlinear_arith);
                        }
                        let tv = t.v as int;
                        let e = tv * c0 - k * d0;
                        assert(tv * (c0 * r0) - k * (d0 * r0) == (tv * c0 - k * d0) * r0)
                            by (nonlinear_arith);
                        assert(e * r0 == 1);
                        if e <= 0 {
                            assert(e * r0 <= 0) by (nonlinear_arith)
                                requires
                                    e <= 0,
                                    r0 >= 0,
                            ;
                            assert(false);
                        } else {
                            vstd::arithmetic::mul::lemma_mul_inequality(1, e, r0 as int);
                            assert(e * r0 >= r0);
                            assert(false);
                        }
                    }
                }
            }
            None
        }
    }
}

// ALGEBRAIC LAWS OF THE BASE FIELD
// ================================================================================================

/// Addition is commutative.
pub proof fn lemma_f_add_comm(a: Felt, b: Felt)
    ensures
        f_add(a, b) == f_add(b, a),
{
}

/// Multiplication is commutative.
pub proof fn lemma_f_mul_comm(a: Felt, b: Felt)
    ensures
        f_mul(a, b) == f_mul(b, a),
{
    lemma_mul_is_commutative(a.v as int, b.v as int);
}

/// Addition is associative.
pub proof fn lemma_f_add_assoc(a: Felt, b: Felt, c: Felt)
    requires
        is_felt(a),
        is_felt(b),
        is_felt(c),
    ensures
        f_add(f_add(a, b), c) == f_add(a, f_add(b, c)),
{
    let p = P as int;
    lemma_mod_bound((a.v + b.v) as int, p);
    lemma_mod_bound((b.v + c.v) as int, p);
    lemma_small_mod(c.v as nat, P as nat);
    lemma_small_mod(a.v as nat, P as nat);
    lemma_add_mod_noop((a.v + b.v) as int, c.v as int, p);
    lemma_add_mod_noop(a.v as int, (b.v + c.v) as int, p);
}

/// Multiplication is associative.
pub proof fn lemma_f_mul_assoc(a: Felt, b: Felt, c: Felt)
    ensures
        f_mul(f_mul(a, b), c) == f_mul(a, f_mul(b, c)),
{
    let p = P as int;
    lemma_mod_bound((a.v * b.v) as int, p);
    lemma_mod_bound((b.v * c.v) as int, p);
    lemma_mul_mod_noop_left((a.v * b.v) as int, c.v as int, p);
    lemma_mul_mod_noop_right(a.v as int, (b.v * c.v) as int, p);
    lemma_mul_is_associative(a.v as int, b.v as int, c.v as int);
}

/// An element with a multiplicative inverse.
pub open spec fn f_invertible(a: Felt) -> bool {
    exists|t: Felt| #[trigger] f_mul(t, a) == f_one()
}

/// Multiplication distributes over addition.
pub proof fn lemma_f_mul_distrib(a: Felt, b: Felt, c: Felt)
    ensures
        f_mul(a, f_add(b, c)) == f_add(f_mul(a, b), f_mul(a, c)),
{
    let p = P as int;
    lemma_mod_bound((b.v + c.v) as int, p);
    lemma_mod_bound((a.v * b.v) as int, p);
    lemma_mod_bound((a.v * c.v) as int, p);
    lemma_mul_mod_noop_right(a.v as int, (b.v + c.v) as int, p);
    lemma_mul_is_distributive_add(a.v as int, b.v as int, c.v as int);
    lemma_add_mod_noop((a.v * b.v) as int, (a.v * c.v) as int, p);
}

/// Multiplication distributes over subtraction, on the right.
pub proof fn lemma_f_mul_distrib_sub(a: Felt, b: Felt, c: Felt)
    ensures
        f_mul(f_sub(a, b), c) == f_sub(f_mul(a, c), f_mul(b, c)),
{
    let p = P as int;
    lemma_mod_bound((a.v - b.v) as int, p);
    lemma_mod_bound((a.v * c.v) as int, p);
    lemma_mod_bound((b.v * c.v) as int, p);
    lemma_mul_mod_noop_left((a.v - b.v) as int, c.v as int, p);
    vstd::arithmetic::mul::lemma_mul_is_distributive_sub_other_way(
        c.v as int,
        a.v as int,
        b.v as int,
    );
    lemma_sub_mod_noop((a.v * c.v) as int, (b.v * c.v) as int, p);
}

/// One is the multiplicative identity.
pub proof fn lemma_f_mul_one(a: Felt)
    requires
        is_felt(a),
    ensures
        f_mul(f_one(), a) == a,
        f_mul(a, f_one()) == a,
{
    assert(1 * a.v as int == a.v as int) by (nonlinear_arith);
    assert(a.v as int * 1 == a.v as int) by (nonlinear_arith);
    lemma_small_mod(a.v as nat, P as nat);
}

/// Zero annihilates multiplication.
pub proof fn lemma_f_mul_zero(a: Felt)
    ensures
        f_mul(f_zero(), a) == f_zero(),
        f_mul(a, f_zero()) == f_zero(),
{
    assert(0 * a.v as int == 0) by (nonlinear_arith);
    assert(a.v as int * 0 == 0) by (nonlinear_arith);
    lemma_small_mod(0nat, P as nat);
}

/// Zero is the additive identity.
pub proof fn lemma_f_add_zero(a: Felt)
    requires
        is_felt(a),
    ensures
        f_add(f_zero(), a) == a,
        f_add(a, f_zero()) == a,
{
    lemma_small_mod(a.v as nat, P as nat);
}

/// Adding and then subtracting the same element is the identity.
pub proof fn lemma_f_add_sub_cancel(a: Felt, b: Felt)
    requires
        is_felt(a),
        is_felt(b),
    ensures
        f_sub(f_add(a, b), b) == a,
{
    let p = P as int;
    lemma_mod_bound((a.v + b.v) as int, p);
    lemma_sub_mod_noop((a.v + b.v) as int, b.v as int, p);
    lemma_small_mod(b.v as nat, P as nat);
    lemma_small_mod(a.v as nat, P as nat);
}


// POWERS
// ================================================================================================

/// `base` raised to `e` in the field.
pub open spec fn f_pow(base: Felt, e: nat) -> Felt
    decreases e,
{
    if e == 0 {
        f_one()
    } else {
        f_mul(f_pow(base, (e - 1) as nat), base)
    }
}

/// Every power is canonical.
proof fn lemma_f_pow_canonical(base: Felt, e: nat)
    ensures
        is_felt(f_pow(base, e)),
    decreases e,
{
    if e == 0 {
    } else {
        lemma_f_pow_canonical(base, (e - 1) as nat);
        lemma_mod_bound((f_pow(base, (e - 1) as nat).v * base.v) as int, P as int);
    }
}

/// A power splits off one factor at the front as well as at the back.
proof fn lemma_f_pow_shift(base: Felt, e: nat)
    ensures
        f_pow(base, e + 1) == f_mul(base, f_pow(base, e)),
    decreases e,
{
    if e == 0 {
        lemma_f_mul_comm(f_pow(base, 0), base);
    } else {
        lemma_f_pow_shift(base, (e - 1) as nat);
        lemma_f_mul_assoc(base, f_pow(base, (e - 1) as nat), base);
    }
}

/// A power of a squared base is the power at twice the exponent.
proof fn lemma_f_pow_square(base: Felt, k: nat)
    ensures
        f_pow(f_mul(base, base), k) == f_pow(base, 2 * k),
    decreases k,
{
    if k > 0 {
        lemma_f_pow_square(base, (k - 1) as nat);
        assert(f_pow(f_mul(base, base), k) == f_mul(
            f_pow(base, (2 * k - 2) as nat),
            f_mul(base, base),
        ));
        assert(f_pow(base, 2 * k) == f_mul(f_pow(base, (2 * k - 1) as nat), base));
        assert(f_pow(base, (2 * k - 1) as nat) == f_mul(f_pow(base, (2 * k - 2) as nat), base));
        lemma_f_mul_assoc(f_pow(base, (2 * k - 2) as nat), base, base);
    }
}

/// One square-and-multiply step on an even exponent.
proof fn lemma_f_pow_even(acc: Felt, base: Felt, e: nat)
    requires
        e % 2 == 0,
    ensures
        f_mul(acc, f_pow(f_mul(base, base), (e / 2) as nat)) == f_mul(acc, f_pow(base, e)),
{
    lemma_f_pow_square(base, (e / 2) as nat);
}

/// One square-and-multiply step on an odd exponent.
proof fn lemma_f_pow_odd(acc: Felt, base: Felt, e: nat)
    requires
        e % 2 == 1,
    ensures
        f_mul(f_mul(acc, base), f_pow(f_mul(base, base), (e / 2) as nat)) == f_mul(
            acc,
            f_pow(base, e),
        ),
{
    let k = (e / 2) as nat;
    lemma_f_pow_square(base, k);
    assert(2 * k == e - 1);
    lemma_f_pow_shift(base, (e - 1) as nat);
    lemma_f_mul_assoc(acc, base, f_pow(base, (e - 1) as nat));
}

} // verus!
