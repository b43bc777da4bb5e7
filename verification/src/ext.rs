//! The quadratic extension of the base field, with defining relation
//! `x^2 = x - 2`.
//!
//! The random challenges of the bus and virtual-table arguments, and the
//! auxiliary columns built from them, live in this field. The laws proved
//! here (commutativity, associativity, identity) are what the running
//! product arguments rest on.

use crate::felt::{
    f_add, f_invertible, f_mul, f_one, f_sub, f_zero, is_felt, lemma_f_mul_comm, lemma_f_mul_one,
    lemma_f_mul_zero, Felt, P,
};
use vstd::arithmetic::div_mod::{
    lemma_add_mod_noop, lemma_mod_bound, lemma_mod_twice, lemma_mul_mod_noop_left,
    lemma_mul_mod_noop_right, lemma_small_mod, lemma_sub_mod_noop,
};
use vstd::prelude::*;

verus! {

/// An element `c0 + c1 * x` of the quadratic extension.
#[derive(Clone, Copy, PartialEq, Eq, Structural, Debug)]
pub struct Ext2 {
    pub c0: Felt,
    pub c1: Felt,
}

/// Both coordinates are canonical base-field elements.
pub open spec fn is_ext(a: Ext2) -> bool {
    is_felt(a.c0) && is_felt(a.c1)
}

pub open spec fn e_zero() -> Ext2 {
    Ext2 { c0: f_zero(), c1: f_zero() }
}

pub open spec fn e_one() -> Ext2 {
    Ext2 { c0: f_one(), c1: f_zero() }
}

/// Embedding of the base field.
pub open spec fn e_from(a: Felt) -> Ext2 {
    Ext2 { c0: a, c1: f_zero() }
}

pub open spec fn e_add(a: Ext2, b: Ext2) -> Ext2 {
    Ext2 { c0: f_add(a.c0, b.c0), c1: f_add(a.c1, b.c1) }
}

pub open spec fn e_sub(a: Ext2, b: Ext2) -> Ext2 {
    Ext2 { c0: f_sub(a.c0, b.c0), c1: f_sub(a.c1, b.c1) }
}

/// Multiplication by a base-field element.
pub open spec fn e_mul_base(a: Ext2, b: Felt) -> Ext2 {
    Ext2 { c0: f_mul(a.c0, b), c1: f_mul(a.c1, b) }
}

/// Full extension-field multiplication under `x^2 = x - 2`.
pub open spec fn e_mul(a: Ext2, b: Ext2) -> Ext2 {
    Ext2 {
        c0: f_sub(f_mul(a.c0, b.c0), f_add(f_mul(a.c1, b.c1), f_mul(a.c1, b.c1))),
        c1: f_add(f_add(f_mul(a.c0, b.c1), f_mul(a.c1, b.c0)), f_mul(a.c1, b.c1)),
    }
}

/// An element with a two-sided inverse under extension multiplication.
pub open spec fn invertible(x: Ext2) -> bool {
    exists|u: Ext2| #[trigger] e_mul(u, x) == e_one()
}

/// The conjugate: the image of an element under the other root of the
/// defining relation, `x -> 1 - x`.
pub open spec fn e_conj(x: Ext2) -> Ext2 {
    Ext2 { c0: f_add(x.c0, x.c1), c1: f_sub(f_zero(), x.c1) }
}

/// The norm: the base-field coordinate of an element times its
/// conjugate.
pub open spec fn e_norm(x: Ext2) -> Felt {
    e_mul(x, e_conj(x)).c0
}

impl Ext2 {
    pub fn zero() -> (r: Ext2)
        ensures
            r == e_zero(),
            is_ext(r),
    {
        Ext2 { c0: Felt::zero(), c1: Felt::zero() }
    }

    pub fn one() -> (r: Ext2)
        ensures
            r == e_one(),
            is_ext(r),
    {
        Ext2 { c0: Felt::one(), c1: Felt::zero() }
    }

    /// Embeds a base-field element.
    pub fn from_base(a: Felt) -> (r: Ext2)
        requires
            is_felt(a),
        ensures
            r == e_from(a),
            is_ext(r),
    {
        Ext2 { c0: a, c1: Felt::zero() }
    }

    pub fn add(self, other: Ext2) -> (r: Ext2)
        requires
            is_ext(self),
            is_ext(other),
        ensures
            r == e_add(self, other),
            is_ext(r),
    {
        Ext2 { c0: self.c0.add(other.c0), c1: self.c1.add(other.c1) }
    }

    pub fn sub(self, other: Ext2) -> (r: Ext2)
        requires
            is_ext(self),
            is_ext(other),
        ensures
            r == e_sub(self, other),
            is_ext(r),
    {
        Ext2 { c0: self.c0.sub(other.c0), c1: self.c1.sub(other.c1) }
    }

    /// Multiplies by a base-field element.
    pub fn mul_base(self, other: Felt) -> (r: Ext2)
        requires
            is_ext(self),
            is_felt(other),
        ensures
            r == e_mul_base(self, other),
            is_ext(r),
    {
        Ext2 { c0: self.c0.mul(other), c1: self.c1.mul(other) }
    }

    /// Full extension-field multiplication.
    pub fn mul(self, other: Ext2) -> (r: Ext2)
        requires
            is_ext(self),
            is_ext(other),
        ensures
            r == e_mul(self, other),
            is_ext(r),
    {
        let a0b0 = self.c0.mul(other.c0);
        let a1b1 = self.c1.mul(other.c1);
        let c0 = a0b0.sub(a1b1.add(a1b1));
        let c1 = self.c0.mul(other.c1).add(self.c1.mul(other.c0)).add(a1b1);
        Ext2 { c0, c1 }
    }

    /// Attempts to invert this element, and succeeds exactly on the
    /// invertible ones.
    ///
    /// The candidate is the conjugate scaled by the inverse of the
    /// norm. An inverse of the element yields an inverse of its norm
    /// (the conjugate is a ring map), so the base-field inversion
    /// decides invertibility here too.
    pub fn try_inv(self) -> (r: Option<Ext2>)
        requires
            is_ext(self),
        ensures
            (r is Some) <==> invertible(self),
            match r {
                Some(t) => is_ext(t) && e_mul(t, self) == e_one(),
                None => true,
            },
            self == e_zero() ==> r is None,
    {
        let conj = Ext2 { c0: self.c0.add(self.c1), c1: self.c1.neg() };
        proof {
            assert(conj == e_conj(self));
        }
        let norm = self.mul(conj).c0;
        proof {
            assert(norm == e_norm(self));
        }
        match norm.try_inv() {
            Some(n_inv) => {
                let candidate = conj.mul_base(n_inv);
                proof {
                    lemma_norm_inverse_gives_inverse(self, n_inv);
                    assert(e_mul(candidate, self) == e_one());
                    if self == e_zero() {
                        lemma_f_mul_zero(candidate.c0);
                        lemma_f_mul_zero(candidate.c1);
                        assert(e_mul(candidate, self).c0.v == ((0int - (0int + 0int)) % (
                        P as int)) as u64);
                        assert(false);
                    }
                }
                Some(candidate)
            },
            None => {
                proof {
                    assert forall|t: Ext2| #[trigger] e_mul(t, self) != e_one() by {
                        if e_mul(t, self) == e_one() {
                            lemma_inverse_gives_norm_inverse(self, t);
                        }
                    }
                }
                None
            },
        }
    }
}

// CANONICAL INTEGER FORM OF A PRODUCT
// ================================================================================================

/// The two coordinates of a product, as plain integer polynomials reduced
/// once at the end. This is the bridge between the nested modular
/// operations of `e_mul` and ring reasoning over the integers.
pub proof fn lemma_e_mul_canon(a: Ext2, b: Ext2)
    ensures
        e_mul(a, b).c0.v as int == (a.c0.v * b.c0.v - 2 * (a.c1.v * b.c1.v)) % (P as int),
        e_mul(a, b).c1.v as int == (a.c0.v * b.c1.v + a.c1.v * b.c0.v + a.c1.v * b.c1.v) % (
        P as int),
{
    let p = P as int;
    let x = a.c0.v * b.c0.v;
    let y = a.c1.v * b.c1.v;
    let z = a.c0.v * b.c1.v;
    let w = a.c1.v * b.c0.v;
    // c0: ((x % p) - ((y % p + y % p) % p)) % p == (x - 2y) % p
    lemma_add_mod_noop(y, y, p);
    lemma_sub_mod_noop(x, y + y, p);
    lemma_mod_bound(x, p);
    lemma_mod_bound(y, p);
    assert(f_sub(f_mul(a.c0, b.c0), f_add(f_mul(a.c1, b.c1), f_mul(a.c1, b.c1))).v as int == (x - (y
        + y)) % p);
    assert(x - (y + y) == x - 2 * y) by (nonlinear_arith);
    // c1: (((z % p) + (w % p)) % p + (y % p)) % p == (z + w + y) % p
    lemma_add_mod_noop(z, w, p);
    lemma_add_mod_noop(z + w, y, p);
    lemma_mod_bound(z, p);
    lemma_mod_bound(w, p);
    lemma_mod_bound(z + w, p);
}

// ALGEBRAIC LAWS OF THE EXTENSION FIELD
// ================================================================================================

/// Multiplication is commutative.
pub proof fn lemma_e_mul_comm(a: Ext2, b: Ext2)
    ensures
        e_mul(a, b) == e_mul(b, a),
{
    let p = P as int;
    lemma_e_mul_canon(a, b);
    lemma_e_mul_canon(b, a);
    assert(a.c0.v * b.c0.v - 2 * (a.c1.v * b.c1.v) == b.c0.v * a.c0.v - 2 * (b.c1.v * a.c1.v))
        by (nonlinear_arith);
    assert(a.c0.v * b.c1.v + a.c1.v * b.c0.v + a.c1.v * b.c1.v == b.c0.v * a.c1.v + b.c1.v * a.c0.v
        + b.c1.v * a.c1.v) by (nonlinear_arith);
    assert(e_mul(a, b).c0.v == e_mul(b, a).c0.v);
    assert(e_mul(a, b).c1.v == e_mul(b, a).c1.v);
}

/// One is the multiplicative identity.
pub proof fn lemma_e_mul_one(a: Ext2)
    requires
        is_ext(a),
    ensures
        e_mul(e_one(), a) == a,
        e_mul(a, e_one()) == a,
{
    let p = P as int;
    lemma_e_mul_canon(e_one(), a);
    lemma_e_mul_canon(a, e_one());
    assert(1 * a.c0.v - 2 * (0 * a.c1.v) == a.c0.v) by (nonlinear_arith);
    assert(1 * a.c1.v + 0 * a.c0.v + 0 * a.c1.v == a.c1.v) by (nonlinear_arith);
    assert(a.c0.v * 1 - 2 * (a.c1.v * 0) == a.c0.v) by (nonlinear_arith);
    assert(a.c0.v * 0 + a.c1.v * 1 + a.c1.v * 0 == a.c1.v) by (nonlinear_arith);
    lemma_small_mod(a.c0.v as nat, P as nat);
    lemma_small_mod(a.c1.v as nat, P as nat);
}

/// Replacing a factor by an integer with the same residue does not change
/// a reduced product.
proof fn lemma_mul_sub_cong(x: int, x0: int, y: int, y0: int, m: int)
    requires
        m > 0,
        x % m == x0 % m,
        y % m == y0 % m,
    ensures
        (x - 2 * y) % m == (x0 - 2 * y0) % m,
{
    lemma_mul_mod_noop_right(2, x, m);
    lemma_mul_mod_noop_right(2, x0, m);
    lemma_mul_mod_noop_right(2, y, m);
    lemma_mul_mod_noop_right(2, y0, m);
    lemma_sub_mod_noop(x, 2 * y, m);
    lemma_sub_mod_noop(x0, 2 * y0, m);
}

/// The same, for a three-term sum.
proof fn lemma_add3_cong(x: int, x0: int, y: int, y0: int, z: int, z0: int, m: int)
    requires
        m > 0,
        x % m == x0 % m,
        y % m == y0 % m,
        z % m == z0 % m,
    ensures
        (x + y + z) % m == (x0 + y0 + z0) % m,
{
    lemma_add_mod_noop(x, y, m);
    lemma_add_mod_noop(x0, y0, m);
    lemma_add_mod_noop(x + y, z, m);
    lemma_add_mod_noop(x0 + y0, z0, m);
}

/// A product with a residue-class factor on the left.
proof fn lemma_mul_left_cong(x: int, x0: int, y: int, m: int)
    requires
        m > 0,
        x % m == x0 % m,
    ensures
        (x * y) % m == (x0 * y) % m,
{
    lemma_mul_mod_noop_left(x, y, m);
    lemma_mul_mod_noop_left(x0, y, m);
}

/// A product with a residue-class factor on the right.
proof fn lemma_mul_right_cong(x: int, y: int, y0: int, m: int)
    requires
        m > 0,
        y % m == y0 % m,
    ensures
        (x * y) % m == (x * y0) % m,
{
    lemma_mul_mod_noop_right(x, y, m);
    lemma_mul_mod_noop_right(x, y0, m);
}

/// Distributes a two-term difference over a product, factor on the left.
proof fn lemma_dist_sub_l(x: int, y: int, c: int)
    by (nonlinear_arith)
    ensures
        c * (x - 2 * y) == c * x - 2 * (c * y),
{
}

/// Distributes a three-term sum over a product, factor on the left.
proof fn lemma_dist_add3_l(x: int, y: int, z: int, c: int)
    by (nonlinear_arith)
    ensures
        c * (x + y + z) == c * x + c * y + c * z,
{
}

/// Distributes a two-term difference over a product.
proof fn lemma_dist_sub(x: int, y: int, c: int)
    by (nonlinear_arith)
    ensures
        (x - 2 * y) * c == x * c - 2 * (y * c),
{
}

/// Distributes a three-term sum over a product.
proof fn lemma_dist_add3(x: int, y: int, z: int, c: int)
    by (nonlinear_arith)
    ensures
        (x + y + z) * c == x * c + y * c + z * c,
{
}

/// The permutations of a three-factor product.
proof fn lemma_perm3(x: int, y: int, z: int)
    by (nonlinear_arith)
    ensures
        (y * z) * x == (x * y) * z,
        (x * z) * y == (x * y) * z,
        x * (y * z) == (x * y) * z,
{
}

/// The degree-three ring identity behind associativity, first coordinate.
proof fn lemma_assoc_poly0(a0: int, a1: int, b0: int, b1: int, c0: int, c1: int)
    ensures
        (a0 * b0 - 2 * (a1 * b1)) * c0 - 2 * ((a0 * b1 + a1 * b0 + a1 * b1) * c1) == a0 * (b0
            * c0 - 2 * (b1 * c1)) - 2 * (a1 * (b0 * c1 + b1 * c0 + b1 * c1)),
{
    lemma_dist_sub(a0 * b0, a1 * b1, c0);
    lemma_dist_add3(a0 * b1, a1 * b0, a1 * b1, c1);
    lemma_dist_sub_l(b0 * c0, b1 * c1, a0);
    lemma_dist_add3_l(b0 * c1, b1 * c0, b1 * c1, a1);
    lemma_perm3(a0, b0, c0);
    lemma_perm3(a0, b1, c1);
    lemma_perm3(a1, b0, c1);
    lemma_perm3(a1, b1, c0);
    lemma_perm3(a1, b1, c1);
}

/// The degree-three ring identity behind associativity, second coordinate.
proof fn lemma_assoc_poly1(a0: int, a1: int, b0: int, b1: int, c0: int, c1: int)
    ensures
        (a0 * b0 - 2 * (a1 * b1)) * c1 + (a0 * b1 + a1 * b0 + a1 * b1) * c0 + (a0 * b1 + a1 * b0
            + a1 * b1) * c1 == a0 * (b0 * c1 + b1 * c0 + b1 * c1) + a1 * (b0 * c0 - 2 * (b1 * c1))
            + a1 * (b0 * c1 + b1 * c0 + b1 * c1),
{
    lemma_dist_sub(a0 * b0, a1 * b1, c1);
    lemma_dist_add3(a0 * b1, a1 * b0, a1 * b1, c0);
    lemma_dist_add3(a0 * b1, a1 * b0, a1 * b1, c1);
    lemma_dist_add3_l(b0 * c1, b1 * c0, b1 * c1, a0);
    lemma_dist_sub_l(b0 * c0, b1 * c1, a1);
    lemma_dist_add3_l(b0 * c1, b1 * c0, b1 * c1, a1);
    lemma_perm3(a0, b0, c1);
    lemma_perm3(a0, b1, c0);
    lemma_perm3(a0, b1, c1);
    lemma_perm3(a1, b0, c0);
    lemma_perm3(a1, b0, c1);
    lemma_perm3(a1, b1, c0);
    lemma_perm3(a1, b1, c1);
}

/// The reduced residues of the pair products associate, first
/// coordinate. `uu0`/`uu1` stand for the stored coordinates of `a*b`,
/// `vv0`/`vv1` for those of `b*c`.
#[verifier::spinoff_prover]
proof fn lemma_assoc_int0(
    a0: int,
    a1: int,
    b0: int,
    b1: int,
    c0: int,
    c1: int,
    uu0: int,
    uu1: int,
    vv0: int,
    vv1: int,
)
    requires
        uu0 == (a0 * b0 - 2 * (a1 * b1)) % (P as int),
        uu1 == (a0 * b1 + a1 * b0 + a1 * b1) % (P as int),
        vv0 == (b0 * c0 - 2 * (b1 * c1)) % (P as int),
        vv1 == (b0 * c1 + b1 * c0 + b1 * c1) % (P as int),
    ensures
        (uu0 * c0 - 2 * (uu1 * c1)) % (P as int) == (a0 * vv0 - 2 * (a1 * vv1)) % (P as int),
{
    let p = P as int;
    let u0 = a0 * b0 - 2 * (a1 * b1);
    let u1 = a0 * b1 + a1 * b0 + a1 * b1;
    let v0 = b0 * c0 - 2 * (b1 * c1);
    let v1 = b0 * c1 + b1 * c0 + b1 * c1;
    lemma_mod_twice(u0, p);
    lemma_mod_twice(u1, p);
    lemma_mod_twice(v0, p);
    lemma_mod_twice(v1, p);
    lemma_mul_left_cong(uu0, u0, c0, p);
    lemma_mul_left_cong(uu1, u1, c1, p);
    lemma_mul_sub_cong(uu0 * c0, u0 * c0, uu1 * c1, u1 * c1, p);
    lemma_mul_right_cong(a0, vv0, v0, p);
    lemma_mul_right_cong(a1, vv1, v1, p);
    lemma_mul_sub_cong(a0 * vv0, a0 * v0, a1 * vv1, a1 * v1, p);
    lemma_assoc_poly0(a0, a1, b0, b1, c0, c1);
}

/// The reduced residues of the pair products associate, second
/// coordinate.
#[verifier::spinoff_prover]
proof fn lemma_assoc_int1(
    a0: int,
    a1: int,
    b0: int,
    b1: int,
    c0: int,
    c1: int,
    uu0: int,
    uu1: int,
    vv0: int,
    vv1: int,
)
    requires
        uu0 == (a0 * b0 - 2 * (a1 * b1)) % (P as int),
        uu1 == (a0 * b1 + a1 * b0 + a1 * b1) % (P as int),
        vv0 == (b0 * c0 - 2 * (b1 * c1)) % (P as int),
        vv1 == (b0 * c1 + b1 * c0 + b1 * c1) % (P as int),
    ensures
        (uu0 * c1 + uu1 * c0 + uu1 * c1) % (P as int) == (a0 * vv1 + a1 * vv0 + a1 * vv1) % (
        P as int),
{
    let p = P as int;
    let u0 = a0 * b0 - 2 * (a1 * b1);
    let u1 = a0 * b1 + a1 * b0 + a1 * b1;
    let v0 = b0 * c0 - 2 * (b1 * c1);
    let v1 = b0 * c1 + b1 * c0 + b1 * c1;
    lemma_mod_twice(u0, p);
    lemma_mod_twice(u1, p);
    lemma_mod_twice(v0, p);
    lemma_mod_twice(v1, p);
    lemma_mul_left_cong(uu0, u0, c1, p);
    lemma_mul_left_cong(uu1, u1, c0, p);
    lemma_mul_left_cong(uu1, u1, c1, p);
    lemma_add3_cong(uu0 * c1, u0 * c1, uu1 * c0, u1 * c0, uu1 * c1, u1 * c1, p);
    lemma_mul_right_cong(a0, vv1, v1, p);
    lemma_mul_right_cong(a1, vv0, v0, p);
    lemma_mul_right_cong(a1, vv1, v1, p);
    lemma_add3_cong(a0 * vv1, a0 * v1, a1 * vv0, a1 * v0, a1 * vv1, a1 * v1, p);
    lemma_assoc_poly1(a0, a1, b0, b1, c0, c1);
}

/// Associativity, first coordinate.
#[verifier::spinoff_prover]
proof fn lemma_e_mul_assoc0(a: Ext2, b: Ext2, c: Ext2)
    ensures
        e_mul(e_mul(a, b), c).c0 == e_mul(a, e_mul(b, c)).c0,
{
    let u = e_mul(a, b);
    let v = e_mul(b, c);
    lemma_e_mul_canon(a, b);
    lemma_e_mul_canon(b, c);
    lemma_e_mul_canon(u, c);
    lemma_e_mul_canon(a, v);
    lemma_assoc_int0(
        a.c0.v as int,
        a.c1.v as int,
        b.c0.v as int,
        b.c1.v as int,
        c.c0.v as int,
        c.c1.v as int,
        u.c0.v as int,
        u.c1.v as int,
        v.c0.v as int,
        v.c1.v as int,
    );
}

/// Associativity, second coordinate.
#[verifier::spinoff_prover]
proof fn lemma_e_mul_assoc1(a: Ext2, b: Ext2, c: Ext2)
    ensures
        e_mul(e_mul(a, b), c).c1 == e_mul(a, e_mul(b, c)).c1,
{
    let u = e_mul(a, b);
    let v = e_mul(b, c);
    lemma_e_mul_canon(a, b);
    lemma_e_mul_canon(b, c);
    lemma_e_mul_canon(u, c);
    lemma_e_mul_canon(a, v);
    lemma_assoc_int1(
        a.c0.v as int,
        a.c1.v as int,
        b.c0.v as int,
        b.c1.v as int,
        c.c0.v as int,
        c.c1.v as int,
        u.c0.v as int,
        u.c1.v as int,
        v.c0.v as int,
        v.c1.v as int,
    );
}

/// Multiplication is associative.
pub proof fn lemma_e_mul_assoc(a: Ext2, b: Ext2, c: Ext2)
    ensures
        e_mul(e_mul(a, b), c) == e_mul(a, e_mul(b, c)),
{
    lemma_e_mul_assoc0(a, b, c);
    lemma_e_mul_assoc1(a, b, c);
}

/// A product of the form `t * a == 1` survives multiplication on both
/// sides of any equation: if `x * q == y` and `t * q == 1` then
/// `x == y * t`. This is the cancellation step of the bus argument.
pub proof fn lemma_e_cancel(x: Ext2, y: Ext2, q: Ext2, t: Ext2)
    requires
        is_ext(x),
        e_mul(x, q) == y,
        e_mul(t, q) == e_one(),
    ensures
        x == e_mul(y, t),
{
    lemma_e_mul_assoc(x, q, t);
    lemma_e_mul_comm(q, t);
    lemma_e_mul_assoc(x, t, q);
    lemma_e_mul_comm(x, e_one());
    lemma_e_mul_one(x);
    lemma_e_mul_comm(e_mul(x, q), t);
    lemma_e_mul_comm(y, t);
    assert(e_mul(y, t) == e_mul(t, e_mul(x, q)));
    lemma_e_mul_comm(t, e_mul(x, q));
    lemma_e_mul_assoc(x, q, t);
    assert(e_mul(e_mul(x, q), t) == e_mul(x, e_mul(q, t)));
    assert(e_mul(x, e_mul(q, t)) == e_mul(x, e_one()));
}


/// Every arithmetic result is canonical: the operations reduce modulo
/// the field order as their last step.
pub proof fn lemma_e_ops_canonical()
    ensures
        forall|x: Ext2, y: Ext2| is_ext(#[trigger] e_add(x, y)),
        forall|x: Ext2, y: Ext2| is_ext(#[trigger] e_sub(x, y)),
        forall|x: Ext2, y: Ext2| is_ext(#[trigger] e_mul(x, y)),
        forall|x: Ext2, y: Felt| is_ext(#[trigger] e_mul_base(x, y)),
        is_ext(e_one()),
        is_ext(e_zero()),
{
    assert forall|x: Ext2, y: Ext2| is_ext(#[trigger] e_add(x, y)) by {
        lemma_mod_bound((x.c0.v + y.c0.v) as int, P as int);
        lemma_mod_bound((x.c1.v + y.c1.v) as int, P as int);
    }
    assert forall|x: Ext2, y: Ext2| is_ext(#[trigger] e_sub(x, y)) by {
        lemma_mod_bound((x.c0.v - y.c0.v) as int, P as int);
        lemma_mod_bound((x.c1.v - y.c1.v) as int, P as int);
    }
    assert forall|x: Ext2, y: Ext2| is_ext(#[trigger] e_mul(x, y)) by {
        lemma_mod_bound((x.c0.v * y.c0.v) as int, P as int);
        lemma_mod_bound((x.c1.v * y.c1.v) as int, P as int);
        lemma_mod_bound(
            (f_mul(x.c0, y.c0).v - (f_add(f_mul(x.c1, y.c1), f_mul(x.c1, y.c1))).v) as int,
            P as int,
        );
        lemma_mod_bound(
            ((f_add(f_mul(x.c0, y.c1), f_mul(x.c1, y.c0))).v + (f_mul(x.c1, y.c1)).v) as int,
            P as int,
        );
    }
    assert forall|x: Ext2, y: Felt| is_ext(#[trigger] e_mul_base(x, y)) by {
        lemma_mod_bound((x.c0.v * y.v) as int, P as int);
        lemma_mod_bound((x.c1.v * y.v) as int, P as int);
    }
}

/// Factors of a four-element product may trade places.
pub proof fn lemma_e_mul_four_swap(a: Ext2, b: Ext2, c: Ext2, d: Ext2)
    ensures
        e_mul(e_mul(a, b), e_mul(c, d)) == e_mul(e_mul(a, c), e_mul(b, d)),
{
    lemma_e_mul_assoc(e_mul(a, b), c, d);
    lemma_e_mul_assoc(a, b, c);
    lemma_e_mul_comm(b, c);
    lemma_e_mul_assoc(a, c, b);
    lemma_e_mul_assoc(e_mul(a, c), b, d);
}


// THE CONJUGATE AND THE NORM
// ================================================================================================

/// The conjugate of a product is the product of the conjugates.
#[verifier::spinoff_prover]
proof fn lemma_e_conj_mul(x: Ext2, y: Ext2)
    ensures
        e_mul(e_conj(x), e_conj(y)) == e_conj(e_mul(x, y)),
{
    let p = P as int;
    let x0 = x.c0.v as int;
    let x1 = x.c1.v as int;
    let y0 = y.c0.v as int;
    let y1 = y.c1.v as int;
    let cx = e_conj(x);
    let cy = e_conj(y);
    let m = e_mul(x, y);
    lemma_e_mul_canon(cx, cy);
    lemma_e_mul_canon(x, y);
    // the conjugate coordinates are single reductions
    assert(cx.c0.v as int == (x0 + x1) % p);
    assert(cx.c1.v as int == (0 - x1) % p);
    assert(cy.c0.v as int == (y0 + y1) % p);
    assert(cy.c1.v as int == (0 - y1) % p);
    // left side, coordinate 0
    vstd::arithmetic::div_mod::lemma_mul_mod_noop_general(x0 + x1, y0 + y1, p);
    vstd::arithmetic::div_mod::lemma_mul_mod_noop_general(0 - x1, 0 - y1, p);
    assert((0 - x1) * (0 - y1) == x1 * y1) by (nonlinear_arith);
    lemma_mul_sub_cong(
        cx.c0.v as int * cy.c0.v as int,
        (x0 + x1) * (y0 + y1),
        cx.c1.v as int * cy.c1.v as int,
        x1 * y1,
        p,
    );
    // right side, coordinate 0: (m0 + m1) % p
    lemma_add_mod_noop(x0 * y0 - 2 * (x1 * y1), x0 * y1 + x1 * y0 + x1 * y1, p);
    assert((x0 + x1) * (y0 + y1) - 2 * (x1 * y1) == (x0 * y0 - 2 * (x1 * y1)) + (x0 * y1 + x1 * y0
        + x1 * y1)) by (nonlinear_arith);
    assert(e_mul(cx, cy).c0 == e_conj(m).c0);
    // left side, coordinate 1
    vstd::arithmetic::div_mod::lemma_mul_mod_noop_general(x0 + x1, 0 - y1, p);
    vstd::arithmetic::div_mod::lemma_mul_mod_noop_general(0 - x1, y0 + y1, p);
    lemma_add3_cong(
        cx.c0.v as int * cy.c1.v as int,
        (x0 + x1) * (0 - y1),
        cx.c1.v as int * cy.c0.v as int,
        (0 - x1) * (y0 + y1),
        cx.c1.v as int * cy.c1.v as int,
        x1 * y1,
        p,
    );
    // right side, coordinate 1: (0 - m1) % p
    lemma_small_mod(0nat, P as nat);
    lemma_sub_mod_noop(0, x0 * y1 + x1 * y0 + x1 * y1, p);
    assert((x0 + x1) * (0 - y1) + (0 - x1) * (y0 + y1) + x1 * y1 == 0 - (x0 * y1 + x1 * y0 + x1
        * y1)) by (nonlinear_arith);
    assert(e_mul(cx, cy).c1 == e_conj(m).c1);
}

/// The conjugate of one is one.
proof fn lemma_e_conj_one()
    ensures
        e_conj(e_one()) == e_one(),
{
    lemma_small_mod(1nat, P as nat);
    lemma_small_mod(0nat, P as nat);
}

/// The embedding of the base field is multiplicative.
proof fn lemma_e_from_mul(a: Felt, b: Felt)
    ensures
        e_mul(e_from(a), e_from(b)) == e_from(f_mul(a, b)),
{
    let p = P as int;
    lemma_e_mul_canon(e_from(a), e_from(b));
    assert(a.v * b.v - 2 * (0 * 0) == a.v * b.v) by (nonlinear_arith);
    assert(a.v as int * 0 + 0 * b.v + 0 * b.v == 0) by (nonlinear_arith);
    lemma_small_mod(0nat, P as nat);
}

/// An element times its conjugate is the embedded norm: the second
/// coordinate vanishes.
proof fn lemma_e_norm_factorization(x: Ext2)
    ensures
        e_mul(x, e_conj(x)) == e_from(e_norm(x)),
{
    let p = P as int;
    let x0 = x.c0.v as int;
    let x1 = x.c1.v as int;
    let cx = e_conj(x);
    lemma_e_mul_canon(x, cx);
    assert(cx.c0.v as int == (x0 + x1) % p);
    assert(cx.c1.v as int == (0 - x1) % p);
    vstd::arithmetic::div_mod::lemma_mul_mod_noop_right(x0, 0 - x1, p);
    vstd::arithmetic::div_mod::lemma_mul_mod_noop_right(x1, x0 + x1, p);
    vstd::arithmetic::div_mod::lemma_mul_mod_noop_right(x1, 0 - x1, p);
    lemma_add3_cong(
        x0 * cx.c1.v as int,
        x0 * (0 - x1),
        x1 * cx.c0.v as int,
        x1 * (x0 + x1),
        x1 * cx.c1.v as int,
        x1 * (0 - x1),
        p,
    );
    assert(x0 * (0 - x1) + x1 * (x0 + x1) + x1 * (0 - x1) == 0) by (nonlinear_arith);
    lemma_small_mod(0nat, P as nat);
    assert(e_mul(x, cx).c1.v == 0);
}

/// A base-field scale factor moves across a product.
#[verifier::spinoff_prover]
proof fn lemma_e_mul_base_swap(a: Ext2, s: Felt, b: Ext2)
    ensures
        e_mul(e_mul_base(a, s), b) == e_mul_base(e_mul(a, b), s),
{
    let p = P as int;
    let a0 = a.c0.v as int;
    let a1 = a.c1.v as int;
    let b0 = b.c0.v as int;
    let b1 = b.c1.v as int;
    let sv = s.v as int;
    let sa = e_mul_base(a, s);
    let m = e_mul(a, b);
    lemma_e_mul_canon(sa, b);
    lemma_e_mul_canon(a, b);
    assert(sa.c0.v as int == (a0 * sv) % p);
    assert(sa.c1.v as int == (a1 * sv) % p);
    // left coordinates as reduced polynomials
    lemma_mul_left_cong(sa.c0.v as int, a0 * sv, b0, p);
    lemma_mul_left_cong(sa.c1.v as int, a1 * sv, b1, p);
    lemma_mul_sub_cong(
        sa.c0.v as int * b0,
        (a0 * sv) * b0,
        sa.c1.v as int * b1,
        (a1 * sv) * b1,
        p,
    );
    lemma_mul_left_cong(sa.c0.v as int, a0 * sv, b1, p);
    lemma_mul_left_cong(sa.c1.v as int, a1 * sv, b0, p);
    lemma_add3_cong(
        sa.c0.v as int * b1,
        (a0 * sv) * b1,
        sa.c1.v as int * b0,
        (a1 * sv) * b0,
        sa.c1.v as int * b1,
        (a1 * sv) * b1,
        p,
    );
    // right coordinates as reduced polynomials
    lemma_mul_left_cong(m.c0.v as int, a0 * b0 - 2 * (a1 * b1), sv, p);
    lemma_mul_left_cong(m.c1.v as int, a0 * b1 + a1 * b0 + a1 * b1, sv, p);
    assert((a0 * sv) * b0 - 2 * ((a1 * sv) * b1) == (a0 * b0 - 2 * (a1 * b1)) * sv)
        by (nonlinear_arith);
    assert((a0 * sv) * b1 + (a1 * sv) * b0 + (a1 * sv) * b1 == (a0 * b1 + a1 * b0 + a1 * b1) * sv)
        by (nonlinear_arith);
}

/// Scaling an embedded element stays in the base field.
proof fn lemma_e_mul_base_from(a: Felt, s: Felt)
    ensures
        e_mul_base(e_from(a), s) == e_from(f_mul(a, s)),
{
    let p = P as int;
    assert(0 * s.v == 0) by (nonlinear_arith);
    lemma_small_mod(0nat, P as nat);
}

/// With an inverse of the norm in hand, the scaled conjugate is an
/// inverse of the element.
proof fn lemma_norm_inverse_gives_inverse(x: Ext2, di: Felt)
    requires
        f_mul(di, e_norm(x)) == f_one(),
    ensures
        e_mul(e_mul_base(e_conj(x), di), x) == e_one(),
{
    lemma_e_mul_base_swap(e_conj(x), di, x);
    lemma_e_mul_comm(e_conj(x), x);
    lemma_e_norm_factorization(x);
    lemma_e_mul_base_from(e_norm(x), di);
    lemma_f_mul_comm(e_norm(x), di);
}

/// An inverse of the element yields an inverse of its norm.
proof fn lemma_inverse_gives_norm_inverse(x: Ext2, t: Ext2)
    requires
        e_mul(t, x) == e_one(),
    ensures
        f_invertible(e_norm(x)),
{
    lemma_e_norm_factorization(t);
    lemma_e_norm_factorization(x);
    lemma_e_from_mul(e_norm(t), e_norm(x));
    lemma_e_mul_four_swap(t, e_conj(t), x, e_conj(x));
    lemma_e_conj_mul(t, x);
    lemma_e_conj_one();
    lemma_e_ops_canonical();
    lemma_e_mul_one(e_one());
    // e_from(N(t) * N(x)) == (t conj t)(x conj x) == (t x)(conj t conj x)
    //                     == one * conj(one) == one
    assert(e_from(f_mul(e_norm(t), e_norm(x))) == e_mul(
        e_mul(t, e_conj(t)),
        e_mul(x, e_conj(x)),
    ));
    assert(e_mul(e_mul(t, e_conj(t)), e_mul(x, e_conj(x))) == e_mul(
        e_mul(t, x),
        e_mul(e_conj(t), e_conj(x)),
    ));
    assert(e_mul(e_conj(t), e_conj(x)) == e_conj(e_mul(t, x)));
    assert(e_mul(e_mul(t, x), e_conj(e_mul(t, x))) == e_mul(e_one(), e_one()));
    assert(f_mul(e_norm(t), e_norm(x)) == f_one());
}


/// Zero has no inverse: the product against any element stays zero.
pub proof fn lemma_zero_not_invertible()
    ensures
        !invertible(e_zero()),
{
    assert forall|t: Ext2| #[trigger] e_mul(t, e_zero()) != e_one() by {
        lemma_f_mul_zero(t.c0);
        lemma_f_mul_zero(t.c1);
        lemma_small_mod(0nat, P as nat);
    }
}

/// One is its own inverse.
pub proof fn lemma_one_invertible()
    ensures
        invertible(e_one()),
{
    lemma_e_ops_canonical();
    lemma_e_mul_one(e_one());
    assert(e_mul(e_one(), e_one()) == e_one());
}

} // verus!
