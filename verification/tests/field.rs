//! Arithmetic of the base field and its quadratic extension.

use miden_vm_lib::ext::Ext2;
use miden_vm_lib::felt::{Felt, P};

#[test]
fn base_field_arithmetic() {
    let a = Felt::new(P - 1);
    let b = Felt::new(2);
    assert_eq!(a.add(b).as_int(), 1);
    assert_eq!(b.sub(a).as_int(), 3);
    assert_eq!(a.mul(b).as_int(), P - 2);
    assert_eq!(Felt::new(P).as_int(), 0);
    assert_eq!(Felt::new(7).neg().as_int(), P - 7);
    assert_eq!(Felt::new(3).pow(4).as_int(), 81);
}

#[test]
fn base_field_inverse_roundtrip() {
    let a = Felt::new(123456789);
    let inv = a.try_inv().unwrap();
    assert_eq!(inv.mul(a).as_int(), 1);
    assert!(Felt::new(0).try_inv().is_none());
}

#[test]
fn extension_field_arithmetic() {
    // (1 + 2x) * (3 + 4x) with x^2 = x - 2:
    //   3 + (4 + 6)x + 8x^2 = 3 + 10x + 8(x - 2) = -13 + 18x
    let a = Ext2 { c0: Felt::new(1), c1: Felt::new(2) };
    let b = Ext2 { c0: Felt::new(3), c1: Felt::new(4) };
    let prod = a.mul(b);
    assert_eq!(prod.c0.as_int(), P - 13);
    assert_eq!(prod.c1.as_int(), 18);
    // commutativity on values
    assert_eq!(prod, b.mul(a));
    // identity
    assert_eq!(a.mul(Ext2::one()), a);
}

#[test]
fn extension_field_inverse_roundtrip() {
    let a = Ext2 { c0: Felt::new(987654321), c1: Felt::new(12345) };
    let inv = a.try_inv().unwrap();
    assert_eq!(inv.mul(a), Ext2::one());
    assert!(Ext2::zero().try_inv().is_none());
}
