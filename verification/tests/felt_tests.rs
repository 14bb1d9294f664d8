//! Field-element arithmetic modulo the 252-bit prime.

use sierra_lowering::felt::{felt_add, felt_mul, felt_prime, felt_sub, U256};

fn prime_minus(k: u64) -> U256 {
    // p = 2^251 + 17 * 2^192 + 1, limbs {1, 0, 0, 0x800000000000011}.
    let p = felt_prime();
    assert_eq!(p, U256 { l0: 1, l1: 0, l2: 0, l3: 0x800000000000011 });
    assert!(k >= 1);
    if k == 1 {
        // p - 1 clears the low limb without borrowing.
        U256 { l0: 0, l1: 0, l2: 0, l3: 0x800000000000011 }
    } else {
        // Larger k borrows through the three low limbs.
        U256 { l0: u64::MAX - (k - 2), l1: u64::MAX, l2: u64::MAX, l3: 0x800000000000010 }
    }
}

#[test]
fn add_small_values() {
    let a = U256::from_u64(3);
    let b = U256::from_u64(5);
    assert_eq!(felt_add(&a, &b), U256::from_u64(8));
}

#[test]
fn add_wraps_at_the_prime_boundary() {
    // (p - 1) + 2 == 1 (mod p).
    let a = prime_minus(1);
    let b = U256::from_u64(2);
    assert_eq!(felt_add(&a, &b), U256::from_u64(1));
}

#[test]
fn sub_small_values() {
    let a = U256::from_u64(9);
    let b = U256::from_u64(4);
    assert_eq!(felt_sub(&a, &b), U256::from_u64(5));
}

#[test]
fn sub_wraps_below_zero() {
    // 3 - 5 == p - 2 (mod p).
    let a = U256::from_u64(3);
    let b = U256::from_u64(5);
    assert_eq!(felt_sub(&a, &b), prime_minus(2));
}

#[test]
fn mul_small_values() {
    let a = U256::from_u64(3);
    let b = U256::from_u64(5);
    assert_eq!(felt_mul(&a, &b), U256::from_u64(15));
}

#[test]
fn mul_wraps_at_the_prime_boundary() {
    // (p - 1) * 2 == p - 2 (mod p).
    let a = prime_minus(1);
    let b = U256::from_u64(2);
    assert_eq!(felt_mul(&a, &b), prime_minus(2));
}

#[test]
fn mul_by_zero_and_one() {
    let a = prime_minus(3);
    assert_eq!(felt_mul(&a, &U256::zero()), U256::zero());
    assert_eq!(felt_mul(&a, &U256::from_u64(1)), a);
}

#[test]
fn results_stay_canonical() {
    // p - 1 is the largest canonical value; doubling it lands back in
    // range rather than overflowing the representation.
    let a = prime_minus(1);
    let doubled = felt_add(&a, &a);
    assert_eq!(doubled, prime_minus(2));
}

#[test]
fn mul_of_two_boundary_values() {
    // (p - 1) * (p - 1) == 1 (mod p), since p - 1 is its own inverse.
    let a = prime_minus(1);
    assert_eq!(felt_mul(&a, &a), U256::from_u64(1));
}
