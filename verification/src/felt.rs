//! Field-element arithmetic.
//!
//! A field element is an integer modulo the 252-bit prime
//! `p = 2^251 + 17 * 2^192 + 1`, held in four 64-bit little-endian limbs
//! ([`U256`]). Addition, subtraction and multiplication are proved to
//! return `(a op b) mod p` in canonical range whenever both operands are
//! canonical, exactly as the emitted arithmetic callables behave: the
//! operands are widened, combined, and reduced back into the field.

use vstd::arithmetic::div_mod::{
    lemma_add_mod_noop, lemma_breakdown, lemma_div_denominator, lemma_fundamental_div_mod,
    lemma_fundamental_div_mod_converse, lemma_hoist_over_denominator, lemma_mod_multiples_vanish,
    lemma_small_mod,
};
use vstd::arithmetic::power2::{lemma2_to64, lemma2_to64_rest, lemma_pow2_adds, pow2};
use vstd::prelude::*;

verus! {

/// A 256-bit unsigned integer in four 64-bit little-endian limbs.
///
/// It serves both as the raw representation of literal generic arguments
/// and, when canonical (below the prime), as a field element.
#[derive(Debug, Clone, Copy, PartialEq, Eq, Structural)]
pub struct U256 {
    pub l0: u64,
    pub l1: u64,
    pub l2: u64,
    pub l3: u64,
}

/// The integer value of a limb vector.
pub open spec fn as_nat(v: U256) -> nat {
    v.l0 as nat + (v.l1 as nat) * 0x10000000000000000nat + (v.l2 as nat)
        * 0x100000000000000000000000000000000nat + (v.l3 as nat)
        * 0x1000000000000000000000000000000000000000000000000nat
}

/// The field's prime modulus: `2^251 + 17 * 2^192 + 1`.
pub open spec fn prime() -> nat {
    0x800000000000011000000000000000000000000000000000000000000000001nat
}

/// A canonical field element: a value already reduced below the prime.
pub open spec fn canonical(v: U256) -> bool {
    as_nat(v) < prime()
}

impl U256 {
    /// The zero value.
    pub fn zero() -> (r: U256)
        ensures
            as_nat(r) == 0,
            canonical(r),
    {
        U256 { l0: 0, l1: 0, l2: 0, l3: 0 }
    }

    /// A value from a `u64`.
    pub fn from_u64(x: u64) -> (r: U256)
        ensures
            as_nat(r) == x,
            canonical(r),
    {
        U256 { l0: x, l1: 0, l2: 0, l3: 0 }
    }
}

/// The prime modulus as limbs.
pub fn felt_prime() -> (r: U256)
    ensures
        as_nat(r) == prime(),
{
    U256 { l0: 1, l1: 0, l2: 0, l3: 0x800000000000011 }
}

/// Any limb vector is below `2^256`.
pub proof fn lemma_as_nat_bound(v: U256)
    ensures
        as_nat(v) < 0x10000000000000000000000000000000000000000000000000000000000000000nat,
{
}

/// Limbwise addition with carry-out.
fn add4(a: &U256, b: &U256) -> (r: (U256, bool))
    ensures
        as_nat(r.0) + (if r.1 {
            0x10000000000000000000000000000000000000000000000000000000000000000nat
        } else {
            0nat
        }) == as_nat(*a) + as_nat(*b),
{
    let s0: u128 = a.l0 as u128 + b.l0 as u128;
    let r0: u64 = (s0 % 0x10000000000000000u128) as u64;
    let c0: u64 = (s0 / 0x10000000000000000u128) as u64;
    proof {
        lemma_fundamental_div_mod(s0 as int, 0x10000000000000000);
    }
    let s1: u128 = a.l1 as u128 + b.l1 as u128 + c0 as u128;
    let r1: u64 = (s1 % 0x10000000000000000u128) as u64;
    let c1: u64 = (s1 / 0x10000000000000000u128) as u64;
    proof {
        lemma_fundamental_div_mod(s1 as int, 0x10000000000000000);
    }
    let s2: u128 = a.l2 as u128 + b.l2 as u128 + c1 as u128;
    let r2: u64 = (s2 % 0x10000000000000000u128) as u64;
    let c2: u64 = (s2 / 0x10000000000000000u128) as u64;
    proof {
        lemma_fundamental_div_mod(s2 as int, 0x10000000000000000);
    }
    let s3: u128 = a.l3 as u128 + b.l3 as u128 + c2 as u128;
    let r3: u64 = (s3 % 0x10000000000000000u128) as u64;
    let c3: u64 = (s3 / 0x10000000000000000u128) as u64;
    proof {
        lemma_fundamental_div_mod(s3 as int, 0x10000000000000000);
    }
    (U256 { l0: r0, l1: r1, l2: r2, l3: r3 }, c3 == 1)
}

/// Limbwise subtraction; the minuend must be at least the subtrahend.
fn sub4(a: &U256, b: &U256) -> (r: U256)
    requires
        as_nat(*a) >= as_nat(*b),
    ensures
        as_nat(r) == as_nat(*a) - as_nat(*b),
{
    let t0: u128 = 0x10000000000000000u128 + a.l0 as u128 - b.l0 as u128;
    let d0: u64 = (t0 % 0x10000000000000000u128) as u64;
    let w0: u64 = if t0 >= 0x10000000000000000u128 {
        0
    } else {
        1
    };
    proof {
        lemma_fundamental_div_mod(t0 as int, 0x10000000000000000);
        assert(t0 / 0x10000000000000000u128 == 1 - w0);
    }
    let t1: u128 = 0x10000000000000000u128 + a.l1 as u128 - b.l1 as u128 - w0 as u128;
    let d1: u64 = (t1 % 0x10000000000000000u128) as u64;
    let w1: u64 = if t1 >= 0x10000000000000000u128 {
        0
    } else {
        1
    };
    proof {
        lemma_fundamental_div_mod(t1 as int, 0x10000000000000000);
        assert(t1 / 0x10000000000000000u128 == 1 - w1);
    }
    let t2: u128 = 0x10000000000000000u128 + a.l2 as u128 - b.l2 as u128 - w1 as u128;
    let d2: u64 = (t2 % 0x10000000000000000u128) as u64;
    let w2: u64 = if t2 >= 0x10000000000000000u128 {
        0
    } else {
        1
    };
    proof {
        lemma_fundamental_div_mod(t2 as int, 0x10000000000000000);
        assert(t2 / 0x10000000000000000u128 == 1 - w2);
    }
    let t3: u128 = 0x10000000000000000u128 + a.l3 as u128 - b.l3 as u128 - w2 as u128;
    let d3: u64 = (t3 % 0x10000000000000000u128) as u64;
    let w3: u64 = if t3 >= 0x10000000000000000u128 {
        0
    } else {
        1
    };
    proof {
        lemma_fundamental_div_mod(t3 as int, 0x10000000000000000);
        assert(t3 / 0x10000000000000000u128 == 1 - w3);
    }
    let r = U256 { l0: d0, l1: d1, l2: d2, l3: d3 };
    proof {
        assert(as_nat(*a) - as_nat(*b) == as_nat(r) - (w3 as int)
            * 0x10000000000000000000000000000000000000000000000000000000000000000int);
        if w3 == 1 {
            lemma_as_nat_bound(r);
            assert(false);
        }
    }
    r
}

/// Decides `as_nat(a) >= as_nat(b)` by limbwise comparison from the most
/// significant limb down.
fn geq4(a: &U256, b: &U256) -> (r: bool)
    ensures
        r == (as_nat(*a) >= as_nat(*b)),
{
    if a.l3 != b.l3 {
        return a.l3 > b.l3;
    }
    if a.l2 != b.l2 {
        return a.l2 > b.l2;
    }
    if a.l1 != b.l1 {
        return a.l1 > b.l1;
    }
    a.l0 >= b.l0
}

/// Field addition: `(a + b) mod p`, canonical for canonical operands.
pub fn felt_add(a: &U256, b: &U256) -> (r: U256)
    requires
        canonical(*a),
        canonical(*b),
    ensures
        as_nat(r) as int == ((as_nat(*a) + as_nat(*b)) as int) % (prime() as int),
        canonical(r),
{
    let (sum, carry) = add4(a, b);
    proof {
        if carry {
            assert(false);
        }
    }
    let p = felt_prime();
    let ghost s = as_nat(sum);
    let r = if geq4(&sum, &p) {
        sub4(&sum, &p)
    } else {
        sum
    };
    proof {
        let pi = prime() as int;
        if s >= prime() {
            assert(as_nat(r) == s - pi);
            lemma_mod_multiples_vanish(-1, s - pi, pi);
            assert((pi * (-1) + s) % pi == (s - pi) % pi);
            lemma_small_mod((s - pi) as nat, prime());
        } else {
            lemma_small_mod(s, prime());
        }
    }
    r
}

/// Field subtraction: `(a + p - b) mod p`, canonical for canonical
/// operands.
pub fn felt_sub(a: &U256, b: &U256) -> (r: U256)
    requires
        canonical(*a),
        canonical(*b),
    ensures
        as_nat(r) as int == (as_nat(*a) + prime() - as_nat(*b)) as int % (prime() as int),
        canonical(r),
{
    let ghost pi = prime() as int;
    if geq4(a, b) {
        let r = sub4(a, b);
        proof {
            lemma_mod_multiples_vanish(1, as_nat(*a) - as_nat(*b), pi);
            assert((pi * 1 + (as_nat(*a) - as_nat(*b))) % pi == (as_nat(*a) - as_nat(*b)) % pi);
            lemma_small_mod((as_nat(*a) - as_nat(*b)) as nat, prime());
        }
        r
    } else {
        let p = felt_prime();
        let (sum, carry) = add4(a, &p);
        proof {
            if carry {
                assert(false);
            }
        }
        let r = sub4(&sum, b);
        proof {
            lemma_small_mod((as_nat(*a) + prime() - as_nat(*b)) as nat, prime());
        }
        r
    }
}

/// The high limbs of `v` above limb `li`, as a single integer.
spec fn high_above(v: U256, li: int) -> nat {
    if li == 0 {
        v.l1 as nat + (v.l2 as nat) * 0x10000000000000000nat + (v.l3 as nat)
            * 0x100000000000000000000000000000000nat
    } else if li == 1 {
        v.l2 as nat + (v.l3 as nat) * 0x10000000000000000
    } else if li == 2 {
        v.l3 as nat
    } else {
        0
    }
}

/// The limb of `v` at index `li`.
spec fn limb_at(v: U256, li: int) -> u64 {
    if li == 0 {
        v.l0
    } else if li == 1 {
        v.l1
    } else if li == 2 {
        v.l2
    } else {
        v.l3
    }
}

/// Concrete values of the powers of two at limb boundaries.
proof fn lemma_pow2_limbs()
    ensures
        pow2(64) == 0x10000000000000000,
        pow2(128) == 0x100000000000000000000000000000000nat,
        pow2(192) == 0x1000000000000000000000000000000000000000000000000nat,
        pow2(256) == 0x10000000000000000000000000000000000000000000000000000000000000000nat,
{
    lemma2_to64_rest();
    lemma_pow2_adds(64, 64);
    lemma_pow2_adds(128, 64);
    lemma_pow2_adds(192, 64);
}

/// Dividing a value by a limb boundary exposes the limb and the part
/// above it.
proof fn lemma_limb_decompose(v: U256, li: int)
    requires
        0 <= li < 4,
    ensures
        as_nat(v) as int / (pow2((64 * li) as nat) as int) == limb_at(v, li)
            + 0x10000000000000000 * high_above(v, li),
{
    lemma_pow2_limbs();
    lemma2_to64();
    let x = as_nat(v) as int;
    let d = pow2((64 * li) as nat) as int;
    let q = limb_at(v, li) + 0x10000000000000000 * high_above(v, li);
    if li == 0 {
        lemma_fundamental_div_mod_converse(x, 1, x, 0);
    } else if li == 1 {
        lemma_fundamental_div_mod_converse(x, d, q as int, v.l0 as int);
    } else if li == 2 {
        lemma_fundamental_div_mod_converse(
            x,
            d,
            q as int,
            v.l0 as int + (v.l1 as int) * 0x10000000000000000,
        );
    } else {
        lemma_fundamental_div_mod_converse(
            x,
            d,
            q as int,
            v.l0 as int + (v.l1 as int) * 0x10000000000000000 + (v.l2 as int)
                * 0x100000000000000000000000000000000int,
        );
    }
}

/// The bit of `as_nat(b)` at position `64 * li + j` equals the low bit of
/// `limb_at(b, li) / 2^j`.
proof fn lemma_bit_at(b: U256, li: int, j: nat)
    requires
        0 <= li < 4,
        j < 64,
    ensures
        (as_nat(b) as int / (pow2((64 * li + j) as nat) as int)) % 2 == ((limb_at(b, li) as int)
            / (pow2(j) as int)) % 2,
{
    lemma_pow2_limbs();
    vstd::arithmetic::power2::lemma_pow2_pos((64 * li) as nat);
    vstd::arithmetic::power2::lemma_pow2_pos(j);
    lemma_pow2_adds((64 * li) as nat, j);
    let x = as_nat(b) as int;
    let dl = pow2((64 * li) as nat) as int;
    let dj = pow2(j) as int;
    lemma_div_denominator(x, dl, dj);
    // x / 2^(64 li + j) == (x / 2^(64 li)) / 2^j
    lemma_limb_decompose(b, li);
    let w = limb_at(b, li) as int;
    let h = high_above(b, li) as int;
    // (w + 2^64 h) / 2^j == w / 2^j + 2^(64 - j) * h
    lemma_pow2_adds(j, (64 - j) as nat);
    let k = pow2((64 - j) as nat) as int * h;
    lemma_hoist_over_denominator(w, k, pow2(j));
    assert(k * dj == 0x10000000000000000 * h) by (nonlinear_arith)
        requires
            k == pow2((64 - j) as nat) as int * h,
            dj == pow2(j) as int,
            pow2((64 - j) as nat) * pow2(j) == 0x10000000000000000,
    ;
    assert((w + 0x10000000000000000 * h) / dj == w / dj + k);
    // the part above contributes an even number when 64 - j >= 1
    assert(k % 2 == 0) by {
        vstd::arithmetic::power2::lemma_pow2_unfold((64 - j) as nat);
        assert(k == 2 * (pow2((64 - j - 1) as nat) as int * h)) by (nonlinear_arith)
            requires
                k == pow2((64 - j) as nat) as int * h,
                pow2((64 - j) as nat) == 2 * pow2((64 - j - 1) as nat),
        ;
        lemma_mod_multiples_vanish(pow2((64 - j - 1) as nat) as int * h, 0, 2);
    }
    lemma_mod_multiples_vanish(k / 2, w / dj, 2);
    assert(2 * (k / 2) == k) by {
        lemma_fundamental_div_mod(k, 2);
    }
    assert((w / dj + k) % 2 == (w / dj) % 2);
}

/// Field multiplication: `(a * b) mod p`, canonical for canonical
/// operands.
///
/// Processes the bits of `b` from least significant upward, maintaining
/// the running partial product and the running power of `a` modulo the
/// prime.
pub fn felt_mul(a: &U256, b: &U256) -> (r: U256)
    requires
        canonical(*a),
        canonical(*b),
    ensures
        as_nat(r) as int == ((as_nat(*a) * as_nat(*b)) as int) % (prime() as int),
        canonical(r),
{
    let ghost an = as_nat(*a) as int;
    let ghost full = as_nat(*b) as int;
    let ghost pi = prime() as int;
    let mut result = U256::zero();
    let mut apow = *a;
    proof {
        lemma_pow2_limbs();
        lemma2_to64();
        lemma_small_mod(as_nat(*a), prime());
        lemma_small_mod(0, prime());
        assert(full % (pow2(0) as int) == 0) by {
            lemma_fundamental_div_mod(full, 1);
        }
    }
    let mut li: usize = 0;
    while li < 4
        invariant
            canonical(*a),
            canonical(*b),
            an == as_nat(*a) as int,
            full == as_nat(*b) as int,
            pi == prime() as int,
            li <= 4,
            canonical(result),
            canonical(apow),
            as_nat(result) as int == (an * (full % (pow2((64 * li) as nat) as int))) % pi,
            as_nat(apow) as int == (an * (pow2((64 * li) as nat) as int)) % pi,
        decreases 4 - li,
    {
        let mut w: u64 = if li == 0 {
            b.l0
        } else if li == 1 {
            b.l1
        } else if li == 2 {
            b.l2
        } else {
            b.l3
        };
        proof {
            assert(w == limb_at(*b, li as int));
            assert(w as int / (pow2(0) as int) == w as int) by {
                lemma2_to64();
                lemma_fundamental_div_mod(w as int, 1);
            }
        }
        let mut j: usize = 0;
        while j < 64
            invariant
                canonical(*a),
                canonical(*b),
                an == as_nat(*a) as int,
                full == as_nat(*b) as int,
                pi == prime() as int,
                li < 4,
                j <= 64,
                canonical(result),
                canonical(apow),
                as_nat(result) as int == (an * (full % (pow2((64 * li + j) as nat) as int))) % pi,
                as_nat(apow) as int == (an * (pow2((64 * li + j) as nat) as int)) % pi,
                    w as int == (limb_at(*b, li as int) as int) / (pow2(j as nat) as int),
            decreases 64 - j,
        {
            let ghost i = (64 * li + j) as nat;
            let ghost bit = (full / (pow2(i) as int)) % 2;
            proof {
                vstd::arithmetic::power2::lemma_pow2_pos(i);
                vstd::arithmetic::power2::lemma_pow2_pos(j as nat);
                lemma_bit_at(*b, li as int, j as nat);
                // the exec low bit of w equals the model bit
                assert((w as int) % 2 == ((limb_at(*b, li as int) as int) / (pow2(
                    j as nat,
                ) as int)) % 2);
                // split full at bit i: full % 2^(i+1) == full % 2^i + 2^i * bit
                lemma_breakdown(full, pow2(i) as int, 2);
                lemma_pow2_adds(i, 1);
                lemma2_to64();
                assert(pow2(i) as int * 2 == pow2(i + 1) as int);
            }
            let bit_set = w % 2 == 1;
            if bit_set {
                let next = felt_add(&result, &apow);
                proof {
                    lemma_add_mod_noop(
                        an * (full % (pow2(i) as int)),
                        an * (pow2(i) as int),
                        pi,
                    );
                    assert(an * (full % (pow2(i) as int)) + an * (pow2(i) as int) == an * (full
                        % (pow2(i) as int) + pow2(i) as int)) by (nonlinear_arith);
                    assert(full % (pow2(i + 1) as int) == full % (pow2(i) as int) + pow2(
                        i,
                    ) as int) by {
                        assert(bit == 1);
                        assert(full % ((pow2(i) as int) * 2) == (pow2(i) as int) * ((full / (
                        pow2(i) as int)) % 2) + full % (pow2(i) as int));
                        assert((pow2(i) as int) * ((full / (pow2(i) as int)) % 2) == pow2(
                            i,
                        ) as int) by (nonlinear_arith)
                            requires
                                (full / (pow2(i) as int)) % 2 == 1,
                        ;
                        assert((pow2(i) as int) * 2 == pow2(i + 1) as int);
                    }
                }
                result = next;
            } else {
                proof {
                    assert(bit == 0);
                    assert(full % (pow2(i + 1) as int) == full % (pow2(i) as int));
                }
            }
            let next_pow = felt_add(&apow, &apow);
            proof {
                lemma_add_mod_noop(an * (pow2(i) as int), an * (pow2(i) as int), pi);
                assert(an * (pow2(i) as int) + an * (pow2(i) as int) == an * (pow2(
                    i + 1,
                ) as int)) by (nonlinear_arith)
                    requires
                        pow2(i + 1) == 2 * pow2(i),
                ;
                assert(pow2(i + 1) == 2 * pow2(i)) by {
                    lemma_pow2_adds(i, 1);
                    lemma2_to64();
                }
                // halving w drops the consumed bit
                lemma_div_denominator(limb_at(*b, li as int) as int, pow2(j as nat) as int, 2);
                assert(pow2(j as nat) as int * 2 == pow2(j as nat + 1) as int) by {
                    lemma_pow2_adds(j as nat, 1);
                    lemma2_to64();
                }
            }
            apow = next_pow;
            w = w / 2;
            j += 1;
        }
        proof {
            assert((64 * li + 64) as nat == (64 * (li + 1)) as nat);
        }
        li += 1;
    }
    proof {
        lemma_as_nat_bound(*b);
        lemma_pow2_limbs();
        lemma_small_mod(as_nat(*b), pow2(256));
        assert(full % (pow2((64 * 4) as nat) as int) == full);
    }
    result
}

} // verus!
