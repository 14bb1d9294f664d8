//! Little-endian byte strings.
//!
//! Runtime values of the target representation are modelled as byte
//! vectors; this module gives the encoding of unsigned integers into such
//! vectors and back, together with the facts the rest of the crate needs
//! about it.

use vstd::arithmetic::div_mod::lemma_fundamental_div_mod;
use vstd::arithmetic::power2::{lemma2_to64, lemma2_to64_rest, lemma_pow2_adds, lemma_pow2_pos, pow2};
use vstd::prelude::*;

verus! {

/// The `n` little-endian bytes of `v` (low byte first).
pub open spec fn le_bytes(v: nat, n: nat) -> Seq<u8>
    decreases n,
{
    if n == 0 {
        Seq::empty()
    } else {
        seq![(v % 256) as u8].add(le_bytes(v / 256, (n - 1) as nat))
    }
}

/// The unsigned value of a little-endian byte string.
pub open spec fn le_val(s: Seq<u8>) -> nat
    decreases s.len(),
{
    if s.len() == 0 {
        0
    } else {
        s[0] as nat + 256 * le_val(s.skip(1))
    }
}

/// A run of `n` zero bytes.
pub open spec fn zeros(n: nat) -> Seq<u8> {
    Seq::new(n, |i: int| 0u8)
}

pub proof fn lemma_le_bytes_len(v: nat, n: nat)
    ensures
        le_bytes(v, n).len() == n,
    decreases n,
{
    if n > 0 {
        lemma_le_bytes_len(v / 256, (n - 1) as nat);
    }
}

/// Encoding then decoding returns the value, provided it fits in `n` bytes.
pub proof fn lemma_le_val_of_le_bytes(v: nat, n: nat)
    requires
        v < pow2(8 * n),
    ensures
        le_val(le_bytes(v, n)) == v,
    decreases n,
{
    if n == 0 {
        assert(pow2(0) == 1) by {
            lemma2_to64();
        }
    } else {
        let s = le_bytes(v, n);
        assert(s.skip(1) =~= le_bytes(v / 256, (n - 1) as nat));
        assert(v / 256 < pow2(8 * (n - 1) as nat)) by {
            lemma_pow2_adds(8, 8 * (n - 1) as nat);
            assert(pow2(8) == 256) by {
                lemma2_to64();
            }
            lemma_pow2_pos(8 * (n - 1) as nat);
            assert(v < 256 * pow2(8 * (n - 1) as nat));
            assert(v / 256 < pow2(8 * (n - 1) as nat)) by (nonlinear_arith)
                requires
                    v < 256 * pow2(8 * (n - 1) as nat),
                    pow2(8 * (n - 1) as nat) > 0,
            ;
        }
        lemma_le_val_of_le_bytes(v / 256, (n - 1) as nat);
        lemma_fundamental_div_mod(v as int, 256);
    }
}

/// A byte string of length `n` holds a value below `pow2(8 * n)`.
pub proof fn lemma_le_val_bound(s: Seq<u8>)
    ensures
        le_val(s) < pow2(8 * s.len()),
    decreases s.len(),
{
    if s.len() == 0 {
        assert(pow2(0) == 1) by {
            lemma2_to64();
        }
    } else {
        lemma_le_val_bound(s.skip(1));
        lemma_pow2_adds(8, 8 * (s.len() - 1) as nat);
        assert(pow2(8) == 256) by {
            lemma2_to64();
        }
        assert(s[0] as nat + 256 * le_val(s.skip(1)) < 256 * pow2(8 * (s.len() - 1) as nat))
            by (nonlinear_arith)
            requires
                s[0] < 256,
                le_val(s.skip(1)) < pow2(8 * (s.len() - 1) as nat),
        ;
    }
}

/// Appending zero bytes does not change the value.
pub proof fn lemma_le_val_append_zeros(s: Seq<u8>, k: nat)
    ensures
        le_val(s.add(zeros(k))) == le_val(s),
    decreases s.len() + k,
{
    if s.len() == 0 {
        if k == 0 {
            assert(s.add(zeros(k)) =~= Seq::<u8>::empty());
        } else {
            let t = s.add(zeros(k));
            assert(t.skip(1) =~= Seq::<u8>::empty().add(zeros((k - 1) as nat)));
            lemma_le_val_append_zeros(Seq::<u8>::empty(), (k - 1) as nat);
        }
    } else {
        assert(s.add(zeros(k)).skip(1) =~= s.skip(1).add(zeros(k)));
        lemma_le_val_append_zeros(s.skip(1), k);
    }
}

/// `vec_u8_eq(a, b)` decides equality of two byte vectors.
pub fn vec_u8_eq(a: &Vec<u8>, b: &Vec<u8>) -> (r: bool)
    ensures
        r == (a@ == b@),
{
    if a.len() != b.len() {
        assert(a@ != b@);
        return false;
    }
    let n = a.len();
    let mut i: usize = 0;
    while i < n
        invariant
            n == a.len() == b.len(),
            i <= n,
            forall|j: int| 0 <= j < i ==> a@[j] == b@[j],
        decreases n - i,
    {
        if a[i] != b[i] {
            return false;
        }
        i += 1;
    }
    assert(a@ =~= b@);
    true
}

/// The `n`-byte little-endian encoding of `v`.
pub fn u64_to_le(v: u64, n: usize) -> (r: Vec<u8>)
    requires
        v < pow2(8 * n as nat),
    ensures
        r@ == le_bytes(v as nat, n as nat),
        r@.len() == n,
{
    let mut r: Vec<u8> = Vec::new();
    let mut cur: u64 = v;
    let mut i: usize = 0;
    proof {
        lemma_le_bytes_len(v as nat, n as nat);
    }
    while i < n
        invariant
            i <= n,
            r@.len() == i,
            v < pow2(8 * n as nat),
            le_bytes(v as nat, n as nat) == r@.add(le_bytes(cur as nat, (n - i) as nat)),
        decreases n - i,
    {
        let b: u8 = (cur % 256) as u8;
        proof {
            assert(le_bytes(cur as nat, (n - i) as nat) == seq![b].add(
                le_bytes(cur as nat / 256, (n - i - 1) as nat),
            ));
            assert(r@.add(le_bytes(cur as nat, (n - i) as nat)) =~= r@.push(b).add(
                le_bytes(cur as nat / 256, (n - i - 1) as nat),
            ));
        }
        r.push(b);
        cur = cur / 256;
        i += 1;
    }
    proof {
        assert(le_bytes(cur as nat, 0) =~= Seq::<u8>::empty());
        assert(r@ =~= r@.add(Seq::<u8>::empty()));
        lemma_le_bytes_len(v as nat, n as nat);
    }
    r
}

/// Decodes the `n` bytes of `bytes` starting at `start` as a little-endian
/// unsigned value.
pub fn u64_from_le(bytes: &Vec<u8>, start: usize, n: usize) -> (r: u64)
    requires
        n <= 8,
        start + n <= bytes.len(),
    ensures
        r as nat == le_val(bytes@.subrange(start as int, start + n)),
{
    let mut acc: u64 = 0;
    let mut i: usize = n;
    proof {
        lemma_pow2_pos(8 * (n - i) as nat);
    }
    while i > 0
        invariant
            i <= n,
            n <= 8,
            start + n <= bytes.len(),
            acc as nat == le_val(bytes@.subrange(start + i, start + n)),
            acc < pow2(8 * (n - i) as nat),
        decreases i,
    {
        proof {
            lemma_le_val_bound(bytes@.subrange(start + i, start + n));
            let lo = bytes@.subrange(start + i - 1, start + n);
            assert(lo.skip(1) =~= bytes@.subrange(start + i, start + n));
            assert(le_val(lo) == lo[0] as nat + 256 * le_val(lo.skip(1)));
            assert(acc * 256 + 255 < pow2(8 * (n - i + 1) as nat)) by {
                lemma_pow2_adds(8 * (n - i) as nat, 8);
                assert(pow2(8) == 256) by {
                    lemma2_to64();
                }
                assert(acc * 256 + 256 <= pow2(8 * (n - i) as nat) * 256) by (nonlinear_arith)
                    requires
                        acc < pow2(8 * (n - i) as nat),
                ;
            }
            assert(pow2(8 * (n - i + 1) as nat) <= pow2(64)) by {
                if (8 * (n - i + 1) as nat) < 64 {
                    vstd::arithmetic::power2::lemma_pow2_strictly_increases(
                        8 * (n - i + 1) as nat,
                        64,
                    );
                }
            }
            assert(pow2(64) == 0x10000000000000000) by {
                lemma2_to64_rest();
            }
        }
        i -= 1;
        acc = acc * 256 + (bytes[start + i] as u64);
    }
    proof {
        assert(bytes@.subrange(start as int, start + n) =~= bytes@.subrange(
            start + 0,
            start + n,
        ));
    }
    acc
}

} // verus!
