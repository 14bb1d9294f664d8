//! Byte-level semantics of the emitted callables.
//!
//! A runtime value of the target representation is a byte vector whose
//! length is the size of its type. This module gives the executable
//! behaviour of the structural callables — composite construction and
//! field extraction, duplication, identity passthrough, and integer
//! width upcast — together with the spec functions that pin each result
//! down byte for byte.

use crate::bytes::{le_val, lemma_le_val_append_zeros, zeros};
use crate::types::{
    align_of_exec, align_up_exec, composite_size, field_offset, fields_end, lemma_align_of_valid,
    lemma_align_up, lemma_fields_end_mono, lemma_max_align_upto_valid, lemma_td_views,
    lemma_wf_size_bound, lemma_wf_upto_index, max_align_upto, size_of_exec, type_size, views_of,
    wf, wf_upto, TdView, TypeDesc, SIZE_LIMIT,
};
use vstd::prelude::*;

verus! {

/// The byte strings of a list of runtime values.
pub open spec fn byte_views(args: Seq<Vec<u8>>) -> Seq<Seq<u8>> {
    Seq::new(args.len(), |i: int| args[i]@)
}

/// Bytes of a composite value up to the end of its first `i` fields:
/// each field's bytes at its offset, with zeroed padding in between.
pub open spec fn composite_prefix(fvs: Seq<TdView>, args: Seq<Seq<u8>>, i: int) -> Seq<u8>
    decreases i,
{
    if i <= 0 {
        Seq::empty()
    } else {
        composite_prefix(fvs, args, i - 1).add(
            zeros((field_offset(fvs, i - 1) - fields_end(fvs, i - 1)) as nat),
        ).add(args[i - 1])
    }
}

/// The full byte string of a composite value: all fields, then zeroed
/// trailing padding up to the composite's size.
pub open spec fn composite_value(fvs: Seq<TdView>, args: Seq<Seq<u8>>) -> Seq<u8> {
    let n = fvs.len() as int;
    composite_prefix(fvs, args, n).add(
        zeros((composite_size(fvs) - fields_end(fvs, n)) as nat),
    )
}

/// Arguments of the right sizes for the fields.
pub open spec fn args_sized(fvs: Seq<TdView>, args: Seq<Seq<u8>>) -> bool {
    args.len() == fvs.len() && forall|j: int|
        0 <= j < fvs.len() ==> (#[trigger] args[j]).len() == type_size(fvs[j])
}

pub proof fn lemma_composite_prefix_len(fvs: Seq<TdView>, args: Seq<Seq<u8>>, i: int)
    requires
        args_sized(fvs, args),
        wf_upto(fvs, fvs.len() as int),
        0 <= i <= fvs.len(),
    ensures
        composite_prefix(fvs, args, i).len() == fields_end(fvs, i),
    decreases i,
{
    if i > 0 {
        lemma_composite_prefix_len(fvs, args, i - 1);
        lemma_wf_upto_index(fvs, fvs.len() as int, i - 1);
        lemma_align_of_valid(fvs[i - 1]);
        lemma_align_up(fields_end(fvs, i - 1), crate::types::align_of(fvs[i - 1]));
    }
}

/// A longer prefix starts with a shorter one.
pub proof fn lemma_composite_prefix_take(fvs: Seq<TdView>, args: Seq<Seq<u8>>, j: int, i: int)
    requires
        args_sized(fvs, args),
        wf_upto(fvs, fvs.len() as int),
        0 <= j <= i <= fvs.len(),
    ensures
        composite_prefix(fvs, args, i).take(fields_end(fvs, j) as int) == composite_prefix(
            fvs,
            args,
            j,
        ),
    decreases i - j,
{
    lemma_composite_prefix_len(fvs, args, i);
    lemma_composite_prefix_len(fvs, args, j);
    if j == i {
        assert(composite_prefix(fvs, args, i).take(fields_end(fvs, j) as int) =~= composite_prefix(
            fvs,
            args,
            j,
        ));
    } else {
        lemma_composite_prefix_take(fvs, args, j, i - 1);
        lemma_composite_prefix_len(fvs, args, i - 1);
        lemma_fields_end_mono(fvs, j, i - 1);
        assert(composite_prefix(fvs, args, i).take(fields_end(fvs, j) as int) =~= composite_prefix(
            fvs,
            args,
            i - 1,
        ).take(fields_end(fvs, j) as int));
    }
}

/// Law: extracting field `j` from a constructed composite returns the
/// `j`-th argument, byte for byte.
pub proof fn lemma_field_extract(fvs: Seq<TdView>, args: Seq<Seq<u8>>, j: int)
    requires
        args_sized(fvs, args),
        wf(TdView::Composite(fvs)),
        0 <= j < fvs.len(),
    ensures
        composite_value(fvs, args).subrange(
            field_offset(fvs, j) as int,
            field_offset(fvs, j) as int + type_size(fvs[j]) as int,
        ) == args[j],
        composite_value(fvs, args).len() == composite_size(fvs),
{
    let n = fvs.len() as int;
    let a = field_offset(fvs, j) as int;
    let b = a + type_size(fvs[j]);
    lemma_composite_prefix_len(fvs, args, n);
    lemma_composite_prefix_len(fvs, args, j);
    lemma_composite_prefix_len(fvs, args, j + 1);
    lemma_wf_upto_index(fvs, n, j);
    lemma_align_of_valid(fvs[j]);
    lemma_align_up(fields_end(fvs, j), crate::types::align_of(fvs[j]));
    lemma_fields_end_mono(fvs, j + 1, n);
    lemma_max_align_upto_valid(fvs, n);
    lemma_align_up(fields_end(fvs, n), max_align_upto(fvs, n));
    assert(b == fields_end(fvs, j + 1));
    assert(composite_value(fvs, args).len() == composite_size(fvs));
    lemma_composite_prefix_take(fvs, args, j + 1, n);
    let pj1 = composite_prefix(fvs, args, j + 1);
    assert(composite_value(fvs, args).subrange(a, b) =~= pj1.subrange(a, b));
    assert(pj1.subrange(a, b) =~= args[j]);
}

/// Appends `k` zero bytes.
pub fn push_zeros(out: &mut Vec<u8>, k: usize)
    ensures
        final(out)@ == old(out)@.add(zeros(k as nat)),
{
    let mut i: usize = 0;
    while i < k
        invariant
            i <= k,
            out@.len() == old(out)@.len() + i,
            out@ == old(out)@.add(zeros(i as nat)),
        decreases k - i,
    {
        proof {
            assert(out@.push(0u8) =~= old(out)@.add(zeros((i + 1) as nat)));
        }
        out.push(0u8);
        i += 1;
    }
}

/// Appends a copy of `src`.
pub fn push_bytes(out: &mut Vec<u8>, src: &Vec<u8>)
    ensures
        final(out)@ == old(out)@.add(src@),
{
    let mut i: usize = 0;
    while i < src.len()
        invariant
            i <= src@.len(),
            out@ == old(out)@.add(src@.take(i as int)),
        decreases src@.len() - i,
    {
        proof {
            assert(out@.push(src@[i as int]) =~= old(out)@.add(src@.take(i + 1)));
        }
        out.push(src[i]);
        i += 1;
    }
    proof {
        assert(src@.take(src@.len() as int) =~= src@);
    }
}

/// A copy of a byte vector.
pub fn copy_bytes(src: &Vec<u8>) -> (r: Vec<u8>)
    ensures
        r@ == src@,
{
    let mut out: Vec<u8> = Vec::new();
    push_bytes(&mut out, src);
    proof {
        assert(Seq::<u8>::empty().add(src@) =~= src@);
    }
    out
}

/// Copies `value[start .. start + len]`.
pub fn copy_range(value: &Vec<u8>, start: usize, len: usize) -> (r: Vec<u8>)
    requires
        start + len <= value@.len(),
    ensures
        r@ == value@.subrange(start as int, start + len),
{
    let vl = value.len();
    let mut out: Vec<u8> = Vec::new();
    let mut i: usize = 0;
    while i < len
        invariant
            i <= len,
            vl == value@.len(),
            start + len <= vl,
            out@ == value@.subrange(start as int, start + i),
        decreases len - i,
    {
        proof {
            assert(out@.push(value@[start + i]) =~= value@.subrange(start as int, start + i + 1));
        }
        out.push(value[start + i]);
        i += 1;
    }
    out
}

/// Packs the given field values into one composite value, each argument
/// at its field's offset, padding zeroed.
pub fn struct_construct_value(fields: &Vec<TypeDesc>, args: &Vec<Vec<u8>>) -> (r: Vec<u8>)
    requires
        wf(TdView::Composite(views_of(fields@))),
        args@.len() == fields@.len(),
        forall|j: int|
            0 <= j < fields@.len() ==> (#[trigger] args@[j])@.len() == type_size(
                views_of(fields@)[j],
            ),
    ensures
        r@ == composite_value(views_of(fields@), byte_views(args@)),
        r@.len() == composite_size(views_of(fields@)),
{
    let ghost fvs = views_of(fields@);
    let ghost avs = byte_views(args@);
    let ghost n = fvs.len() as int;
    proof {
        lemma_td_views(fields@, fields@.len() as int);
        lemma_composite_prefix_len(fvs, avs, n);
        lemma_max_align_upto_valid(fvs, n);
        lemma_align_up(fields_end(fvs, n), max_align_upto(fvs, n));
    }
    let mut out: Vec<u8> = Vec::new();
    let mut off: u64 = 0;
    let mut i: usize = 0;
    while i < fields.len()
        invariant
            wf(TdView::Composite(fvs)),
            fvs == views_of(fields@),
            avs == byte_views(args@),
            fvs.len() == fields@.len(),
            forall|j: int| 0 <= j < fields@.len() ==> fvs[j] == fields@[j]@,
            n == fvs.len() as int,
            args@.len() == fields@.len(),
            forall|j: int|
                0 <= j < fields@.len() ==> (#[trigger] args@[j])@.len() == type_size(fvs[j]),
            i <= fields@.len(),
            off as nat == fields_end(fvs, i as int),
            off <= SIZE_LIMIT,
            out@ == composite_prefix(fvs, avs, i as int),
            out@.len() == off,
        decreases fields@.len() - i,
    {
        proof {
            lemma_wf_upto_index(fvs, n, i as int);
            lemma_align_of_valid(fvs[i as int]);
            lemma_wf_size_bound(fvs[i as int]);
            lemma_fields_end_mono(fvs, i + 1, n);
            lemma_max_align_upto_valid(fvs, n);
            lemma_align_up(fields_end(fvs, n), max_align_upto(fvs, n));
            lemma_align_up(fields_end(fvs, i as int), crate::types::align_of(fvs[i as int]));
            lemma_composite_prefix_len(fvs, avs, i as int);
            lemma_composite_prefix_len(fvs, avs, i + 1);
        }
        let af = align_of_exec(&fields[i]);
        let target = align_up_exec(off, af);
        let pad = (target - off) as usize;
        push_zeros(&mut out, pad);
        push_bytes(&mut out, &args[i]);
        let sz = size_of_exec(&fields[i]);
        assert(target + sz == fields_end(fvs, i + 1));
        assert(fields_end(fvs, i + 1) <= composite_size(fvs));
        assert(composite_size(fvs) <= SIZE_LIMIT);
        off = target + sz;
        i += 1;
    }
    proof {
        lemma_max_align_upto_valid(fvs, n);
        lemma_align_up(fields_end(fvs, n), max_align_upto(fvs, n));
    }
    let al = align_of_exec_composite(fields);
    let total = align_up_exec(off, al);
    let tail = (total - off) as usize;
    push_zeros(&mut out, tail);
    out
}

/// Alignment of the composite made of these fields.
fn align_of_exec_composite(fields: &Vec<TypeDesc>) -> (a: u64)
    ensures
        a as nat == max_align_upto(views_of(fields@), fields@.len() as int),
        a >= 1,
{
    let ghost fvs = views_of(fields@);
    proof {
        lemma_td_views(fields@, fields@.len() as int);
        lemma_max_align_upto_valid(fvs, fields@.len() as int);
    }
    let mut m: u64 = 1;
    let mut i: usize = 0;
    while i < fields.len()
        invariant
            fvs == views_of(fields@),
            fvs.len() == fields@.len(),
            forall|j: int| 0 <= j < fields@.len() ==> fvs[j] == fields@[j]@,
            i <= fields@.len(),
            m as nat == max_align_upto(fvs, i as int),
            m >= 1,
        decreases fields@.len() - i,
    {
        let a = align_of_exec(&fields[i]);
        if a > m {
            m = a;
        }
        i += 1;
    }
    m
}

/// Extracts field `i` of a composite value.
pub fn composite_field(fields: &Vec<TypeDesc>, value: &Vec<u8>, i: usize) -> (r: Vec<u8>)
    requires
        wf(TdView::Composite(views_of(fields@))),
        i < fields@.len(),
        value@.len() == composite_size(views_of(fields@)),
    ensures
        r@ == value@.subrange(
            field_offset(views_of(fields@), i as int) as int,
            field_offset(views_of(fields@), i as int) as int + type_size(
                views_of(fields@)[i as int],
            ) as int,
        ),
{
    let ghost fvs = views_of(fields@);
    let ghost n = fvs.len() as int;
    proof {
        lemma_td_views(fields@, fields@.len() as int);
        lemma_wf_upto_index(fvs, n, i as int);
        lemma_align_of_valid(fvs[i as int]);
        lemma_wf_size_bound(fvs[i as int]);
        lemma_align_up(fields_end(fvs, i as int), crate::types::align_of(fvs[i as int]));
        lemma_fields_end_mono(fvs, i + 1, n);
        lemma_max_align_upto_valid(fvs, n);
        lemma_align_up(fields_end(fvs, n), max_align_upto(fvs, n));
        lemma_fields_end_mono(fvs, 0, i as int);
    }
    let mut off: u64 = 0;
    let mut k: usize = 0;
    while k < i
        invariant
            wf(TdView::Composite(fvs)),
            fvs == views_of(fields@),
            fvs.len() == fields@.len(),
            forall|j: int| 0 <= j < fields@.len() ==> fvs[j] == fields@[j]@,
            n == fvs.len() as int,
            i < fields@.len(),
            k <= i,
            off as nat == fields_end(fvs, k as int),
            off <= SIZE_LIMIT,
        decreases i - k,
    {
        proof {
            lemma_wf_upto_index(fvs, n, k as int);
            lemma_align_of_valid(fvs[k as int]);
            lemma_wf_size_bound(fvs[k as int]);
            lemma_fields_end_mono(fvs, k + 1, n);
            lemma_max_align_upto_valid(fvs, n);
            lemma_align_up(fields_end(fvs, n), max_align_upto(fvs, n));
            lemma_align_up(fields_end(fvs, k as int), crate::types::align_of(fvs[k as int]));
        }
        let af = align_of_exec(&fields[k]);
        let target = align_up_exec(off, af);
        let sz = size_of_exec(&fields[k]);
        off = target + sz;
        k += 1;
    }
    let af = align_of_exec(&fields[i]);
    let start = align_up_exec(off, af);
    let sz = size_of_exec(&fields[i]);
    proof {
        lemma_wf_upto_index(fvs, n, i as int);
    }
    copy_range(value, start as usize, sz as usize)
}

/// Law: duplication returns two values, both bit-equal to the input.
pub fn dup_value(v: &Vec<u8>) -> (r: (Vec<u8>, Vec<u8>))
    ensures
        r.0@ == v@,
        r.1@ == v@,
{
    (copy_bytes(v), copy_bytes(v))
}

/// Law: the identity passthrough used by both value-store and rename
/// callables returns its argument unchanged.
pub fn identity_value(v: Vec<u8>) -> (r: Vec<u8>)
    ensures
        r == v,
{
    v
}

/// Zero-extends a little-endian value to a wider representation.
///
/// Law: the numeric value is preserved — the widened byte string decodes
/// to the same unsigned integer.
pub fn upcast_value(v: &Vec<u8>, dst_size: usize) -> (r: Vec<u8>)
    requires
        v@.len() <= dst_size,
    ensures
        r@ == v@.add(zeros((dst_size - v@.len()) as nat)),
        r@.len() == dst_size,
        le_val(r@) == le_val(v@),
{
    let mut out = copy_bytes(v);
    push_zeros(&mut out, dst_size - v.len());
    proof {
        lemma_le_val_append_zeros(v@, (dst_size - v@.len()) as nat);
    }
    out
}

} // verus!
