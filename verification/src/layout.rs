//! Layout of variant sets (tagged unions).
//!
//! A [`VariantLayout`] is derived afresh from an ordered list of variant
//! payload descriptors whenever a variant operation is lowered: overall
//! size and alignment, the discriminant descriptor, and each payload's
//! descriptor and size.

use crate::types::{
    align_of, align_of_exec, align_up, align_up_exec, is_align, lemma_align_divides,
    lemma_align_of_valid, lemma_align_up, lemma_align_up_le_multiple, lemma_max_align_upto_ge,
    lemma_max_align_upto_valid, lemma_max_size_upto_ge, lemma_td_views, lemma_wf_size_bound,
    lemma_wf_upto_index, max_align_upto, max_size_upto, size_of_exec, tag_bytes, tag_bytes_exec,
    type_size, variant_align, variant_size, views_of, wf, wf_upto, PrimType, TdView, TypeDesc,
    SIZE_LIMIT,
};
use vstd::prelude::*;

verus! {

/// One variant's payload descriptor together with its size in bytes.
pub struct PayloadSlot {
    pub ty: TypeDesc,
    pub size: u64,
}

/// The derived in-memory shape of a variant set.
pub struct VariantLayout {
    /// Overall size in bytes; every value of the variant type occupies
    /// exactly this many bytes.
    pub size: u64,
    /// Overall alignment in bytes.
    pub align: u64,
    /// Descriptor of the discriminant: the smallest unsigned primitive
    /// that can hold every tag value.
    pub tag: TypeDesc,
    /// Per-variant payload descriptors and sizes, in declaration order.
    pub payloads: Vec<PayloadSlot>,
}

/// The primitive used as discriminant for `n` variants.
pub open spec fn tag_prim(n: nat) -> PrimType {
    if n <= 0x100 {
        PrimType::U8
    } else if n <= 0x10000 {
        PrimType::U16
    } else if n <= 0x100000000 {
        PrimType::U32
    } else {
        PrimType::U64
    }
}

/// Offset of variant `i`'s payload, both inside the narrow two-field
/// composite `{discriminant, payload_i}` used to build a value and inside
/// the union-wide representation it is stored to.
pub open spec fn payload_offset(vs: Seq<TdView>, i: int) -> nat {
    align_up(tag_bytes(vs.len()), align_of(vs[i]))
}

/// The discriminant primitive's width is exactly the tag byte width.
pub proof fn lemma_tag_prim_size(n: nat)
    ensures
        crate::types::prim_size(tag_prim(n)) == tag_bytes(n),
        crate::types::prim_align(tag_prim(n)) == tag_bytes(n),
{
}

/// The alignment of a variant set is a power of two from 1 to 16.
pub proof fn lemma_variant_align_valid(vs: Seq<TdView>)
    ensures
        is_align(variant_align(vs)),
{
    lemma_max_align_upto_valid(vs, vs.len() as int);
}

/// Law: a variant set's size is at least the discriminant size plus the
/// largest payload size, and is a multiple of its alignment.
pub proof fn lemma_variant_layout_bounds(vs: Seq<TdView>)
    requires
        vs.len() > 0,
    ensures
        variant_size(vs) >= tag_bytes(vs.len()) + max_size_upto(vs, vs.len() as int),
        variant_size(vs) % variant_align(vs) == 0,
        variant_align(vs) >= 1,
{
    let a = variant_align(vs);
    lemma_variant_align_valid(vs);
    let inner = align_up(tag_bytes(vs.len()), a);
    lemma_align_up(tag_bytes(vs.len()), a);
    lemma_align_up(inner + max_size_upto(vs, vs.len() as int), a);
}

/// Every payload lies inside the union-wide representation: its offset
/// plus its size stays within the overall size.
pub proof fn lemma_payload_fits(vs: Seq<TdView>, i: int)
    requires
        0 <= i < vs.len(),
    ensures
        payload_offset(vs, i) + type_size(vs[i]) <= variant_size(vs),
        payload_offset(vs, i) >= tag_bytes(vs.len()),
{
    let n = vs.len() as int;
    let a = variant_align(vs);
    let ai = align_of(vs[i]);
    lemma_variant_align_valid(vs);
    lemma_align_of_valid(vs[i]);
    lemma_max_align_upto_ge(vs, n, i);
    assert(ai <= a);
    lemma_align_divides(ai, a);
    let wide = align_up(tag_bytes(vs.len()), a);
    lemma_align_up(tag_bytes(vs.len()), a);
    // wide is a multiple of `a`, hence of `ai`, and is at least the tag
    // width, so the payload offset cannot exceed it.
    assert(wide % ai == 0) by {
        let k = (wide as int) / (a as int);
        vstd::arithmetic::div_mod::lemma_fundamental_div_mod(wide as int, a as int);
        assert(wide == (a as int) * k);
        let m = (a as int) / (ai as int);
        vstd::arithmetic::div_mod::lemma_fundamental_div_mod(a as int, ai as int);
        assert(a == (ai as int) * m);
        assert(wide == (ai as int) * (m * k)) by (nonlinear_arith)
            requires
                wide == (a as int) * k,
                a == (ai as int) * m,
        ;
        vstd::arithmetic::div_mod::lemma_mod_multiples_basic(m * k, ai as int);
        assert(((ai as int) * (m * k)) % (ai as int) == 0) by (nonlinear_arith)
            requires
                (((m * k) * (ai as int)) % (ai as int)) == 0,
        ;
    }
    lemma_align_up_le_multiple(tag_bytes(vs.len()), ai, wide);
    lemma_max_size_upto_ge(vs, n, i);
    lemma_align_up(wide + max_size_upto(vs, n), a);
    lemma_align_up(tag_bytes(vs.len()), ai);
}

/// Computes the layout of a variant set.
///
/// The input list is the ordered variant payload descriptors of a
/// well-formed variant type.
pub fn variant_layout(variants: &Vec<TypeDesc>) -> (r: VariantLayout)
    requires
        wf(TdView::Variant(views_of(variants@))),
    ensures
        r.size as nat == variant_size(views_of(variants@)),
        r.align as nat == variant_align(views_of(variants@)),
        r.tag@ == TdView::Simple(tag_prim(variants@.len() as nat)),
        r.payloads@.len() == variants@.len(),
        forall|j: int|
            0 <= j < variants@.len() ==> (#[trigger] r.payloads@[j]).ty@ == views_of(variants@)[j],
        forall|j: int|
            0 <= j < variants@.len() ==> (#[trigger] r.payloads@[j]).size as nat == type_size(
                views_of(variants@)[j],
            ),
{
    let ghost vs = views_of(variants@);
    let ghost n = vs.len() as int;
    proof {
        lemma_td_views(variants@, variants@.len() as int);
    }
    let count = variants.len();
    let tw = tag_bytes_exec(count);
    let mut pa: u64 = 1;
    let mut i: usize = 0;
    while i < count
        invariant
            count == variants@.len(),
            vs == views_of(variants@),
            vs.len() == variants@.len(),
            forall|j: int| 0 <= j < variants@.len() ==> vs[j] == variants@[j]@,
            i <= count,
            pa as nat == max_align_upto(vs, i as int),
        decreases count - i,
    {
        let a = align_of_exec(&variants[i]);
        if a > pa {
            pa = a;
        }
        i += 1;
    }
    let al = if tw >= pa {
        tw
    } else {
        pa
    };
    let mut payloads: Vec<PayloadSlot> = Vec::new();
    let mut mx: u64 = 0;
    let mut k: usize = 0;
    while k < count
        invariant
            count == variants@.len(),
            vs == views_of(variants@),
            vs.len() == variants@.len(),
            forall|j: int| 0 <= j < variants@.len() ==> vs[j] == variants@[j]@,
            wf(TdView::Variant(vs)),
            n == vs.len() as int,
            k <= count,
            payloads@.len() == k,
            forall|j: int|
                0 <= j < k ==> (#[trigger] payloads@[j]).ty@ == vs[j] && payloads@[j].size as nat
                    == type_size(vs[j]),
            mx as nat == max_size_upto(vs, k as int),
            mx <= SIZE_LIMIT,
        decreases count - k,
    {
        proof {
            lemma_wf_upto_index(vs, n, k as int);
            lemma_wf_size_bound(vs[k as int]);
        }
        let sz = size_of_exec(&variants[k]);
        payloads.push(PayloadSlot { ty: variants[k].duplicate(), size: sz });
        if sz > mx {
            mx = sz;
        }
        k += 1;
    }
    proof {
        lemma_variant_align_valid(vs);
    }
    let tagged = align_up_exec(tw, al);
    let size = align_up_exec(tagged + mx, al);
    let tag = if count <= 0x100 {
        TypeDesc::Simple(PrimType::U8)
    } else {
        let wide: u64 = count as u64;
        if wide <= 0x10000 {
            TypeDesc::Simple(PrimType::U16)
        } else if wide <= 0x100000000 {
            TypeDesc::Simple(PrimType::U32)
        } else {
            TypeDesc::Simple(PrimType::U64)
        }
    };
    VariantLayout { size, align: al, tag, payloads }
}

} // verus!
