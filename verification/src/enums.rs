//! Construction and destructuring of variant (tagged-union) values.
//!
//! `enum_init` builds a narrow `{discriminant, payload}` composite and
//! embeds it, via a buffer of the union-wide size and alignment, into the
//! uniform representation of the variant type; `enum_match` reads the
//! discriminant back and hands each variant successor exactly its
//! payload. The round-trip law and the invalid-tag behaviour are proved
//! here.

use crate::bytes::{le_bytes, le_val, lemma_le_bytes_len, lemma_le_val_of_le_bytes, zeros};
use crate::error::ErrorKind;
use crate::tables::{lemma_lookup_wf, lookup_spec, TypeRegistry};
use crate::layout::{lemma_payload_fits, payload_offset, variant_layout};
use crate::types::{
    align_of_exec, align_up_exec, lemma_td_views, size_of_exec, tag_bytes, tag_bytes_exec,
    lemma_wf_upto_index, type_size, variant_size, views_of, wf, TdView, TypeDesc,
};
use vstd::arithmetic::power2::{lemma2_to64, lemma2_to64_rest, pow2};
use vstd::prelude::*;

verus! {

/// The outcome of matching on a variant value: either the live variant's
/// index with its payload, or the fatal invalid-tag path.
pub enum MatchOutcome {
    /// The discriminant named variant `index`; `payload` is its value.
    Variant { index: usize, payload: Vec<u8> },
    /// The discriminant was outside the declared variants; at runtime
    /// this path fails an assertion and is unreachable.
    InvalidTag,
}

/// The union-wide byte string of a variant value: the discriminant,
/// padding, the payload at its offset, and zeroed space up to the
/// overall size.
pub open spec fn enum_value(vs: Seq<TdView>, idx: int, payload: Seq<u8>) -> Seq<u8> {
    le_bytes(idx as nat, tag_bytes(vs.len())).add(
        zeros((payload_offset(vs, idx) - tag_bytes(vs.len())) as nat),
    ).add(payload).add(
        zeros((variant_size(vs) - payload_offset(vs, idx) - payload.len()) as nat),
    )
}

/// A discriminant byte width always has room for every declared tag,
/// provided the variant count fits the machine.
pub proof fn lemma_tag_capacity(n: nat)
    requires
        n <= 0x10000000000000000,
    ensures
        n <= pow2(8 * tag_bytes(n)),
{
    lemma2_to64();
    lemma2_to64_rest();
}

/// The byte length of a variant value is the overall layout size.
pub proof fn lemma_enum_value_len(vs: Seq<TdView>, idx: int, payload: Seq<u8>)
    requires
        0 <= idx < vs.len(),
        payload.len() == type_size(vs[idx]),
    ensures
        enum_value(vs, idx, payload).len() == variant_size(vs),
{
    lemma_payload_fits(vs, idx);
    lemma_le_bytes_len(idx as nat, tag_bytes(vs.len()));
}

/// Law: initializing variant `idx` with payload `p` and then matching
/// the resulting value reads back tag `idx` and exactly the bytes of
/// `p`, for every variant index in range and every payload of that
/// variant's size.
pub proof fn lemma_enum_round_trip(vs: Seq<TdView>, idx: int, payload: Seq<u8>)
    requires
        0 <= idx < vs.len(),
        vs.len() <= 0x10000000000000000,
        payload.len() == type_size(vs[idx]),
    ensures
        le_val(enum_value(vs, idx, payload).take(tag_bytes(vs.len()) as int)) == idx,
        enum_value(vs, idx, payload).subrange(
            payload_offset(vs, idx) as int,
            payload_offset(vs, idx) as int + type_size(vs[idx]) as int,
        ) == payload,
        enum_value(vs, idx, payload).len() == variant_size(vs),
{
    let tw = tag_bytes(vs.len());
    let off = payload_offset(vs, idx) as int;
    let v = enum_value(vs, idx, payload);
    lemma_payload_fits(vs, idx);
    lemma_le_bytes_len(idx as nat, tw);
    lemma_enum_value_len(vs, idx, payload);
    assert(v.take(tw as int) =~= le_bytes(idx as nat, tw));
    lemma_tag_capacity(vs.len());
    vstd::arithmetic::power2::lemma_pow2_adds(8 * tag_bytes(vs.len()), 0);
    lemma_le_val_of_le_bytes(idx as nat, tw);
    assert(v.subrange(off, off + type_size(vs[idx])) =~= payload);
}

/// Builds the union-wide value of variant `index` carrying `payload`.
pub fn enum_init_value(variants: &Vec<TypeDesc>, index: usize, payload: &Vec<u8>) -> (r: Vec<u8>)
    requires
        wf(TdView::Variant(views_of(variants@))),
        index < variants@.len(),
        payload@.len() == type_size(views_of(variants@)[index as int]),
    ensures
        r@ == enum_value(views_of(variants@), index as int, payload@),
        r@.len() == variant_size(views_of(variants@)),
{
    let ghost vs = views_of(variants@);
    let ghost n = vs.len() as int;
    let count = variants.len();
    proof {
        lemma_td_views(variants@, variants@.len() as int);
        lemma_payload_fits(vs, index as int);
        lemma_enum_value_len(vs, index as int, payload@);
        assert(vs.len() == count);
        lemma_tag_capacity(vs.len());
        lemma2_to64();
        lemma2_to64_rest();
    }
    let lay = variant_layout(variants);
    let tw = tag_bytes_exec(variants.len());
    let av = align_of_exec(&variants[index]);
    let off = align_up_exec(tw, av);
    proof {
        lemma_wf_upto_index(vs, n, index as int);
    }
    let sz = size_of_exec(&variants[index]);
    let mut out = crate::bytes::u64_to_le(index as u64, tw as usize);
    crate::runtime::push_zeros(&mut out, (off - tw) as usize);
    crate::runtime::push_bytes(&mut out, payload);
    crate::runtime::push_zeros(&mut out, (lay.size - off - sz) as usize);
    proof {
        assert(out@ =~= enum_value(vs, index as int, payload@));
    }
    out
}

/// Reads the discriminant of a variant value and extracts the live
/// variant's payload; a discriminant outside the declared range is the
/// fatal default outcome and yields no payload.
pub fn enum_match_value(variants: &Vec<TypeDesc>, value: &Vec<u8>) -> (r: MatchOutcome)
    requires
        wf(TdView::Variant(views_of(variants@))),
        value@.len() == variant_size(views_of(variants@)),
    ensures
        match r {
            MatchOutcome::Variant { index, payload } => le_val(
                value@.take(tag_bytes(variants@.len() as nat) as int),
            ) == index && index < variants@.len() && payload@ == value@.subrange(
                payload_offset(views_of(variants@), index as int) as int,
                payload_offset(views_of(variants@), index as int) as int + type_size(
                    views_of(variants@)[index as int],
                ) as int,
            ),
            MatchOutcome::InvalidTag => le_val(
                value@.take(tag_bytes(variants@.len() as nat) as int),
            ) >= variants@.len(),
        },
{
    let ghost vs = views_of(variants@);
    let ghost n = vs.len() as int;
    proof {
        lemma_td_views(variants@, variants@.len() as int);
        crate::layout::lemma_variant_layout_bounds(vs);
    }
    let tw = tag_bytes_exec(variants.len());
    let tag = crate::bytes::u64_from_le(value, 0, tw as usize);
    proof {
        assert(value@.subrange(0, tw as int) =~= value@.take(tw as int));
    }
    if tag < variants.len() as u64 {
        let index = tag as usize;
        proof {
            lemma_payload_fits(vs, index as int);
            lemma_wf_upto_index(vs, n, index as int);
        }
        let av = align_of_exec(&variants[index]);
        let off = align_up_exec(tw, av);
        let sz = size_of_exec(&variants[index]);
        let payload = crate::runtime::copy_range(value, off as usize, sz as usize);
        MatchOutcome::Variant { index, payload }
    } else {
        MatchOutcome::InvalidTag
    }
}

/// Parameters of an `enum_init` lowering: the variant type and the
/// variant index being constructed.
pub struct EnumInitInfo {
    pub enum_type: u64,
    pub index: usize,
}

/// Parameters of an `enum_match` lowering: the variant type matched on.
pub struct EnumMatchInfo {
    pub enum_type: u64,
}

/// Which variant operation a declaration selects.
pub enum EnumSelector {
    Init(EnumInitInfo),
    Match(EnumMatchInfo),
    SnapshotMatch,
}

/// A branch handed to the statement sequencer: continue at the
/// `successor`-th declared block, passing `values` in order.
pub struct BranchTarget {
    pub successor: usize,
    pub values: Vec<Vec<u8>>,
}

/// What a variant type's identifier resolves to in the registry, if it
/// is indeed a variant type.
pub open spec fn spec_variants_of(reg: TypeRegistry, id: u64) -> Option<Seq<TdView>> {
    match lookup_spec(reg.entries@, id) {
        Some(TdView::Variant(vs)) => Some(vs),
        _ => None,
    }
}

/// Lowers `enum_init`: wraps the payload into the union-wide value of
/// variant `info.index` and branches to the one successor.
pub fn build_init(registry: &TypeRegistry, info: &EnumInitInfo, payload: &Vec<u8>) -> (r: Result<
    BranchTarget,
    ErrorKind,
>)
    requires
        registry.inv(),
        match spec_variants_of(*registry, info.enum_type) {
            Some(vs) => info.index < vs.len() ==> payload@.len() == type_size(vs[info.index as int]),
            None => true,
        },
    ensures
        match lookup_spec(registry.entries@, info.enum_type) {
            None => r == Err::<BranchTarget, ErrorKind>(ErrorKind::UnresolvedType),
            Some(tv) => match tv {
                TdView::Variant(vs) => {
                    if info.index >= vs.len() {
                        r == Err::<BranchTarget, ErrorKind>(ErrorKind::InvalidGenericArgs)
                    } else {
                        r is Ok && r->Ok_0.successor == 0 && r->Ok_0.values@.len() == 1
                            && r->Ok_0.values@[0]@ == enum_value(vs, info.index as int, payload@)
                    }
                },
                _ => r == Err::<BranchTarget, ErrorKind>(ErrorKind::InvalidGenericArgs),
            },
        },
{
    let variants = match registry.get(info.enum_type) {
        None => {
            return Err(ErrorKind::UnresolvedType);
        },
        Some(t) => match t {
            TypeDesc::Variant(variants) => {
                proof {
                    lemma_lookup_wf(registry.entries@, info.enum_type);
                    assert(*t == TypeDesc::Variant(*variants));
                    assert(t@ == TdView::Variant(views_of(variants@)));
                    assert(lookup_spec(registry.entries@, info.enum_type) == Some(
                        TdView::Variant(views_of(variants@)),
                    ));
                    assert(wf(TdView::Variant(views_of(variants@))));
                }
                variants
            },
            _ => {
                proof {
                    assert(!(t@ is Variant));
                }
                return Err(ErrorKind::InvalidGenericArgs);
            },
        },
    };
    proof {
        lemma_td_views(variants@, variants@.len() as int);
    }
    if info.index >= variants.len() {
        return Err(ErrorKind::InvalidGenericArgs);
    }
    let value = enum_init_value(variants, info.index, payload);
    let mut values: Vec<Vec<u8>> = Vec::new();
    values.push(value);
    Ok(BranchTarget { successor: 0, values })
}

/// Lowers `enum_match`: reads the discriminant and branches to the
/// variant's successor with its payload; a discriminant outside the
/// declared range takes the default successor (one past the variants),
/// which receives nothing and fails at runtime.
pub fn build_match(registry: &TypeRegistry, info: &EnumMatchInfo, value: &Vec<u8>) -> (r: Result<
    BranchTarget,
    ErrorKind,
>)
    requires
        registry.inv(),
        match spec_variants_of(*registry, info.enum_type) {
            Some(vs) => value@.len() == variant_size(vs),
            None => true,
        },
    ensures
        match lookup_spec(registry.entries@, info.enum_type) {
            None => r == Err::<BranchTarget, ErrorKind>(ErrorKind::UnresolvedType),
            Some(tv) => match tv {
                TdView::Variant(vs) => r is Ok && {
                    let tag = le_val(value@.take(tag_bytes(vs.len()) as int));
                    if tag < vs.len() {
                        r->Ok_0.successor == tag && r->Ok_0.values@.len() == 1
                            && r->Ok_0.values@[0]@ == value@.subrange(
                            payload_offset(vs, tag as int) as int,
                            payload_offset(vs, tag as int) as int + type_size(
                                vs[tag as int],
                            ) as int,
                        )
                    } else {
                        r->Ok_0.successor == vs.len() && r->Ok_0.values@.len() == 0
                    }
                },
                _ => r == Err::<BranchTarget, ErrorKind>(ErrorKind::InvalidGenericArgs),
            },
        },
{
    let variants = match registry.get(info.enum_type) {
        None => {
            return Err(ErrorKind::UnresolvedType);
        },
        Some(t) => match t {
            TypeDesc::Variant(variants) => {
                proof {
                    lemma_lookup_wf(registry.entries@, info.enum_type);
                    assert(*t == TypeDesc::Variant(*variants));
                    assert(t@ == TdView::Variant(views_of(variants@)));
                    assert(lookup_spec(registry.entries@, info.enum_type) == Some(
                        TdView::Variant(views_of(variants@)),
                    ));
                    assert(wf(TdView::Variant(views_of(variants@))));
                }
                variants
            },
            _ => {
                proof {
                    assert(!(t@ is Variant));
                }
                return Err(ErrorKind::InvalidGenericArgs);
            },
        },
    };
    proof {
        lemma_td_views(variants@, variants@.len() as int);
    }
    match enum_match_value(variants, value) {
        MatchOutcome::Variant { index, payload } => {
            let mut values: Vec<Vec<u8>> = Vec::new();
            values.push(payload);
            Ok(BranchTarget { successor: index, values })
        },
        MatchOutcome::InvalidTag => {
            Ok(BranchTarget { successor: variants.len(), values: Vec::new() })
        },
    }
}

/// Selects and runs the variant-operation lowering for a declaration;
/// the snapshot variant of match is a recognized but unsupported
/// operation.
pub fn build(registry: &TypeRegistry, selector: &EnumSelector, arg: &Vec<u8>) -> (r: Result<
    BranchTarget,
    ErrorKind,
>)
    requires
        registry.inv(),
        match selector {
            EnumSelector::Init(info) => match spec_variants_of(*registry, info.enum_type) {
                Some(vs) => info.index < vs.len() ==> arg@.len() == type_size(vs[info.index as int]),
                None => true,
            },
            EnumSelector::Match(info) => match spec_variants_of(*registry, info.enum_type) {
                Some(vs) => arg@.len() == variant_size(vs),
                None => true,
            },
            EnumSelector::SnapshotMatch => true,
        },
    ensures
        match selector {
            EnumSelector::Init(info) => match lookup_spec(registry.entries@, info.enum_type) {
                None => r == Err::<BranchTarget, ErrorKind>(ErrorKind::UnresolvedType),
                Some(tv) => match tv {
                    TdView::Variant(vs) => {
                        if info.index >= vs.len() {
                            r == Err::<BranchTarget, ErrorKind>(ErrorKind::InvalidGenericArgs)
                        } else {
                            r is Ok && r->Ok_0.successor == 0 && r->Ok_0.values@.len() == 1
                                && r->Ok_0.values@[0]@ == enum_value(vs, info.index as int, arg@)
                        }
                    },
                    _ => r == Err::<BranchTarget, ErrorKind>(ErrorKind::InvalidGenericArgs),
                },
            },
            EnumSelector::Match(info) => match lookup_spec(registry.entries@, info.enum_type) {
                None => r == Err::<BranchTarget, ErrorKind>(ErrorKind::UnresolvedType),
                Some(tv) => match tv {
                    TdView::Variant(vs) => r is Ok && {
                        let tag = le_val(arg@.take(tag_bytes(vs.len()) as int));
                        if tag < vs.len() {
                            r->Ok_0.successor == tag && r->Ok_0.values@.len() == 1
                                && r->Ok_0.values@[0]@ == arg@.subrange(
                                payload_offset(vs, tag as int) as int,
                                payload_offset(vs, tag as int) as int + type_size(
                                    vs[tag as int],
                                ) as int,
                            )
                        } else {
                            r->Ok_0.successor == vs.len() && r->Ok_0.values@.len() == 0
                        }
                    },
                    _ => r == Err::<BranchTarget, ErrorKind>(ErrorKind::InvalidGenericArgs),
                },
            },
            EnumSelector::SnapshotMatch => r == Err::<BranchTarget, ErrorKind>(
                ErrorKind::Unimplemented,
            ),
        },
{
    match selector {
        EnumSelector::Init(info) => build_init(registry, info, arg),
        EnumSelector::Match(info) => build_match(registry, info, arg),
        EnumSelector::SnapshotMatch => Err(ErrorKind::Unimplemented),
    }
}


} // verus!
