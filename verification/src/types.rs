//! Type descriptors and their memory layout.
//!
//! A [`TypeDesc`] describes the in-memory shape of a value of the target
//! representation: a primitive of fixed width, a composite (product) of
//! ordered fields, or a variant set (tagged union) of ordered payloads.
//! Field and variant order is semantically significant and is never
//! reordered.
//!
//! The mathematical model of a descriptor is [`TdView`], a tree over
//! `Seq`; every layout quantity (size, alignment, field offsets,
//! well-formedness) is a spec function of the view, and the executable
//! functions are proved against those.
//!
//! Layout rules: a composite lays its fields out in order with alignment
//! padding between and after them; a variant set stores a discriminant of
//! the smallest sufficient byte width, padding, and the largest payload.

use vstd::arithmetic::div_mod::{lemma_fundamental_div_mod, lemma_mod_multiples_basic};
use vstd::prelude::*;

verus! {

/// Upper bound on the size of any single well-formed type, in bytes.
///
/// Keeping every descriptor below this limit lets all layout arithmetic be
/// carried out in `u64` (and buffer lengths in `usize`) without overflow.
pub const SIZE_LIMIT: u64 = 0x10000000;

/// A primitive kind: an unsigned integer of fixed width, or a field
/// element (an integer modulo a large prime, stored in 32 bytes).
#[derive(Debug, Clone, Copy, PartialEq, Eq, Structural)]
pub enum PrimType {
    U8,
    U16,
    U32,
    U64,
    U128,
    Felt,
}

/// The shape of one value of the target representation.
#[derive(Debug, PartialEq, Eq)]
pub enum TypeDesc {
    /// A primitive of fixed width.
    Simple(PrimType),
    /// A product of the given fields, laid out in order.
    Composite(Vec<TypeDesc>),
    /// A tagged union of the given variant payloads, in declaration order.
    Variant(Vec<TypeDesc>),
}

/// The mathematical model of a [`TypeDesc`]: the same tree over `Seq`.
#[verifier::ext_equal]
pub enum TdView {
    Simple(PrimType),
    Composite(Seq<TdView>),
    Variant(Seq<TdView>),
}

/// The view of a descriptor.
pub open spec fn td_view(t: TypeDesc) -> TdView
    decreases t,
{
    match t {
        TypeDesc::Simple(p) => TdView::Simple(p),
        TypeDesc::Composite(fields) => TdView::Composite(td_views(fields@, fields@.len() as int)),
        TypeDesc::Variant(variants) => TdView::Variant(td_views(variants@, variants@.len() as int)),
    }
}

/// The views of the first `i` descriptors of `ts`.
pub open spec fn td_views(ts: Seq<TypeDesc>, i: int) -> Seq<TdView>
    decreases ts, i,
{
    if i <= 0 || ts.len() < i {
        Seq::empty()
    } else {
        td_views(ts, i - 1).push(td_view(ts[i - 1]))
    }
}

/// The views of a whole list of descriptors.
pub open spec fn views_of(ts: Seq<TypeDesc>) -> Seq<TdView> {
    td_views(ts, ts.len() as int)
}

impl View for TypeDesc {
    type V = TdView;

    open spec fn view(&self) -> TdView {
        td_view(*self)
    }
}

pub proof fn lemma_td_views(ts: Seq<TypeDesc>, i: int)
    requires
        0 <= i <= ts.len(),
    ensures
        td_views(ts, i).len() == i,
        forall|j: int| 0 <= j < i ==> td_views(ts, i)[j] == td_view(ts[j]),
    decreases i,
{
    if i > 0 {
        lemma_td_views(ts, i - 1);
    }
}

/// Size in bytes of a primitive.
pub open spec fn prim_size(p: PrimType) -> nat {
    match p {
        PrimType::U8 => 1,
        PrimType::U16 => 2,
        PrimType::U32 => 4,
        PrimType::U64 => 8,
        PrimType::U128 => 16,
        PrimType::Felt => 32,
    }
}

/// Alignment in bytes of a primitive.
pub open spec fn prim_align(p: PrimType) -> nat {
    match p {
        PrimType::U8 => 1,
        PrimType::U16 => 2,
        PrimType::U32 => 4,
        PrimType::U64 => 8,
        PrimType::U128 => 16,
        PrimType::Felt => 16,
    }
}

/// `x` rounded up to the next multiple of `a`.
pub open spec fn align_up(x: nat, a: nat) -> nat
    recommends
        a > 0,
{
    (((x + a - 1) / (a as int)) * a) as nat
}

/// Byte width of the discriminant for `n` variants: the smallest unsigned
/// width that can represent `n` distinct tag values, minimum one byte.
pub open spec fn tag_bytes(n: nat) -> nat {
    if n <= 0x100 {
        1
    } else if n <= 0x10000 {
        2
    } else if n <= 0x100000000 {
        4
    } else {
        8
    }
}

/// An alignment value used by this layout scheme.
pub open spec fn is_align(a: nat) -> bool {
    a == 1 || a == 2 || a == 4 || a == 8 || a == 16
}

/// Alignment of a type.
pub open spec fn align_of(t: TdView) -> nat
    decreases t,
{
    match t {
        TdView::Simple(p) => prim_align(p),
        TdView::Composite(fields) => max_align_upto(fields, fields.len() as int),
        TdView::Variant(variants) => {
            let ta = tag_bytes(variants.len());
            let pa = max_align_upto(variants, variants.len() as int);
            if ta >= pa {
                ta
            } else {
                pa
            }
        },
    }
}

/// Largest alignment among the first `i` elements of `ts` (1 when none).
pub open spec fn max_align_upto(ts: Seq<TdView>, i: int) -> nat
    decreases ts, i,
{
    if i <= 0 || ts.len() < i {
        1
    } else {
        let a = align_of(ts[i - 1]);
        let m = max_align_upto(ts, i - 1);
        if a >= m {
            a
        } else {
            m
        }
    }
}

/// Alignment of a variant set: the larger of the discriminant alignment
/// and the payload alignments.
pub open spec fn variant_align(vs: Seq<TdView>) -> nat {
    let ta = tag_bytes(vs.len());
    let pa = max_align_upto(vs, vs.len() as int);
    if ta >= pa {
        ta
    } else {
        pa
    }
}

/// Size of a type in bytes.
pub open spec fn type_size(t: TdView) -> nat
    decreases t,
{
    match t {
        TdView::Simple(p) => prim_size(p),
        TdView::Composite(fields) => align_up(
            fields_end(fields, fields.len() as int),
            max_align_upto(fields, fields.len() as int),
        ),
        TdView::Variant(variants) => {
            let a = variant_align(variants);
            align_up(
                align_up(tag_bytes(variants.len()), a) + max_size_upto(
                    variants,
                    variants.len() as int,
                ),
                a,
            )
        },
    }
}

/// Offset just past the last of the first `i` fields of a composite,
/// with alignment padding between fields.
pub open spec fn fields_end(ts: Seq<TdView>, i: int) -> nat
    decreases ts, i,
{
    if i <= 0 || ts.len() < i {
        0
    } else {
        align_up(fields_end(ts, i - 1), align_of(ts[i - 1])) + type_size(ts[i - 1])
    }
}

/// Largest size among the first `i` elements of `ts` (0 when none).
pub open spec fn max_size_upto(ts: Seq<TdView>, i: int) -> nat
    decreases ts, i,
{
    if i <= 0 || ts.len() < i {
        0
    } else {
        let s = type_size(ts[i - 1]);
        let m = max_size_upto(ts, i - 1);
        if s >= m {
            s
        } else {
            m
        }
    }
}

/// Size of a composite with the given fields.
pub open spec fn composite_size(fs: Seq<TdView>) -> nat {
    align_up(fields_end(fs, fs.len() as int), max_align_upto(fs, fs.len() as int))
}

/// Size of a variant set with the given payloads.
pub open spec fn variant_size(vs: Seq<TdView>) -> nat {
    let a = variant_align(vs);
    align_up(align_up(tag_bytes(vs.len()), a) + max_size_upto(vs, vs.len() as int), a)
}

/// Offset of field `i` within a composite with fields `fs`.
pub open spec fn field_offset(fs: Seq<TdView>, i: int) -> nat {
    align_up(fields_end(fs, i), align_of(fs[i]))
}

/// Well-formedness: composite and variant descriptors have at least one
/// element, all nested descriptors are well-formed, and every node's size
/// stays below [`SIZE_LIMIT`].
pub open spec fn wf(t: TdView) -> bool
    decreases t,
{
    match t {
        TdView::Simple(_) => true,
        TdView::Composite(fields) => fields.len() > 0 && wf_upto(fields, fields.len() as int)
            && type_size(t) <= SIZE_LIMIT,
        TdView::Variant(variants) => variants.len() > 0 && wf_upto(variants, variants.len() as int)
            && type_size(t) <= SIZE_LIMIT,
    }
}

/// The first `i` elements of `ts` are well-formed.
pub open spec fn wf_upto(ts: Seq<TdView>, i: int) -> bool
    decreases ts, i,
{
    if i <= 0 || ts.len() < i {
        true
    } else {
        wf(ts[i - 1]) && wf_upto(ts, i - 1)
    }
}

pub proof fn lemma_wf_upto_index(ts: Seq<TdView>, i: int, j: int)
    requires
        wf_upto(ts, i),
        0 <= j < i <= ts.len(),
    ensures
        wf(ts[j]),
    decreases i,
{
    if j < i - 1 {
        lemma_wf_upto_index(ts, i - 1, j);
    }
}

/// `align_up` lands on a multiple of `a`, at or above `x`, within `a - 1`.
pub proof fn lemma_align_up(x: nat, a: nat)
    requires
        a > 0,
    ensures
        align_up(x, a) % a == 0,
        x <= align_up(x, a) < x + a,
{
    let q = (x + a - 1) / (a as int);
    lemma_fundamental_div_mod(x + a - 1, a as int);
    lemma_mod_multiples_basic(q, a as int);
}

/// Any multiple of `a` at or above `x` is at or above `align_up(x, a)`.
pub proof fn lemma_align_up_le_multiple(x: nat, a: nat, m: nat)
    requires
        a > 0,
        m % a == 0,
        x <= m,
    ensures
        align_up(x, a) <= m,
{
    lemma_align_up(x, a);
    let u = align_up(x, a);
    let q = (x + a - 1) / (a as int);
    let k = (m as int) / (a as int);
    lemma_fundamental_div_mod(m as int, a as int);
    assert(m == k * (a as int)) by (nonlinear_arith)
        requires
            m as int == (a as int) * k + (m as int) % (a as int),
            (m as int) % (a as int) == 0,
    ;
    if u > m {
        assert(q * a > k * a);
        assert(q > k) by (nonlinear_arith)
            requires
                q * a > k * a,
                a > 0,
        ;
        assert(q * a >= k * a + a) by (nonlinear_arith)
            requires
                q >= k + 1,
                a > 0,
        ;
        assert(u >= m + a);
        assert(u < x + a);
        assert(false);
    }
}

/// A smaller alignment value divides a larger one.
pub proof fn lemma_align_divides(a: nat, b: nat)
    requires
        is_align(a),
        is_align(b),
        a <= b,
    ensures
        b % a == 0,
{
    if a == 1 {
        assert(b % a == 0) by (nonlinear_arith)
            requires
                a == 1,
        ;
    } else if a == 2 {
        if b == 2 {
        } else if b == 4 {
        } else if b == 8 {
        } else {
            assert(b == 16);
        }
    } else if a == 4 {
        if b == 4 {
        } else if b == 8 {
        } else {
            assert(b == 16);
        }
    } else if a == 8 {
        if b == 8 {
        } else {
            assert(b == 16);
        }
    } else {
        assert(a == 16 && b == 16);
    }
}

/// Every alignment this scheme produces is one of 1, 2, 4, 8, 16.
pub proof fn lemma_align_of_valid(t: TdView)
    ensures
        is_align(align_of(t)),
    decreases t,
{
    match t {
        TdView::Simple(_) => {},
        TdView::Composite(fields) => {
            lemma_max_align_upto_valid(fields, fields.len() as int);
        },
        TdView::Variant(variants) => {
            lemma_max_align_upto_valid(variants, variants.len() as int);
        },
    }
}

pub proof fn lemma_max_align_upto_valid(ts: Seq<TdView>, i: int)
    requires
        i <= ts.len(),
    ensures
        is_align(max_align_upto(ts, i)),
    decreases ts, i,
{
    if i > 0 {
        lemma_align_of_valid(ts[i - 1]);
        lemma_max_align_upto_valid(ts, i - 1);
    }
}

/// The maximum alignment dominates each element's alignment.
pub proof fn lemma_max_align_upto_ge(ts: Seq<TdView>, i: int, j: int)
    requires
        0 <= j < i <= ts.len(),
    ensures
        max_align_upto(ts, i) >= align_of(ts[j]),
    decreases i,
{
    if j < i - 1 {
        lemma_max_align_upto_ge(ts, i - 1, j);
    }
}

/// The maximum size dominates each element's size.
pub proof fn lemma_max_size_upto_ge(ts: Seq<TdView>, i: int, j: int)
    requires
        0 <= j < i <= ts.len(),
    ensures
        max_size_upto(ts, i) >= type_size(ts[j]),
    decreases i,
{
    if j < i - 1 {
        lemma_max_size_upto_ge(ts, i - 1, j);
    }
}

/// Field end offsets grow with the field index.
pub proof fn lemma_fields_end_mono(ts: Seq<TdView>, i: int, j: int)
    requires
        0 <= i <= j <= ts.len(),
    ensures
        fields_end(ts, i) <= fields_end(ts, j),
    decreases j - i,
{
    if i < j {
        lemma_fields_end_mono(ts, i, j - 1);
        lemma_align_of_valid(ts[j - 1]);
        lemma_align_up(fields_end(ts, j - 1), align_of(ts[j - 1]));
    }
}

/// A well-formed type's size stays below the limit.
pub proof fn lemma_wf_size_bound(t: TdView)
    requires
        wf(t),
    ensures
        type_size(t) <= SIZE_LIMIT,
{
    match t {
        TdView::Simple(_) => {},
        TdView::Composite(_) => {},
        TdView::Variant(_) => {},
    }
}

impl TypeDesc {
    /// A deep copy with the same view.
    pub fn duplicate(&self) -> (r: TypeDesc)
        ensures
            r@ == self@,
        decreases *self, 1int,
    {
        match self {
            TypeDesc::Simple(p) => TypeDesc::Simple(*p),
            TypeDesc::Composite(fields) => {
                let out = duplicate_vec_inner(self, fields);
                assert(td_views(out@, out@.len() as int) =~= td_views(
                    fields@,
                    fields@.len() as int,
                )) by {
                    lemma_td_views(out@, out@.len() as int);
                    lemma_td_views(fields@, fields@.len() as int);
                }
                TypeDesc::Composite(out)
            },
            TypeDesc::Variant(variants) => {
                let out = duplicate_vec_inner(self, variants);
                assert(td_views(out@, out@.len() as int) =~= td_views(
                    variants@,
                    variants@.len() as int,
                )) by {
                    lemma_td_views(out@, out@.len() as int);
                    lemma_td_views(variants@, variants@.len() as int);
                }
                TypeDesc::Variant(out)
            },
        }
    }
}

/// Duplicates the element list of a composite or variant descriptor.
///
/// `parent` only bounds the recursion: it must be the descriptor that
/// owns `ts`.
fn duplicate_vec_inner(parent: &TypeDesc, ts: &Vec<TypeDesc>) -> (r: Vec<TypeDesc>)
    requires
        *parent == TypeDesc::Composite(*ts) || *parent == TypeDesc::Variant(*ts),
    ensures
        r@.len() == ts@.len(),
        forall|j: int| 0 <= j < ts@.len() ==> r@[j]@ == ts@[j]@,
    decreases *parent, 0int,
{
    let mut out: Vec<TypeDesc> = Vec::new();
    let mut i: usize = 0;
    while i < ts.len()
        invariant
            *parent == TypeDesc::Composite(*ts) || *parent == TypeDesc::Variant(*ts),
            i <= ts@.len(),
            out@.len() == i,
            forall|j: int| 0 <= j < i ==> out@[j]@ == ts@[j]@,
        decreases ts@.len() - i,
    {
        proof {
            if *parent == TypeDesc::Composite(*ts) {
                assert((*parent)->Composite_0 == *ts);
            } else {
                assert((*parent)->Variant_0 == *ts);
            }
            assert(decreases_to!(*parent => *ts));
            assert(decreases_to!(*ts => ts@));
            assert(decreases_to!(ts@ => ts@[i as int]));
        }
        out.push(ts[i].duplicate());
        i += 1;
    }
    out
}

/// Duplicates a list of descriptors, preserving each view.
pub fn duplicate_vec(ts: &Vec<TypeDesc>) -> (r: Vec<TypeDesc>)
    ensures
        r@.len() == ts@.len(),
        forall|j: int| 0 <= j < ts@.len() ==> r@[j]@ == ts@[j]@,
        views_of(r@) == views_of(ts@),
{
    let mut out: Vec<TypeDesc> = Vec::new();
    let mut i: usize = 0;
    while i < ts.len()
        invariant
            i <= ts@.len(),
            out@.len() == i,
            forall|j: int| 0 <= j < i ==> out@[j]@ == ts@[j]@,
        decreases ts@.len() - i,
    {
        out.push(ts[i].duplicate());
        i += 1;
    }
    proof {
        lemma_td_views(out@, out@.len() as int);
        lemma_td_views(ts@, ts@.len() as int);
        assert(views_of(out@) =~= views_of(ts@));
    }
    out
}

/// `x` rounded up to the next multiple of `a`, computed in `u64`.
pub fn align_up_exec(x: u64, a: u64) -> (r: u64)
    requires
        a > 0,
        x + a <= u64::MAX,
    ensures
        r as nat == align_up(x as nat, a as nat),
        x <= r < x + a,
        r as nat % a as nat == 0,
{
    proof {
        lemma_align_up(x as nat, a as nat);
    }
    ((x + a - 1) / a) * a
}

/// Discriminant byte width for `n` variants, computed in `u64`.
pub fn tag_bytes_exec(n: usize) -> (r: u64)
    ensures
        r as nat == tag_bytes(n as nat),
        1 <= r <= 8,
{
    let w: u64 = n as u64;
    if w <= 0x100 {
        1
    } else if w <= 0x10000 {
        2
    } else if w <= 0x100000000 {
        4
    } else {
        8
    }
}

/// Alignment of a type, computed in `u64`.
pub fn align_of_exec(t: &TypeDesc) -> (a: u64)
    ensures
        a as nat == align_of(t@),
        is_align(a as nat),
    decreases *t, 1int,
{
    proof {
        lemma_align_of_valid(t@);
    }
    match t {
        TypeDesc::Simple(p) => match *p {
            PrimType::U8 => 1,
            PrimType::U16 => 2,
            PrimType::U32 => 4,
            PrimType::U64 => 8,
            PrimType::U128 => 16,
            PrimType::Felt => 16,
        },
        TypeDesc::Composite(fields) => {
            let a = max_align_exec(t, fields);
            proof {
                lemma_td_views(fields@, fields@.len() as int);
            }
            a
        },
        TypeDesc::Variant(variants) => {
            let ta = tag_bytes_exec(variants.len());
            let pa = max_align_exec(t, variants);
            proof {
                lemma_td_views(variants@, variants@.len() as int);
            }
            if ta >= pa {
                ta
            } else {
                pa
            }
        },
    }
}

/// Largest alignment among the elements of `ts`, computed in `u64`.
fn max_align_exec(parent: &TypeDesc, ts: &Vec<TypeDesc>) -> (a: u64)
    requires
        *parent == TypeDesc::Composite(*ts) || *parent == TypeDesc::Variant(*ts),
    ensures
        a as nat == max_align_upto(views_of(ts@), ts@.len() as int),
    decreases *parent, 0int,
{
    let ghost vs = views_of(ts@);
    proof {
        lemma_td_views(ts@, ts@.len() as int);
    }
    let mut m: u64 = 1;
    let mut i: usize = 0;
    while i < ts.len()
        invariant
            *parent == TypeDesc::Composite(*ts) || *parent == TypeDesc::Variant(*ts),
            vs == views_of(ts@),
            vs.len() == ts@.len(),
            forall|j: int| 0 <= j < ts@.len() ==> vs[j] == ts@[j]@,
            i <= ts@.len(),
            m as nat == max_align_upto(vs, i as int),
        decreases ts@.len() - i,
    {
        proof {
            if *parent == TypeDesc::Composite(*ts) {
                assert((*parent)->Composite_0 == *ts);
            } else {
                assert((*parent)->Variant_0 == *ts);
            }
            assert(decreases_to!(*parent => *ts));
            assert(decreases_to!(*ts => ts@));
            assert(decreases_to!(ts@ => ts@[i as int]));
        }
        let a = align_of_exec(&ts[i]);
        if a > m {
            m = a;
        }
        i += 1;
    }
    m
}

/// Size of a well-formed type in bytes, computed in `u64`.
pub fn size_of_exec(t: &TypeDesc) -> (s: u64)
    requires
        wf(t@),
    ensures
        s as nat == type_size(t@),
    decreases *t,
{
    match t {
        TypeDesc::Simple(p) => match *p {
            PrimType::U8 => 1,
            PrimType::U16 => 2,
            PrimType::U32 => 4,
            PrimType::U64 => 8,
            PrimType::U128 => 16,
            PrimType::Felt => 32,
        },
        TypeDesc::Composite(fields) => {
            let ghost fvs = views_of(fields@);
            let ghost n = fvs.len() as int;
            proof {
                lemma_td_views(fields@, fields@.len() as int);
            }
            let al = align_of_exec(t);
            let mut off: u64 = 0;
            let mut i: usize = 0;
            while i < fields.len()
                invariant
                    wf(t@),
                    *t == TypeDesc::Composite(*fields),
                    t@ == TdView::Composite(fvs),
                    fvs == views_of(fields@),
                    fvs.len() == fields@.len(),
                    forall|j: int| 0 <= j < fields@.len() ==> fvs[j] == fields@[j]@,
                    n == fvs.len() as int,
                    al as nat == max_align_upto(fvs, n),
                    is_align(al as nat),
                    i <= fields@.len(),
                    off as nat == fields_end(fvs, i as int),
                    off <= SIZE_LIMIT,
                decreases fields@.len() - i,
            {
                proof {
                    assert((*t)->Composite_0 == *fields);
                    assert(decreases_to!(*t => *fields));
                    assert(decreases_to!(*fields => fields@));
                    assert(decreases_to!(fields@ => fields@[i as int]));
                    lemma_wf_upto_index(fvs, n, i as int);
                    lemma_align_of_valid(fvs[i as int]);
                    lemma_wf_size_bound(fvs[i as int]);
                    lemma_fields_end_mono(fvs, i + 1, n);
                    lemma_align_up(fields_end(fvs, n), max_align_upto(fvs, n));
                    lemma_align_up(fields_end(fvs, i as int), align_of(fvs[i as int]));
                }
                let af = align_of_exec(&fields[i]);
                let aligned = align_up_exec(off, af);
                let sz = size_of_exec(&fields[i]);
                assert(aligned + sz == fields_end(fvs, i + 1));
                assert(fields_end(fvs, i + 1) <= type_size(t@));
                off = aligned + sz;
                i += 1;
            }
            align_up_exec(off, al)
        },
        TypeDesc::Variant(variants) => {
            let ghost vvs = views_of(variants@);
            let ghost n = vvs.len() as int;
            proof {
                lemma_td_views(variants@, variants@.len() as int);
            }
            let al = align_of_exec(t);
            let ts_w = tag_bytes_exec(variants.len());
            let mut mx: u64 = 0;
            let mut i: usize = 0;
            while i < variants.len()
                invariant
                    wf(t@),
                    *t == TypeDesc::Variant(*variants),
                    t@ == TdView::Variant(vvs),
                    vvs == views_of(variants@),
                    vvs.len() == variants@.len(),
                    forall|j: int| 0 <= j < variants@.len() ==> vvs[j] == variants@[j]@,
                    n == vvs.len() as int,
                    i <= variants@.len(),
                    mx as nat == max_size_upto(vvs, i as int),
                    mx <= SIZE_LIMIT,
                decreases variants@.len() - i,
            {
                proof {
                    assert((*t)->Variant_0 == *variants);
                    assert(decreases_to!(*t => *variants));
                    assert(decreases_to!(*variants => variants@));
                    assert(decreases_to!(variants@ => variants@[i as int]));
                    lemma_wf_upto_index(vvs, n, i as int);
                    lemma_wf_size_bound(vvs[i as int]);
                }
                let sz = size_of_exec(&variants[i]);
                if sz > mx {
                    mx = sz;
                }
                i += 1;
            }
            let tagged = align_up_exec(ts_w, al);
            align_up_exec(tagged + mx, al)
        },
    }
}

/// Decides well-formedness of a descriptor.
pub fn check_type(t: &TypeDesc) -> (r: bool)
    ensures
        r == wf(t@),
    decreases *t,
{
    match t {
        TypeDesc::Simple(_) => true,
        TypeDesc::Composite(fields) => {
            let ghost fvs = views_of(fields@);
            let ghost n = fvs.len() as int;
            proof {
                lemma_td_views(fields@, fields@.len() as int);
            }
            if fields.len() == 0 {
                return false;
            }
            let mut i: usize = 0;
            while i < fields.len()
                invariant
                    *t == TypeDesc::Composite(*fields),
                    t@ == TdView::Composite(fvs),
                    fvs == views_of(fields@),
                    fvs.len() == fields@.len(),
                    forall|j: int| 0 <= j < fields@.len() ==> fvs[j] == fields@[j]@,
                    n == fvs.len() as int,
                    i <= fields@.len(),
                    wf_upto(fvs, i as int),
                decreases fields@.len() - i,
            {
                proof {
                    assert((*t)->Composite_0 == *fields);
                    assert(decreases_to!(*t => *fields));
                    assert(decreases_to!(*fields => fields@));
                    assert(decreases_to!(fields@ => fields@[i as int]));
                }
                if !check_type(&fields[i]) {
                    proof {
                        if wf_upto(fvs, n) {
                            lemma_wf_upto_index(fvs, n, i as int);
                        }
                    }
                    return false;
                }
                i += 1;
            }
            let mut off: u64 = 0;
            let mut j: usize = 0;
            while j < fields.len()
                invariant
                    *t == TypeDesc::Composite(*fields),
                    t@ == TdView::Composite(fvs),
                    fvs == views_of(fields@),
                    fvs.len() == fields@.len(),
                    forall|k: int| 0 <= k < fields@.len() ==> fvs[k] == fields@[k]@,
                    n == fvs.len() as int,
                    j <= fields@.len(),
                    wf_upto(fvs, n),
                    off as nat == fields_end(fvs, j as int),
                    off <= SIZE_LIMIT,
                decreases fields@.len() - j,
            {
                proof {
                    lemma_wf_upto_index(fvs, n, j as int);
                    lemma_align_of_valid(fvs[j as int]);
                    lemma_wf_size_bound(fvs[j as int]);
                    lemma_align_up(fields_end(fvs, j as int), align_of(fvs[j as int]));
                }
                let af = align_of_exec(&fields[j]);
                let aligned = align_up_exec(off, af);
                let sz = size_of_exec(&fields[j]);
                let next = aligned + sz;
                if next > SIZE_LIMIT {
                    proof {
                        lemma_fields_end_mono(fvs, j + 1, n);
                        lemma_max_align_upto_valid(fvs, n);
                        lemma_align_up(fields_end(fvs, n), max_align_upto(fvs, n));
                    }
                    return false;
                }
                off = next;
                j += 1;
            }
            let al = align_of_exec(t);
            proof {
                lemma_max_align_upto_valid(fvs, n);
            }
            let size = align_up_exec(off, al);
            size <= SIZE_LIMIT
        },
        TypeDesc::Variant(variants) => {
            let ghost vvs = views_of(variants@);
            let ghost n = vvs.len() as int;
            proof {
                lemma_td_views(variants@, variants@.len() as int);
            }
            if variants.len() == 0 {
                return false;
            }
            let mut i: usize = 0;
            while i < variants.len()
                invariant
                    *t == TypeDesc::Variant(*variants),
                    t@ == TdView::Variant(vvs),
                    vvs == views_of(variants@),
                    vvs.len() == variants@.len(),
                    forall|j: int| 0 <= j < variants@.len() ==> vvs[j] == variants@[j]@,
                    n == vvs.len() as int,
                    i <= variants@.len(),
                    wf_upto(vvs, i as int),
                decreases variants@.len() - i,
            {
                proof {
                    assert((*t)->Variant_0 == *variants);
                    assert(decreases_to!(*t => *variants));
                    assert(decreases_to!(*variants => variants@));
                    assert(decreases_to!(variants@ => variants@[i as int]));
                }
                if !check_type(&variants[i]) {
                    proof {
                        if wf_upto(vvs, n) {
                            lemma_wf_upto_index(vvs, n, i as int);
                        }
                    }
                    return false;
                }
                i += 1;
            }
            let mut mx: u64 = 0;
            let mut j: usize = 0;
            while j < variants.len()
                invariant
                    *t == TypeDesc::Variant(*variants),
                    t@ == TdView::Variant(vvs),
                    vvs == views_of(variants@),
                    vvs.len() == variants@.len(),
                    forall|k: int| 0 <= k < variants@.len() ==> vvs[k] == variants@[k]@,
                    n == vvs.len() as int,
                    j <= variants@.len(),
                    wf_upto(vvs, n),
                    mx as nat == max_size_upto(vvs, j as int),
                    mx <= SIZE_LIMIT,
                decreases variants@.len() - j,
            {
                proof {
                    lemma_wf_upto_index(vvs, n, j as int);
                    lemma_wf_size_bound(vvs[j as int]);
                }
                let sz = size_of_exec(&variants[j]);
                if sz > mx {
                    mx = sz;
                }
                j += 1;
            }
            let al = align_of_exec(t);
            let ts_w = tag_bytes_exec(variants.len());
            let tagged = align_up_exec(ts_w, al);
            let size = align_up_exec(tagged + mx, al);
            size <= SIZE_LIMIT
        },
    }
}

} // verus!
