//! Shared lowering state: the type registry and the name-keyed tables.
//!
//! The type registry maps stable type identifiers to well-formed type
//! descriptors; it is populated before the lowering pass and only read
//! during it. The name-keyed tables record emitted function signatures
//! and width-specific constants; they are append-only, and a key is
//! never inserted twice.

use crate::error::ErrorKind;
use crate::types::{check_type, wf, TdView, TypeDesc};
use vstd::prelude::*;

verus! {

/// One registry entry: a stable type identifier and its descriptor.
pub struct TypeEntry {
    pub id: u64,
    pub desc: TypeDesc,
}

/// Mapping from type identifier to type descriptor.
pub struct TypeRegistry {
    pub entries: Vec<TypeEntry>,
}

/// First descriptor view registered under `id`, if any.
pub open spec fn lookup_spec(entries: Seq<TypeEntry>, id: u64) -> Option<TdView>
    decreases entries.len(),
{
    if entries.len() == 0 {
        None
    } else if entries[0].id == id {
        Some(entries[0].desc@)
    } else {
        lookup_spec(entries.drop_first(), id)
    }
}

/// Skipping entries whose identifier differs does not change the lookup.
pub proof fn lemma_lookup_skip(s: Seq<TypeEntry>, id: u64, i: int)
    requires
        0 <= i <= s.len(),
        forall|j: int| 0 <= j < i ==> (#[trigger] s[j]).id != id,
    ensures
        lookup_spec(s, id) == lookup_spec(s.skip(i), id),
    decreases i,
{
    if i == 0 {
        assert(s.skip(0) =~= s);
    } else {
        lemma_lookup_skip(s, id, i - 1);
        let t = s.skip(i - 1);
        assert(t.len() > 0);
        assert(t[0] == s[i - 1]);
        assert(t[0].id != id);
        assert(t.drop_first() =~= s.skip(i));
    }
}

impl TypeRegistry {
    /// Every registered descriptor is well-formed.
    pub open spec fn inv(self) -> bool {
        forall|i: int| 0 <= i < self.entries@.len() ==> wf((#[trigger] self.entries@[i]).desc@)
    }

    pub open spec fn contains_id(self, id: u64) -> bool {
        lookup_spec(self.entries@, id) is Some
    }

    /// An empty registry.
    pub fn new() -> (r: TypeRegistry)
        ensures
            r.inv(),
            r.entries@.len() == 0,
    {
        TypeRegistry { entries: Vec::new() }
    }

    /// Registers a descriptor under a fresh identifier. Returns `false`,
    /// changing nothing, if the identifier is taken or the descriptor is
    /// not well-formed.
    pub fn insert(&mut self, id: u64, desc: TypeDesc) -> (r: bool)
        requires
            old(self).inv(),
        ensures
            final(self).inv(),
            r == (!old(self).contains_id(id) && wf(desc@)),
            r ==> final(self).entries@.len() == old(self).entries@.len() + 1
                && final(self).entries@.last().id == id && final(self).entries@.last().desc@
                == desc@ && lookup_spec(final(self).entries@, id) == Some(desc@),
            !r ==> final(self).entries@ == old(self).entries@,
            forall|other: u64|
                lookup_spec(final(self).entries@, other) is Some <==> (lookup_spec(
                    old(self).entries@,
                    other,
                ) is Some || (r && other == id)),
            forall|other: u64|
                other != id ==> lookup_spec(final(self).entries@, other) == lookup_spec(
                    old(self).entries@,
                    other,
                ),
    {
        let present = self.get(id).is_some();
        if present {
            return false;
        }
        if !check_type(&desc) {
            return false;
        }
        let ghost olds = self.entries@;
        self.entries.push(TypeEntry { id, desc });
        proof {
            lemma_lookup_push(olds, TypeEntry { id, desc });
            assert forall|i: int| 0 <= i < self.entries@.len() implies wf(
                (#[trigger] self.entries@[i]).desc@,
            ) by {
                if i < olds.len() {
                    assert(self.entries@[i] == olds[i]);
                }
            }
        }
        true
    }

    /// Looks a type up by its identifier.
    pub fn get(&self, id: u64) -> (r: Option<&TypeDesc>)
        ensures
            match r {
                Some(t) => lookup_spec(self.entries@, id) == Some(t@),
                None => lookup_spec(self.entries@, id) is None,
            },
    {
        let n = self.entries.len();
        let mut i: usize = 0;
        while i < n
            invariant
                n == self.entries@.len(),
                i <= n,
                forall|j: int| 0 <= j < i ==> (#[trigger] self.entries@[j]).id != id,
            decreases n - i,
        {
            if self.entries[i].id == id {
                proof {
                    lemma_lookup_skip(self.entries@, id, i as int);
                    assert(self.entries@.skip(i as int)[0] == self.entries@[i as int]);
                }
                return Some(&self.entries[i].desc);
            }
            i += 1;
        }
        proof {
            lemma_lookup_skip(self.entries@, id, n as int);
            assert(self.entries@.skip(n as int).len() == 0);
        }
        None
    }
}

/// Pushing an entry affects the lookup of one identifier: its own, and
/// only when that identifier was absent.
pub proof fn lemma_lookup_push_one(s: Seq<TypeEntry>, e: TypeEntry, id: u64)
    ensures
        id != e.id ==> lookup_spec(s.push(e), id) == lookup_spec(s, id),
        id == e.id && lookup_spec(s, id) is Some ==> lookup_spec(s.push(e), id) == lookup_spec(
            s,
            id,
        ),
        id == e.id && lookup_spec(s, id) is None ==> lookup_spec(s.push(e), id) == Some(e.desc@),
    decreases s.len(),
{
    if s.len() == 0 {
        assert(s.push(e)[0] == e);
        assert(s.push(e).drop_first() =~= Seq::<TypeEntry>::empty());
        assert(lookup_spec(Seq::<TypeEntry>::empty(), id) is None);
        if id != e.id {
            assert(lookup_spec(s.push(e), id) == lookup_spec(s.push(e).drop_first(), id));
        } else {
            assert(lookup_spec(s.push(e), id) == Some(e.desc@));
        }
    } else {
        lemma_lookup_push_one(s.drop_first(), e, id);
        assert(s.push(e)[0] == s[0]);
        assert(s.push(e).drop_first() =~= s.drop_first().push(e));
        if s[0].id == id {
            assert(lookup_spec(s.push(e), id) == Some(s[0].desc@));
            assert(lookup_spec(s, id) == Some(s[0].desc@));
        } else {
            assert(lookup_spec(s.push(e), id) == lookup_spec(s.drop_first().push(e), id));
            assert(lookup_spec(s, id) == lookup_spec(s.drop_first(), id));
        }
    }
}

/// Pushing an entry only affects lookups of its own identifier, and only
/// when that identifier was absent.
pub proof fn lemma_lookup_push(s: Seq<TypeEntry>, e: TypeEntry)
    ensures
        forall|other: u64|
            other != e.id ==> lookup_spec(s.push(e), other) == #[trigger] lookup_spec(s, other),
        lookup_spec(s, e.id) is Some ==> lookup_spec(s.push(e), e.id) == lookup_spec(s, e.id),
        lookup_spec(s, e.id) is None ==> lookup_spec(s.push(e), e.id) == Some(e.desc@),
{
    assert forall|other: u64| other != e.id implies lookup_spec(s.push(e), other)
        == #[trigger] lookup_spec(s, other) by {
        lemma_lookup_push_one(s, e, other);
    }
    lemma_lookup_push_one(s, e, e.id);
}

/// A lookup in a registry of well-formed types yields a well-formed view.
pub proof fn lemma_lookup_wf(s: Seq<TypeEntry>, id: u64)
    requires
        forall|i: int| 0 <= i < s.len() ==> wf((#[trigger] s[i]).desc@),
        lookup_spec(s, id) is Some,
    ensures
        wf(lookup_spec(s, id)->Some_0),
    decreases s.len(),
{
    if s.len() > 0 && s[0].id != id {
        assert(forall|i: int|
            0 <= i < s.drop_first().len() ==> wf((#[trigger] s.drop_first()[i]).desc@));
        lemma_lookup_wf(s.drop_first(), id);
    }
}

/// One table entry: a normalized name and the recorded value.
pub struct TableEntry<V> {
    pub name: Vec<u8>,
    pub value: V,
}

/// An append-only table keyed by normalized names.
///
/// A name is inserted at most once; a second insert under the same name
/// is the caller's logic error and is refused.
pub struct Table<V> {
    pub entries: Vec<TableEntry<V>>,
}

impl<V> Table<V> {
    /// The name already has an entry.
    pub open spec fn spec_contains(self, name: Seq<u8>) -> bool {
        exists|i: int| 0 <= i < self.entries@.len() && (#[trigger] self.entries@[i]).name@ == name
    }

    /// An empty table.
    pub fn new() -> (r: Table<V>)
        ensures
            r.entries@.len() == 0,
    {
        Table { entries: Vec::new() }
    }

    /// Records `value` under a fresh `name`; a name collision is refused
    /// and leaves the table unchanged.
    pub fn insert_new(&mut self, name: Vec<u8>, value: V) -> (r: Result<(), ErrorKind>)
        ensures
            old(self).spec_contains(name@) ==> r == Err::<(), ErrorKind>(
                ErrorKind::DuplicateSignature,
            ) && final(self).entries@ == old(self).entries@,
            !old(self).spec_contains(name@) ==> r == Ok::<(), ErrorKind>(())
                && final(self).entries@.len() == old(self).entries@.len() + 1
                && final(self).entries@.last().name@ == name@
                && final(self).entries@.last().value == value
                && (forall|j: int|
                    0 <= j < old(self).entries@.len() ==> final(self).entries@[j]
                        == old(self).entries@[j]),
    {
        if self.contains(&name) {
            return Err(ErrorKind::DuplicateSignature);
        }
        self.entries.push(TableEntry { name, value });
        Ok(())
    }

    /// Whether the table has an entry under `name`.
    pub fn contains(&self, name: &Vec<u8>) -> (r: bool)
        ensures
            r == self.spec_contains(name@),
    {
        self.get(name).is_some()
    }

    /// Looks a value up by name.
    pub fn get(&self, name: &Vec<u8>) -> (r: Option<&V>)
        ensures
            match r {
                Some(v) => exists|i: int|
                    0 <= i < self.entries@.len() && (#[trigger] self.entries@[i]).name@ == name@
                        && self.entries@[i].value == *v,
                None => !self.spec_contains(name@),
            },
    {
        let n = self.entries.len();
        let mut i: usize = 0;
        while i < n
            invariant
                n == self.entries@.len(),
                i <= n,
                forall|j: int| 0 <= j < i ==> (#[trigger] self.entries@[j]).name@ != name@,
            decreases n - i,
        {
            if crate::bytes::vec_u8_eq(&self.entries[i].name, name) {
                return Some(&self.entries[i].value);
            }
            i += 1;
        }
        None
    }
}

} // verus!
