//! The in-memory store of configuration entities: entries keyed by id,
//! each with a revision, and secondary indexes from an entity-derived key
//! to the id of the entry that carries it.
use vstd::prelude::*;

use crate::assoc::{assoc_distinct, assoc_find, assoc_get, lemma_assoc_len, assoc_map, assoc_remove, assoc_set};
use crate::text::{
    chars_of, find, first_occurrence, occurs_at, str_eq, string_of_range, to_owned_string, trim_start_char,
    trim_start_char_spec, opt_view,
};

verus! {

/// A stored entity with its id and the revision at which it was written.
#[derive(Debug)]
pub struct ResourceEntry<T> {
    pub id: String,
    pub value: T,
    pub revision: i64,
}

impl<T> ResourceEntry<T> {
    /// A new entry.
    pub fn new(id: String, value: T, revision: i64) -> (r: Self)
        ensures
            r.id == id,
            r.value == value,
            r.revision == revision,
    {
        ResourceEntry { id, value, revision }
    }

    /// The revision at which the value was written.
    pub fn revision(&self) -> (r: i64)
        ensures
            r == self.revision,
    {
        self.revision
    }

    /// The stored value.
    pub fn value(&self) -> (r: &T)
        ensures
            *r == self.value,
    {
        &self.value
    }
}

/// An entry together with the keys it has in each secondary index.
#[derive(Debug)]
pub struct StoreSlot<T> {
    entry: ResourceEntry<T>,
    index_keys: Vec<Option<String>>,
}

impl<T> StoreSlot<T> {
    /// The key this slot has in index `i`.
    pub closed spec fn key_at(&self, i: int) -> Option<Seq<char>> {
        opt_view(self.index_keys@[i])
    }
}

/// A secondary index after the entry `pk` was rewritten: its old key, if
/// any, is dropped and its new key, if any, points to `pk`.
pub open spec fn index_after_upsert(
    m: Map<Seq<char>, Seq<char>>,
    old_key: Option<Seq<char>>,
    new_key: Option<Seq<char>>,
    pk: Seq<char>,
) -> Map<Seq<char>, Seq<char>> {
    let m1 = match old_key {
        Some(k) => m.remove(k),
        None => m,
    };
    match new_key {
        Some(k) => m1.insert(k, pk),
        None => m1,
    }
}

/// A secondary index after an entry was deleted: its old key, if any, is
/// dropped.
pub open spec fn index_after_delete(
    m: Map<Seq<char>, Seq<char>>,
    old_key: Option<Seq<char>>,
) -> Map<Seq<char>, Seq<char>> {
    match old_key {
        Some(k) => m.remove(k),
        None => m,
    }
}

/// The larger of two revisions.
pub open spec fn max_rev(a: i64, b: i64) -> i64 {
    if a >= b {
        a
    } else {
        b
    }
}

/// No two names are the same.
pub open spec fn names_distinct(names: Seq<String>) -> bool {
    forall|i: int, j: int| 0 <= i < names.len() && 0 <= j < names.len() && i != j ==> names[i]@ != names[j]@
}

/// An entity to load into a store: its id, value, key in each secondary
/// index and revision.
#[derive(Debug)]
pub struct LoadEntry<T> {
    pub id: String,
    pub value: T,
    pub index_keys: Vec<Option<String>>,
    pub revision: i64,
}

/// The entries a store holds after loading `es` in order; a later entry
/// with the same id wins.
pub open spec fn loaded_entries<T>(es: Seq<LoadEntry<T>>) -> Map<Seq<char>, ResourceEntry<T>>
    decreases es.len(),
{
    if es.len() == 0 {
        Map::empty()
    } else {
        loaded_entries(es.drop_last()).insert(
            es.last().id@,
            ResourceEntry { id: es.last().id, value: es.last().value, revision: es.last().revision },
        )
    }
}

/// Secondary index `i` after loading `es` in order.
pub open spec fn loaded_index<T>(es: Seq<LoadEntry<T>>, i: int) -> Map<Seq<char>, Seq<char>>
    decreases es.len(),
{
    if es.len() == 0 {
        Map::empty()
    } else {
        let m = loaded_index(es.drop_last(), i);
        match opt_view(es.last().index_keys@[i]) {
            Some(k) => m.insert(k, es.last().id@),
            None => m,
        }
    }
}

/// The highest revision among `es`, and 0 for none.
pub open spec fn loaded_revision<T>(es: Seq<LoadEntry<T>>) -> i64
    decreases es.len(),
{
    if es.len() == 0 {
        0
    } else {
        max_rev(loaded_revision(es.drop_last()), es.last().revision)
    }
}

/// No two entries share an id.
pub open spec fn ids_distinct<T>(es: Seq<LoadEntry<T>>) -> bool {
    forall|i: int, j: int| 0 <= i < es.len() && 0 <= j < es.len() && i != j ==> es[i].id@ != es[j].id@
}

/// An id is loaded exactly when some entry carries it.
pub proof fn lemma_loaded_dom<T>(es: Seq<LoadEntry<T>>, k: Seq<char>)
    ensures
        loaded_entries(es).contains_key(k) <==> exists|j: int| 0 <= j < es.len() && es[j].id@ == k,
    decreases es.len(),
{
    if es.len() > 0 {
        lemma_loaded_dom(es.drop_last(), k);
        if exists|j: int| 0 <= j < es.len() && es[j].id@ == k {
            let j = choose|j: int| 0 <= j < es.len() && es[j].id@ == k;
            if j < es.len() - 1 {
                assert(es.drop_last()[j] == es[j]);
            }
        }
        if loaded_entries(es.drop_last()).contains_key(k) {
            let j = choose|j: int| 0 <= j < es.drop_last().len() && es.drop_last()[j].id@ == k;
            assert(es[j] == es.drop_last()[j]);
        }
        if k == es.last().id@ {
            assert(es[es.len() - 1].id@ == k);
        }
    }
}

/// Entries and secondary indexes of configuration entities of one kind.
#[derive(Debug)]
pub struct ResourceStore<T> {
    index_names: Vec<String>,
    primary: Vec<(String, StoreSlot<T>)>,
    secondary: Vec<Vec<(String, String)>>,
    mod_revision: i64,
}

/// The secondary index `m` of a store, read as a map from index key to id.
pub open spec fn string_map_view(m: Map<Seq<char>, String>) -> Map<Seq<char>, Seq<char>> {
    m.map_values(|s: String| s@)
}

impl<T> ResourceStore<T> {
    /// The slots by id.
    pub closed spec fn slots(&self) -> Map<Seq<char>, StoreSlot<T>> {
        assoc_map(self.primary@)
    }

    /// The entries by id.
    pub closed spec fn entries(&self) -> Map<Seq<char>, ResourceEntry<T>> {
        self.slots().map_values(|s: StoreSlot<T>| s.entry)
    }

    /// The number of secondary indexes.
    pub closed spec fn index_count(&self) -> nat {
        self.index_names@.len()
    }

    /// The name of secondary index `i`.
    pub closed spec fn index_name(&self, i: int) -> Seq<char> {
        self.index_names@[i]@
    }

    /// Secondary index `i`, from index key to id.
    pub closed spec fn index(&self, i: int) -> Map<Seq<char>, Seq<char>> {
        string_map_view(assoc_map(self.secondary@[i]@))
    }

    /// The key that the entry `id` has in secondary index `i`.
    pub closed spec fn entry_index_key(&self, id: Seq<char>, i: int) -> Option<Seq<char>> {
        self.slots()[id].key_at(i)
    }

    /// The highest revision that the store has seen.
    pub closed spec fn revision_spec(&self) -> i64 {
        self.mod_revision
    }

    /// Every index entry points to a stored entry that carries that index key.
    pub closed spec fn index_sound(&self) -> bool {
        forall|i: int, k: Seq<char>|
            0 <= i < self.index_count() && #[trigger] self.index(i).contains_key(k) ==> {
                &&& self.slots().contains_key(self.index(i)[k])
                &&& self.entry_index_key(self.index(i)[k], i) == Some(k)
            }
    }

    /// The store's structural invariant.
    pub closed spec fn wf(&self) -> bool {
        &&& assoc_distinct(self.primary@)
        &&& self.secondary@.len() == self.index_names@.len()
        &&& names_distinct(self.index_names@)
        &&& forall|i: int| 0 <= i < self.secondary@.len() ==> assoc_distinct(#[trigger] self.secondary@[i]@)
        &&& forall|id: Seq<char>|
            #[trigger] self.slots().contains_key(id) ==> {
                &&& self.slots()[id].index_keys@.len() == self.index_names@.len()
                &&& self.slots()[id].entry.id@ == id
            }
    }

    /// An empty store with the named secondary indexes.
    pub fn new(index_names: Vec<String>) -> (r: Self)
        requires
            names_distinct(index_names@),
        ensures
            r.wf(),
            r.index_sound(),
            r.entries() == Map::<Seq<char>, ResourceEntry<T>>::empty(),
            r.index_count() == index_names@.len(),
            forall|i: int| 0 <= i < index_names@.len() ==> r.index_name(i) == index_names@[i]@,
            forall|i: int| 0 <= i < index_names@.len() ==> r.index(i) == Map::<Seq<char>, Seq<char>>::empty(),
            r.revision_spec() == 0,
    {
        let mut secondary: Vec<Vec<(String, String)>> = Vec::new();
        let mut i: usize = 0;
        while i < index_names.len()
            invariant
                0 <= i <= index_names.len(),
                secondary@.len() == i,
                forall|j: int| 0 <= j < i ==> (#[trigger] secondary@[j])@.len() == 0,
            decreases index_names.len() - i,
        {
            secondary.push(Vec::new());
            i += 1;
        }
        let r = ResourceStore { index_names, primary: Vec::new(), secondary, mod_revision: 0 };
        proof {
            assert(r.entries() =~= Map::empty());
            assert forall|j: int| 0 <= j < r.index_count() implies r.index(j) == Map::<
                Seq<char>,
                Seq<char>,
            >::empty() by {
                assert(r.secondary@[j]@ =~= Seq::empty());
                assert(r.index(j) =~= Map::empty());
            }
            assert forall|j: int| 0 <= j < r.secondary@.len() implies assoc_distinct(
                #[trigger] r.secondary@[j]@,
            ) by {}
        }
        r
    }

    /// The number of secondary indexes.
    pub fn index_len(&self) -> (r: usize)
        ensures
            r == self.index_count(),
    {
        self.index_names.len()
    }

    /// The entry with this id.
    pub fn get(&self, key: &str) -> (r: Option<&ResourceEntry<T>>)
        requires
            self.wf(),
        ensures
            r matches Some(e) ==> self.entries().contains_key(key@) && self.entries()[key@] == *e,
            r is None ==> !self.entries().contains_key(key@),
    {
        match assoc_get(&self.primary, key) {
            Some(slot) => Some(&slot.entry),
            None => None,
        }
    }

    /// The key the entry `id` had in index `i` before it was rewritten, if
    /// the store held it.
    pub open spec fn prior_key(&self, id: Seq<char>, i: int) -> Option<Seq<char>> {
        if self.entries().contains_key(id) {
            self.entry_index_key(id, i)
        } else {
            None
        }
    }

    /// What the secondary index named `index` maps `sec` to: the stored
    /// entry its id leads to, if the index exists, holds the key, and the id
    /// is stored.
    pub open spec fn secondary_lookup(&self, index: Seq<char>, sec: Seq<char>) -> Option<ResourceEntry<T>> {
        if exists|i: int| 0 <= i < self.index_count() && #[trigger] self.index_name(i) == index {
            let i = choose|i: int| 0 <= i < self.index_count() && #[trigger] self.index_name(i) == index;
            if self.index(i).contains_key(sec) && self.entries().contains_key(self.index(i)[sec]) {
                Some(self.entries()[self.index(i)[sec]])
            } else {
                None
            }
        } else {
            None
        }
    }

    /// The index named like index `i` is index `i`.
    pub proof fn lemma_lookup_index(&self, i: int, sec: Seq<char>)
        requires
            self.wf(),
            0 <= i < self.index_count(),
        ensures
            self.secondary_lookup(self.index_name(i), sec) == (if self.index(i).contains_key(sec)
                && self.entries().contains_key(self.index(i)[sec]) {
                Some(self.entries()[self.index(i)[sec]])
            } else {
                None
            }),
    {
        let name = self.index_name(i);
        assert(self.index_name(i) == name);
        let j = choose|j: int| 0 <= j < self.index_count() && #[trigger] self.index_name(j) == name;
        if j != i {
            assert(self.index_names@[i]@ != self.index_names@[j]@);
        }
    }

    /// Whether `post` is this store after writing `value` under `key` at
    /// `revision`, with `index_keys` as the value's key in each index.
    pub open spec fn upserted_to(
        &self,
        post: Self,
        key: String,
        value: T,
        index_keys: Seq<Option<String>>,
        revision: i64,
    ) -> bool {
        &&& post.entries() == self.entries().insert(key@, ResourceEntry { id: key, value, revision })
        &&& post.index_count() == self.index_count()
        &&& forall|i: int| 0 <= i < self.index_count() ==> post.index_name(i) == self.index_name(i)
        &&& forall|i: int|
            0 <= i < self.index_count() ==> #[trigger] post.index(i) == index_after_upsert(
                self.index(i),
                self.prior_key(key@, i),
                opt_view(index_keys[i]),
                key@,
            )
        &&& post.revision_spec() == max_rev(revision, self.revision_spec())
    }

    /// Whether `post` is this store after deleting `key` at `mod_revision`.
    pub open spec fn deleted_to(&self, post: Self, key: Seq<char>, mod_revision: i64) -> bool {
        &&& post.entries() == self.entries().remove(key)
        &&& post.index_count() == self.index_count()
        &&& forall|i: int| 0 <= i < self.index_count() ==> post.index_name(i) == self.index_name(i)
        &&& forall|i: int|
            0 <= i < self.index_count() ==> #[trigger] post.index(i) == index_after_delete(
                self.index(i),
                self.prior_key(key, i),
            )
        &&& post.revision_spec() == max_rev(mod_revision, self.revision_spec())
    }

    /// Writes `value` under `key` at `revision`; `index_keys` holds the key
    /// the value has in each secondary index.
    pub fn upsert(&mut self, key: String, value: T, index_keys: Vec<Option<String>>, revision: i64)
        requires
            old(self).wf(),
            index_keys@.len() == old(self).index_count(),
        ensures
            final(self).wf(),
            final(self).entries() == old(self).entries().insert(
                key@,
                ResourceEntry { id: key, value, revision },
            ),
            final(self).index_count() == old(self).index_count(),
            forall|i: int|
                0 <= i < old(self).index_count() ==> final(self).index_name(i) == old(self).index_name(i),
            forall|i: int|
                0 <= i < old(self).index_count() ==> #[trigger] final(self).index(i) == index_after_upsert(
                    old(self).index(i),
                    old(self).prior_key(key@, i),
                    opt_view(index_keys@[i]),
                    key@,
                ),
            forall|i: int|
                0 <= i < old(self).index_count() ==> #[trigger] final(self).entry_index_key(key@, i)
                    == opt_view(index_keys@[i]),
            final(self).revision_spec() == max_rev(revision, old(self).revision_spec()),
            old(self).index_sound() ==> final(self).index_sound(),
            old(self).upserted_to(*final(self), key, value, index_keys@, revision),
    {
        let ghost pre = *self;
        let found = assoc_find(&self.primary, key.as_str());
        let mut i: usize = 0;
        while i < self.secondary.len()
            invariant
                0 <= i <= self.secondary@.len(),
                self.secondary@.len() == pre.secondary@.len(),
                self.index_names == pre.index_names,
                self.primary == pre.primary,
                self.mod_revision == pre.mod_revision,
                pre.wf(),
                index_keys@.len() == pre.index_count(),
                found matches Some(j) ==> j < pre.primary@.len() && pre.primary@[j as int].0@ == key@,
                found is None ==> !pre.slots().contains_key(key@),
                found matches Some(j) ==> pre.slots().contains_key(key@) && pre.slots()[key@]
                    == pre.primary@[j as int].1,
                forall|k: int| 0 <= k < self.secondary@.len() ==> assoc_distinct(#[trigger] self.secondary@[k]@),
                forall|k: int| i <= k < self.secondary@.len() ==> #[trigger] self.secondary@[k] == pre.secondary@[k],
                forall|k: int|
                    0 <= k < i ==> #[trigger] self.index(k) == index_after_upsert(
                        pre.index(k),
                        pre.prior_key(key@, k),
                        opt_view(index_keys@[k]),
                        key@,
                    ),
            decreases self.secondary@.len() - i,
        {
            let ghost sec_before = self.secondary@;
            let ghost self_before = *self;
            let ghost ii = i as int;
            let ghost m0 = assoc_map(self.secondary@[ii]@);
            if let Some(j) = found {
                if let Some(old_k) = &self.primary[j].1.index_keys[i] {
                    assoc_remove(&mut self.secondary[i], old_k.as_str());
                }
            }
            let ghost m1 = assoc_map(self.secondary@[ii]@);
            proof {
                let pk = pre.prior_key(key@, ii);
                if found is Some {
                    assert(pk == opt_view(pre.primary@[found->0 as int].1.index_keys@[ii]));
                } else {
                    assert(pk is None);
                }
                assert(m1 == match pk {
                    Some(k) => m0.remove(k),
                    None => m0,
                });
            }
            if let Some(new_k) = &index_keys[i] {
                assoc_set(&mut self.secondary[i], to_owned_string(new_k.as_str()), to_owned_string(key.as_str()));
            }
            proof {
                let m2 = assoc_map(self.secondary@[ii]@);
                let want = index_after_upsert(
                    pre.index(ii),
                    pre.prior_key(key@, ii),
                    opt_view(index_keys@[ii]),
                    key@,
                );
                assert(pre.index(ii) == string_map_view(m0));
                assert(self.index(ii) == string_map_view(m2));
                assert(self.index(ii) =~= want);
                assert forall|k: int| 0 <= k < self.secondary@.len() && k != ii implies #[trigger] self.secondary@[k]
                    == sec_before[k] by {}
                assert forall|k: int| 0 <= k < ii implies #[trigger] self.index(k) == index_after_upsert(
                    pre.index(k),
                    pre.prior_key(key@, k),
                    opt_view(index_keys@[k]),
                    key@,
                ) by {
                    assert(self.secondary@[k] == sec_before[k]);
                    assert(self.index(k) == self_before.index(k));
                }
            }
            i += 1;
        }
        let ghost after_loop = *self;
        let pk = to_owned_string(key.as_str());
        let slot = StoreSlot { entry: ResourceEntry { id: key, value, revision }, index_keys };
        assoc_set(&mut self.primary, pk, slot);
        if revision > self.mod_revision {
            self.mod_revision = revision;
        }
        proof {
            let post = *self;
            assert(post.entries() =~= pre.entries().insert(key@, slot.entry));
            assert forall|i: int| 0 <= i < post.index_count() implies #[trigger] post.index(i) == after_loop.index(i) by {}
            assert forall|i: int, k: Seq<char>|
                pre.index_sound() && 0 <= i < post.index_count() && #[trigger] post.index(i).contains_key(k) implies {
                    &&& post.slots().contains_key(post.index(i)[k])
                    &&& post.entry_index_key(post.index(i)[k], i) == Some(k)
                } by {
                assert(post.index(i) == after_loop.index(i));
                if opt_view(slot.index_keys@[i]) != Some(k) {
                    let pk2 = pre.index(i)[k];
                    assert(pre.index(i).contains_key(k));
                    if pk2 == key@ {
                        assert(pre.entry_index_key(key@, i) == Some(k));
                    }
                }
            }
        }
    }

    /// Removes the entry under `key`, noting `mod_revision`; says whether
    /// there was one.
    pub fn delete(&mut self, key: &str, mod_revision: i64) -> (r: bool)
        requires
            old(self).wf(),
        ensures
            final(self).wf(),
            r == old(self).entries().contains_key(key@),
            final(self).entries() == old(self).entries().remove(key@),
            final(self).index_count() == old(self).index_count(),
            forall|i: int|
                0 <= i < old(self).index_count() ==> final(self).index_name(i) == old(self).index_name(i),
            forall|i: int|
                0 <= i < old(self).index_count() ==> #[trigger] final(self).index(i) == index_after_delete(
                    old(self).index(i),
                    old(self).prior_key(key@, i),
                ),
            final(self).revision_spec() == max_rev(mod_revision, old(self).revision_spec()),
            old(self).index_sound() ==> final(self).index_sound(),
            old(self).deleted_to(*final(self), key@, mod_revision),
    {
        let ghost pre = *self;
        let found = assoc_find(&self.primary, key);
        let mut i: usize = 0;
        while i < self.secondary.len()
            invariant
                0 <= i <= self.secondary@.len(),
                self.secondary@.len() == pre.secondary@.len(),
                self.index_names == pre.index_names,
                self.primary == pre.primary,
                self.mod_revision == pre.mod_revision,
                pre.wf(),
                found matches Some(j) ==> j < pre.primary@.len() && pre.primary@[j as int].0@ == key@,
                found is None ==> !pre.slots().contains_key(key@),
                found matches Some(j) ==> pre.slots().contains_key(key@) && pre.slots()[key@]
                    == pre.primary@[j as int].1,
                forall|k: int| 0 <= k < self.secondary@.len() ==> assoc_distinct(#[trigger] self.secondary@[k]@),
                forall|k: int| i <= k < self.secondary@.len() ==> #[trigger] self.secondary@[k] == pre.secondary@[k],
                forall|k: int|
                    0 <= k < i ==> #[trigger] self.index(k) == index_after_delete(
                        pre.index(k),
                        pre.prior_key(key@, k),
                    ),
            decreases self.secondary@.len() - i,
        {
            let ghost sec_before = self.secondary@;
            let ghost self_before = *self;
            let ghost ii = i as int;
            let ghost m0 = assoc_map(self.secondary@[ii]@);
            if let Some(j) = found {
                if let Some(old_k) = &self.primary[j].1.index_keys[i] {
                    assoc_remove(&mut self.secondary[i], old_k.as_str());
                }
            }
            proof {
                let m1 = assoc_map(self.secondary@[ii]@);
                let pk = pre.prior_key(key@, ii);
                if found is Some {
                    assert(pk == opt_view(pre.primary@[found->0 as int].1.index_keys@[ii]));
                } else {
                    assert(pk is None);
                }
                assert(pre.index(ii) == string_map_view(m0));
                assert(self.index(ii) == string_map_view(m1));
                assert(self.index(ii) =~= index_after_delete(pre.index(ii), pk));
                assert forall|k: int| 0 <= k < self.secondary@.len() && k != ii implies #[trigger] self.secondary@[k]
                    == sec_before[k] by {}
                assert forall|k: int| 0 <= k < ii implies #[trigger] self.index(k) == index_after_delete(
                    pre.index(k),
                    pre.prior_key(key@, k),
                ) by {
                    assert(self.secondary@[k] == sec_before[k]);
                    assert(self.index(k) == self_before.index(k));
                }
            }
            i += 1;
        }
        let ghost after_loop = *self;
        let removed = assoc_remove(&mut self.primary, key);
        if mod_revision > self.mod_revision {
            self.mod_revision = mod_revision;
        }
        proof {
            let post = *self;
            assert(post.entries() =~= pre.entries().remove(key@));
            assert forall|i: int| 0 <= i < post.index_count() implies #[trigger] post.index(i) == after_loop.index(i) by {}
            assert forall|i: int, k: Seq<char>|
                pre.index_sound() && 0 <= i < post.index_count() && #[trigger] post.index(i).contains_key(k) implies {
                    &&& post.slots().contains_key(post.index(i)[k])
                    &&& post.entry_index_key(post.index(i)[k], i) == Some(k)
                } by {
                assert(post.index(i) == after_loop.index(i));
                let pk2 = pre.index(i)[k];
                assert(pre.index(i).contains_key(k));
                if pk2 == key@ {
                    assert(pre.entry_index_key(key@, i) == Some(k));
                }
            }
        }
        removed.is_some()
    }

    /// Points each index key in `index_keys` to `id`.
    fn add_index_keys(&mut self, id: &String, index_keys: &Vec<Option<String>>)
        requires
            old(self).wf(),
            index_keys@.len() == old(self).index_count(),
        ensures
            final(self).wf(),
            final(self).primary == old(self).primary,
            final(self).index_names == old(self).index_names,
            final(self).mod_revision == old(self).mod_revision,
            forall|i: int|
                0 <= i < old(self).index_count() ==> #[trigger] final(self).index(i) == match opt_view(
                    index_keys@[i],
                ) {
                    Some(k) => old(self).index(i).insert(k, id@),
                    None => old(self).index(i),
                },
    {
        let ghost pre = *self;
        let mut i: usize = 0;
        while i < self.secondary.len()
            invariant
                0 <= i <= self.secondary@.len(),
                self.secondary@.len() == pre.secondary@.len(),
                self.index_names == pre.index_names,
                self.primary == pre.primary,
                self.mod_revision == pre.mod_revision,
                pre.wf(),
                index_keys@.len() == pre.index_count(),
                forall|k: int| 0 <= k < self.secondary@.len() ==> assoc_distinct(#[trigger] self.secondary@[k]@),
                forall|k: int| i <= k < self.secondary@.len() ==> #[trigger] self.secondary@[k] == pre.secondary@[k],
                forall|k: int|
                    0 <= k < i ==> #[trigger] self.index(k) == match opt_view(index_keys@[k]) {
                        Some(kk) => pre.index(k).insert(kk, id@),
                        None => pre.index(k),
                    },
            decreases self.secondary@.len() - i,
        {
            let ghost sec_before = self.secondary@;
            let ghost self_before = *self;
            let ghost ii = i as int;
            if let Some(new_k) = &index_keys[i] {
                assoc_set(&mut self.secondary[i], to_owned_string(new_k.as_str()), to_owned_string(id.as_str()));
            }
            proof {
                assert(self.index(ii) =~= match opt_view(index_keys@[ii]) {
                    Some(kk) => pre.index(ii).insert(kk, id@),
                    None => pre.index(ii),
                });
                assert forall|k: int| 0 <= k < self.secondary@.len() && k != ii implies #[trigger] self.secondary@[k]
                    == sec_before[k] by {}
                assert forall|k: int| 0 <= k < ii implies #[trigger] self.index(k) == match opt_view(index_keys@[k]) {
                    Some(kk) => pre.index(k).insert(kk, id@),
                    None => pre.index(k),
                } by {
                    assert(self.secondary@[k] == sec_before[k]);
                    assert(self.index(k) == self_before.index(k));
                }
            }
            i += 1;
        }
        assert(self.slots() == pre.slots());
    }

    /// Replaces the whole content of the store by `entries`, loaded in
    /// order; the revision becomes the highest among them.
    pub fn replace_from_entries(&mut self, entries: Vec<LoadEntry<T>>)
        requires
            old(self).wf(),
            forall|j: int| 0 <= j < entries@.len() ==> (#[trigger] entries@[j]).index_keys@.len() == old(self).index_count(),
        ensures
            final(self).wf(),
            final(self).entries() == loaded_entries(entries@),
            final(self).index_count() == old(self).index_count(),
            forall|i: int|
                0 <= i < old(self).index_count() ==> final(self).index_name(i) == old(self).index_name(i),
            forall|i: int|
                0 <= i < old(self).index_count() ==> #[trigger] final(self).index(i) == loaded_index(entries@, i),
            final(self).revision_spec() == loaded_revision(entries@),
            ids_distinct(entries@) ==> final(self).index_sound(),
    {
        let ghost es = entries@;
        let ghost pre = *self;
        let mut secondary: Vec<Vec<(String, String)>> = Vec::new();
        let mut i: usize = 0;
        while i < self.index_names.len()
            invariant
                0 <= i <= self.index_names.len(),
                secondary@.len() == i,
                forall|j: int| 0 <= j < i ==> (#[trigger] secondary@[j])@.len() == 0,
            decreases self.index_names.len() - i,
        {
            secondary.push(Vec::new());
            i += 1;
        }
        self.primary = Vec::new();
        self.secondary = secondary;
        self.mod_revision = 0;
        proof {
            assert(self.slots() =~= Map::empty());
            assert forall|j: int| 0 <= j < self.index_count() implies #[trigger] self.index(j) == loaded_index(
                es.take(0),
                j,
            ) by {
                assert(self.secondary@[j]@ =~= Seq::empty());
                assert(self.index(j) =~= Map::empty());
            }
            assert forall|j: int| 0 <= j < self.secondary@.len() implies assoc_distinct(
                #[trigger] self.secondary@[j]@,
            ) by {}
            assert(self.entries() =~= loaded_entries(es.take(0)));
        }
        assert(es.len() == entries.len());
        let mut rest = entries;
        let mut n: usize = 0;
        while rest.len() > 0
            invariant
                0 <= n <= es.len(),
                es.len() <= usize::MAX,
                rest@ == es.subrange(n as int, es.len() as int),
                self.wf(),
                self.index_names == pre.index_names,
                forall|j: int| 0 <= j < es.len() ==> (#[trigger] es[j]).index_keys@.len() == pre.index_count(),
                self.entries() == loaded_entries(es.take(n as int)),
                forall|j: int| 0 <= j < self.index_count() ==> #[trigger] self.index(j) == loaded_index(es.take(n as int), j),
                self.mod_revision == loaded_revision(es.take(n as int)),
                ids_distinct(es) ==> self.index_sound(),
            decreases rest.len(),
        {
            let e = rest.remove(0);
            let ghost before = *self;
            let ghost nn = n as int;
            proof {
                assert(e == es[nn]);
                assert(es.take(nn + 1).drop_last() =~= es.take(nn));
                assert(es.take(nn + 1).last() == es[nn]);
            }
            self.add_index_keys(&e.id, &e.index_keys);
            let ghost mid = *self;
            let pk = to_owned_string(e.id.as_str());
            let LoadEntry { id, value, index_keys, revision } = e;
            let slot = StoreSlot { entry: ResourceEntry { id, value, revision }, index_keys };
            assoc_set(&mut self.primary, pk, slot);
            if revision > self.mod_revision {
                self.mod_revision = revision;
            }
            n += 1;
            proof {
                let post = *self;
                let t = es.take(nn + 1);
                assert(post.slots() == before.slots().insert(e.id@, slot));
                assert(post.entries() =~= loaded_entries(t));
                assert forall|j: int| 0 <= j < post.index_count() implies #[trigger] post.index(j) == loaded_index(t, j) by {
                    assert(post.index(j) == mid.index(j));
                }
                assert(rest@ =~= es.subrange(nn + 1, es.len() as int));
                if ids_distinct(es) {
                    assert(!before.entries().contains_key(e.id@)) by {
                        lemma_loaded_dom(es.take(nn), e.id@);
                        if before.entries().contains_key(e.id@) {
                            let j = choose|j: int| 0 <= j < es.take(nn).len() && es.take(nn)[j].id@ == e.id@;
                            assert(es[j].id@ == es[nn].id@);
                        }
                    }
                    assert forall|i: int, k: Seq<char>|
                        0 <= i < post.index_count() && #[trigger] post.index(i).contains_key(k) implies {
                            &&& post.slots().contains_key(post.index(i)[k])
                            &&& post.entry_index_key(post.index(i)[k], i) == Some(k)
                        } by {
                        assert(post.index(i) == mid.index(i));
                        if opt_view(slot.index_keys@[i]) != Some(k) {
                            assert(before.index(i).contains_key(k));
                            let pk2 = before.index(i)[k];
                            assert(before.slots().contains_key(pk2));
                        }
                    }
                }
            }
        }
        proof {
            assert(es.take(n as int) =~= es);
        }
    }

    /// The highest revision the store has seen.
    pub fn latest_mod_revision(&self) -> (r: i64)
        ensures
            r == self.revision_spec(),
    {
        self.mod_revision
    }

    /// The number of entries.
    pub fn len(&self) -> (r: usize)
        requires
            self.wf(),
        ensures
            r == self.entries().len(),
    {
        proof {
            lemma_assoc_len(self.primary@);
            assert(self.entries().dom() =~= self.slots().dom());
        }
        self.primary.len()
    }

    /// The position of the secondary index named `name`.
    fn find_index(&self, name: &str) -> (r: Option<usize>)
        ensures
            r matches Some(i) ==> i < self.index_count() && self.index_name(i as int) == name@,
            r is None ==> forall|i: int| 0 <= i < self.index_count() ==> self.index_name(i) != name@,
    {
        let mut i: usize = 0;
        while i < self.index_names.len()
            invariant
                0 <= i <= self.index_names.len(),
                forall|j: int| 0 <= j < i ==> self.index_name(j) != name@,
            decreases self.index_names.len() - i,
        {
            if str_eq(self.index_names[i].as_str(), name) {
                return Some(i);
            }
            i += 1;
        }
        None
    }

    /// The entry that the index named `index` maps `sec_key` to.
    pub fn get_by_secondary(&self, index: &str, sec_key: &str) -> (r: Option<&ResourceEntry<T>>)
        requires
            self.wf(),
        ensures
            match r {
                Some(e) => self.secondary_lookup(index@, sec_key@) == Some(*e),
                None => self.secondary_lookup(index@, sec_key@) is None,
            },
            r matches Some(e) ==> exists|i: int|
                0 <= i < self.index_count() && self.index_name(i) == index@ && #[trigger] self.index(
                    i,
                ).contains_key(sec_key@) && self.entries().contains_key(self.index(i)[sec_key@])
                    && self.entries()[self.index(i)[sec_key@]] == *e
                    && (self.index_sound() ==> self.entry_index_key(self.index(i)[sec_key@], i)
                    == Some(sec_key@)),
            r is None ==> forall|i: int|
                0 <= i < self.index_count() && self.index_name(i) == index@
                    ==> !(#[trigger] self.index(i).contains_key(sec_key@)) || !self.entries().contains_key(
                    self.index(i)[sec_key@],
                ),
    {
        let i = match self.find_index(index) {
            Some(i) => i,
            None => {
                return None;
            },
        };
        let ghost gi = i as int;
        proof {
            self.lemma_lookup_index(gi, sec_key@);
        }
        assert(assoc_distinct(self.secondary@[gi]@));
        let pk = match assoc_get(&self.secondary[i], sec_key) {
            Some(pk) => pk,
            None => {
                return None;
            },
        };
        proof {
            assert(self.index(gi).contains_key(sec_key@));
            assert(self.index(gi)[sec_key@] == pk@);
        }
        match assoc_get(&self.primary, pk.as_str()) {
            Some(slot) => Some(&slot.entry),
            None => None,
        }
    }
}

/// The key of a watched entry relative to the watch prefix: what follows
/// the first occurrence of the prefix, without leading slashes; empty where
/// the prefix does not occur.
pub open spec fn relative_key_spec(key: Seq<char>, prefix: Seq<char>) -> Seq<char> {
    if exists|i: int| first_occurrence(key, prefix, i) {
        let i = choose|i: int| first_occurrence(key, prefix, i);
        trim_start_char_spec(key.subrange(i + prefix.len(), key.len() as int), '/')
    } else {
        Seq::empty()
    }
}

/// The key of `key` relative to `prefix`.
pub fn relative_key(key: &str, prefix: &str) -> (r: String)
    ensures
        r@ == relative_key_spec(key@, prefix@),
{
    match find(key, prefix) {
        Some(i) => {
            let kv = chars_of(key);
            let pv = chars_of(prefix);
            let klen = kv.len();
            let plen = pv.len();
            proof {
                assert(occurs_at(key@, prefix@, i as int));
                assert(i + plen <= klen);
                assert forall|j: int| first_occurrence(key@, prefix@, j) implies j == i by {
                    if j < i {
                        assert(occurs_at(key@, prefix@, j));
                    }
                }
            }
            let rest = string_of_range(&kv, i + plen, klen);
            trim_start_char(rest.as_str(), '/')
        },
        None => String::new(),
    }
}

/// An entity read from the configuration source during a full load: its
/// full key, value, key in each secondary index, revision, and whether the
/// entity's validator accepted it under its relative key.
#[derive(Debug)]
pub struct FetchedEntry<T> {
    pub key: String,
    pub value: T,
    pub index_keys: Vec<Option<String>>,
    pub revision: i64,
    pub accepted: bool,
}

/// Whether `es` is what a full load of `kvs` under `prefix` stores: the
/// accepted entries in order, each under its key relative to `prefix`.
pub open spec fn load_plan<T>(es: Seq<LoadEntry<T>>, kvs: Seq<FetchedEntry<T>>, prefix: Seq<char>) -> bool
    decreases kvs.len(),
{
    if kvs.len() == 0 {
        es.len() == 0
    } else if kvs.last().accepted {
        &&& es.len() > 0
        &&& es.last().id@ == relative_key_spec(kvs.last().key@, prefix)
        &&& es.last().value == kvs.last().value
        &&& es.last().index_keys == kvs.last().index_keys
        &&& es.last().revision == kvs.last().revision
        &&& load_plan(es.drop_last(), kvs.drop_last(), prefix)
    } else {
        load_plan(es, kvs.drop_last(), prefix)
    }
}

/// A change reported by the watch on the configuration source.
#[derive(Debug)]
pub enum StoreEvent<T> {
    /// A key was written; `parsed` is absent where its bytes were not a
    /// valid entity, and `accepted` is the validator's verdict.
    Put { key: String, parsed: Option<T>, index_keys: Vec<Option<String>>, accepted: bool, revision: i64 },
    /// A key was deleted.
    Delete { key: String, revision: i64 },
    /// The watch lost track and asks for a full reload.
    Resync,
}

/// What became of an event.
#[derive(Debug, PartialEq, Eq, Structural)]
pub enum EventOutcome {
    /// The entity was written.
    Stored,
    /// The validator refused the entity; the store is unchanged.
    Rejected,
    /// The entity did not parse; the store is unchanged.
    Unparsed,
    /// The entity was removed.
    Deleted,
    /// The store did not hold the deleted key; only the revision moved.
    Missed,
    /// A full reload is due.
    ReloadNeeded,
}

/// The store of one entity kind under a watched key prefix.
#[derive(Debug)]
pub struct EntityStore<T> {
    prefix: String,
    store: ResourceStore<T>,
}

impl<T> EntityStore<T> {
    /// The watched prefix.
    pub closed spec fn prefix_spec(&self) -> Seq<char> {
        self.prefix@
    }

    /// The underlying store.
    pub closed spec fn inner(&self) -> ResourceStore<T> {
        self.store
    }

    /// The structural invariant.
    pub open spec fn wf(&self) -> bool {
        self.inner().wf()
    }

    /// An empty store under `prefix` with the named secondary indexes.
    pub fn new(prefix: String, index_names: Vec<String>) -> (r: Self)
        requires
            names_distinct(index_names@),
        ensures
            r.wf(),
            r.inner().index_sound(),
            r.prefix_spec() == prefix@,
            r.inner().entries() == Map::<Seq<char>, ResourceEntry<T>>::empty(),
            r.inner().index_count() == index_names@.len(),
            forall|i: int| 0 <= i < index_names@.len() ==> r.inner().index_name(i) == index_names@[i]@,
            forall|i: int| 0 <= i < index_names@.len() ==> r.inner().index(i) == Map::<Seq<char>, Seq<char>>::empty(),
            r.inner().revision_spec() == 0,
    {
        EntityStore { prefix, store: ResourceStore::new(index_names) }
    }

    /// The entry with this id.
    pub fn get(&self, key: &str) -> (r: Option<&ResourceEntry<T>>)
        requires
            self.wf(),
        ensures
            r matches Some(e) ==> self.inner().entries().contains_key(key@) && self.inner().entries()[key@] == *e,
            r is None ==> !self.inner().entries().contains_key(key@),
    {
        self.store.get(key)
    }

    /// The entry that the index named `index` maps `sec_key` to.
    pub fn get_by_secondary(&self, index: &str, sec_key: &str) -> (r: Option<&ResourceEntry<T>>)
        requires
            self.wf(),
        ensures
            r matches Some(e) ==> exists|i: int|
                0 <= i < self.inner().index_count() && self.inner().index_name(i) == index@
                    && #[trigger] self.inner().index(i).contains_key(sec_key@)
                    && self.inner().entries().contains_key(self.inner().index(i)[sec_key@])
                    && self.inner().entries()[self.inner().index(i)[sec_key@]] == *e,
            r is None ==> forall|i: int|
                0 <= i < self.inner().index_count() && self.inner().index_name(i) == index@
                    ==> !(#[trigger] self.inner().index(i).contains_key(sec_key@))
                    || !self.inner().entries().contains_key(self.inner().index(i)[sec_key@]),
    {
        self.store.get_by_secondary(index, sec_key)
    }

    /// The highest revision the store has seen.
    pub fn latest_mod_revision(&self) -> (r: i64)
        ensures
            r == self.inner().revision_spec(),
    {
        self.store.latest_mod_revision()
    }

    /// The number of entries.
    pub fn len(&self) -> (r: usize)
        requires
            self.wf(),
        ensures
            r == self.inner().entries().len(),
    {
        self.store.len()
    }

    /// Replaces the content by the accepted entities of a full read of the
    /// source, under their relative keys, and returns the highest revision
    /// among them (0 for none).
    pub fn apply_full_load(&mut self, kvs: Vec<FetchedEntry<T>>) -> (r: i64)
        requires
            old(self).wf(),
            forall|j: int| 0 <= j < kvs@.len() ==> (#[trigger] kvs@[j]).index_keys@.len() == old(self).inner().index_count(),
        ensures
            final(self).wf(),
            final(self).prefix_spec() == old(self).prefix_spec(),
            final(self).inner().index_count() == old(self).inner().index_count(),
            forall|i: int|
                0 <= i < old(self).inner().index_count() ==> final(self).inner().index_name(i) == old(
                    self,
                ).inner().index_name(i),
            exists|es: Seq<LoadEntry<T>>|
                {
                    &&& #[trigger] load_plan(es, kvs@, old(self).prefix_spec())
                    &&& final(self).inner().entries() == loaded_entries(es)
                    &&& forall|i: int|
                        0 <= i < old(self).inner().index_count() ==> #[trigger] final(self).inner().index(i)
                            == loaded_index(es, i)
                    &&& r == loaded_revision(es)
                    &&& ids_distinct(es) ==> final(self).inner().index_sound()
                },
            final(self).inner().revision_spec() == r,
    {
        let ghost ks = kvs@;
        let mut plan: Vec<LoadEntry<T>> = Vec::new();
        assert(ks.len() == kvs.len());
        let mut rest = kvs;
        let mut n: usize = 0;
        while rest.len() > 0
            invariant
                0 <= n <= ks.len(),
                ks.len() <= usize::MAX,
                rest@ == ks.subrange(n as int, ks.len() as int),
                forall|j: int| 0 <= j < ks.len() ==> (#[trigger] ks[j]).index_keys@.len() == self.store.index_count(),
                forall|j: int| 0 <= j < plan@.len() ==> (#[trigger] plan@[j]).index_keys@.len() == self.store.index_count(),
                load_plan(plan@, ks.take(n as int), self.prefix@),
            decreases rest.len(),
        {
            let kv = rest.remove(0);
            let ghost nn = n as int;
            let ghost before = plan@;
            proof {
                assert(kv == ks[nn]);
                assert(ks.take(nn + 1).drop_last() =~= ks.take(nn));
                assert(ks.take(nn + 1).last() == ks[nn]);
            }
            let FetchedEntry { key, value, index_keys, revision, accepted } = kv;
            if accepted {
                let id = relative_key(key.as_str(), self.prefix.as_str());
                plan.push(LoadEntry { id, value, index_keys, revision });
                proof {
                    assert(plan@.drop_last() =~= before);
                }
            }
            n += 1;
            proof {
                assert(rest@ =~= ks.subrange(nn + 1, ks.len() as int));
            }
        }
        proof {
            assert(ks.take(n as int) =~= ks);
        }
        let ghost es = plan@;
        self.store.replace_from_entries(plan);
        self.store.latest_mod_revision()
    }

    /// Applies one watch event, as the watch loop does for each event it
    /// receives.
    pub fn consume_event(&mut self, event: StoreEvent<T>) -> (r: EventOutcome)
        requires
            old(self).wf(),
            event matches StoreEvent::Put { index_keys, .. } ==> index_keys@.len() == old(self).inner().index_count(),
        ensures
            final(self).wf(),
            final(self).prefix_spec() == old(self).prefix_spec(),
            final(self).inner().index_count() == old(self).inner().index_count(),
            forall|i: int|
                0 <= i < old(self).inner().index_count() ==> final(self).inner().index_name(i) == old(
                    self,
                ).inner().index_name(i),
            old(self).inner().index_sound() ==> final(self).inner().index_sound(),
            match event {
                StoreEvent::Put { key, parsed, index_keys, accepted, revision } => {
                    let rel = relative_key_spec(key@, old(self).prefix_spec());
                    match parsed {
                        Some(v) => if accepted {
                            &&& r == EventOutcome::Stored
                            &&& final(self).inner().entries().dom() == old(self).inner().entries().dom().insert(rel)
                            &&& final(self).inner().entries()[rel].id@ == rel
                            &&& final(self).inner().entries()[rel].value == v
                            &&& final(self).inner().entries()[rel].revision == revision
                            &&& forall|k: Seq<char>|
                                k != rel ==> #[trigger] final(self).inner().entries().get(k) == old(
                                    self,
                                ).inner().entries().get(k)
                            &&& forall|i: int|
                                0 <= i < old(self).inner().index_count() ==> #[trigger] final(self).inner().index(i)
                                    == index_after_upsert(
                                    old(self).inner().index(i),
                                    old(self).inner().prior_key(rel, i),
                                    opt_view(index_keys@[i]),
                                    rel,
                                )
                            &&& final(self).inner().revision_spec() == max_rev(
                                revision,
                                old(self).inner().revision_spec(),
                            )
                        } else {
                            r == EventOutcome::Rejected && final(self).inner() == old(self).inner()
                        },
                        None => r == EventOutcome::Unparsed && final(self).inner() == old(self).inner(),
                    }
                },
                StoreEvent::Delete { key, revision } => {
                    let rel = relative_key_spec(key@, old(self).prefix_spec());
                    &&& (r == EventOutcome::Deleted) == old(self).inner().entries().contains_key(rel)
                    &&& (r == EventOutcome::Missed) == !old(self).inner().entries().contains_key(rel)
                    &&& final(self).inner().entries() == old(self).inner().entries().remove(rel)
                    &&& forall|i: int|
                        0 <= i < old(self).inner().index_count() ==> #[trigger] final(self).inner().index(i)
                            == index_after_delete(old(self).inner().index(i), old(self).inner().prior_key(rel, i))
                    &&& final(self).inner().revision_spec() == max_rev(revision, old(self).inner().revision_spec())
                },
                StoreEvent::Resync => r == EventOutcome::ReloadNeeded && final(self).inner() == old(self).inner(),
            },
    {
        match event {
            StoreEvent::Put { key, parsed, index_keys, accepted, revision } => {
                let rel = relative_key(key.as_str(), self.prefix.as_str());
                match parsed {
                    Some(v) => {
                        if accepted {
                            let ghost relv = rel@;
                            self.store.upsert(rel, v, index_keys, revision);
                            EventOutcome::Stored
                        } else {
                            EventOutcome::Rejected
                        }
                    },
                    None => EventOutcome::Unparsed,
                }
            },
            StoreEvent::Delete { key, revision } => {
                let rel = relative_key(key.as_str(), self.prefix.as_str());
                if self.store.delete(rel.as_str(), revision) {
                    EventOutcome::Deleted
                } else {
                    EventOutcome::Missed
                }
            },
            StoreEvent::Resync => EventOutcome::ReloadNeeded,
        }
    }
}

/// Reading an id right after writing it gives back what was written, and
/// every other id reads as before.
pub proof fn law_read_after_upsert<T>(s: ResourceStore<T>, key: String, value: T, revision: i64)
    ensures
        ({
            let m = s.entries().insert(key@, ResourceEntry { id: key, value, revision });
            &&& m.contains_key(key@)
            &&& m[key@].value == value
            &&& m[key@].revision == revision
            &&& forall|k: Seq<char>| k != key@ ==> #[trigger] m.get(k) == s.entries().get(k)
        }),
{
}

/// After a delete the id is gone, and every other id reads as before.
pub proof fn law_read_after_delete<T>(s: ResourceStore<T>, key: Seq<char>)
    ensures
        !s.entries().remove(key).contains_key(key),
        forall|k: Seq<char>| k != key ==> #[trigger] s.entries().remove(key).get(k) == s.entries().get(k),
{
}

/// A rewrite moves the entry's index key: the new key leads to the entry,
/// and an old key that differs from it no longer leads anywhere.
pub proof fn law_index_follows_upsert(
    m: Map<Seq<char>, Seq<char>>,
    old_key: Seq<char>,
    new_key: Seq<char>,
    id: Seq<char>,
)
    ensures
        index_after_upsert(m, Some(old_key), Some(new_key), id).contains_key(new_key),
        index_after_upsert(m, Some(old_key), Some(new_key), id)[new_key] == id,
        old_key != new_key ==> !index_after_upsert(m, Some(old_key), Some(new_key), id).contains_key(old_key),
{
}

/// A delete clears the entry's index key.
pub proof fn law_index_cleared_by_delete(m: Map<Seq<char>, Seq<char>>, old_key: Seq<char>)
    ensures
        !index_after_delete(m, Some(old_key)).contains_key(old_key),
{
}

/// The revision a store reports never goes down.
pub proof fn law_revision_monotone(current: i64, seen: i64)
    ensures
        max_rev(seen, current) >= current,
        max_rev(seen, current) >= seen,
{
}

/// After a full load with distinct ids, each loaded entity is stored under
/// its id with its value and revision, and each of its index keys leads to
/// a stored entry.
pub proof fn law_full_load_readable<T>(es: Seq<LoadEntry<T>>, j: int, i: int)
    requires
        ids_distinct(es),
        0 <= j < es.len(),
    ensures
        loaded_entries(es).contains_key(es[j].id@),
        loaded_entries(es)[es[j].id@].value == es[j].value,
        loaded_entries(es)[es[j].id@].revision == es[j].revision,
        opt_view(es[j].index_keys@[i]) matches Some(k) ==> loaded_index(es, i).contains_key(k),
    decreases es.len(),
{
    if j < es.len() - 1 {
        let t = es.drop_last();
        assert(t[j] == es[j]);
        assert(ids_distinct(t));
        law_full_load_readable(t, j, i);
        assert(es.last().id@ != es[j].id@) by {
            assert(es[es.len() - 1].id@ != es[j].id@);
        }
    }
}

/// After a write, the key the written entry has in a secondary index leads
/// to it, and a key that it had there before and no longer has leads
/// nowhere.
pub proof fn law_secondary_after_upsert<T>(
    pre: ResourceStore<T>,
    post: ResourceStore<T>,
    key: String,
    value: T,
    index_keys: Seq<Option<String>>,
    revision: i64,
    i: int,
)
    requires
        pre.wf(),
        post.wf(),
        pre.upserted_to(post, key, value, index_keys, revision),
        0 <= i < pre.index_count(),
    ensures
        opt_view(index_keys[i]) matches Some(k) ==> post.secondary_lookup(pre.index_name(i), k) == Some(
            ResourceEntry { id: key, value, revision },
        ),
        pre.prior_key(key@, i) matches Some(k0) ==> (opt_view(index_keys[i]) != Some(k0) ==> post.secondary_lookup(
            pre.index_name(i),
            k0,
        ) is None),
{
    if let Some(k) = opt_view(index_keys[i]) {
        post.lemma_lookup_index(i, k);
    }
    if let Some(k0) = pre.prior_key(key@, i) {
        post.lemma_lookup_index(i, k0);
    }
}

/// After a delete, the key the entry had in a secondary index leads
/// nowhere; where every index entry led to an entry with that key, every
/// other key leads where it led before.
pub proof fn law_secondary_after_delete<T>(
    pre: ResourceStore<T>,
    post: ResourceStore<T>,
    key: Seq<char>,
    mod_revision: i64,
    i: int,
)
    requires
        pre.wf(),
        post.wf(),
        pre.deleted_to(post, key, mod_revision),
        0 <= i < pre.index_count(),
    ensures
        pre.prior_key(key, i) matches Some(k0) ==> post.secondary_lookup(pre.index_name(i), k0) is None,
        pre.index_sound() ==> forall|k: Seq<char>|
            pre.prior_key(key, i) != Some(k) ==> #[trigger] post.secondary_lookup(pre.index_name(i), k)
                == pre.secondary_lookup(pre.index_name(i), k),
{
    if let Some(k0) = pre.prior_key(key, i) {
        post.lemma_lookup_index(i, k0);
    }
    if pre.index_sound() {
        assert forall|k: Seq<char>|
            pre.prior_key(key, i) != Some(k) implies #[trigger] post.secondary_lookup(pre.index_name(i), k)
            == pre.secondary_lookup(pre.index_name(i), k) by {
            post.lemma_lookup_index(i, k);
            pre.lemma_lookup_index(i, k);
            if pre.index(i).contains_key(k) {
                let id = pre.index(i)[k];
                assert(pre.slots().contains_key(id));
                assert(pre.entry_index_key(id, i) == Some(k));
                if id == key {
                    assert(pre.entries().contains_key(key));
                    assert(pre.prior_key(key, i) == Some(k));
                }
            }
        }
    }
}

} // verus!
