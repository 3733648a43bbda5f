//! Association lists keyed by strings: vectors of `(key, value)` pairs whose
//! keys are kept distinct, read as finite maps.
use vstd::prelude::*;

use crate::text::str_eq;

verus! {

/// The map that a list of pairs stands for; a later pair wins over an
/// earlier one with the same key.
pub open spec fn assoc_map<V>(s: Seq<(String, V)>) -> Map<Seq<char>, V>
    decreases s.len(),
{
    if s.len() == 0 {
        Map::empty()
    } else {
        assoc_map(s.drop_last()).insert(s.last().0@, s.last().1)
    }
}

/// No two pairs share a key.
pub open spec fn assoc_distinct<V>(s: Seq<(String, V)>) -> bool {
    forall|i: int, j: int| 0 <= i < s.len() && 0 <= j < s.len() && i != j ==> s[i].0@ != s[j].0@
}

/// A key of the map is the key of some pair, and each pair's key is in the map.
pub proof fn lemma_assoc_dom<V>(s: Seq<(String, V)>)
    ensures
        forall|k: Seq<char>|
            assoc_map(s).contains_key(k) <==> exists|i: int| 0 <= i < s.len() && s[i].0@ == k,
    decreases s.len(),
{
    if s.len() > 0 {
        lemma_assoc_dom(s.drop_last());
        let t = s.drop_last();
        assert forall|k: Seq<char>|
            assoc_map(s).contains_key(k) <==> exists|i: int| 0 <= i < s.len() && s[i].0@ == k by {
            if assoc_map(s).contains_key(k) && k != s.last().0@ {
                assert(assoc_map(t).contains_key(k));
                assert(exists|i: int| 0 <= i < t.len() && t[i].0@ == k);
                let i = choose|i: int| 0 <= i < t.len() && t[i].0@ == k;
                assert(s[i] == t[i]);
            }
            if assoc_map(s).contains_key(k) && k == s.last().0@ {
                assert(s[s.len() - 1].0@ == k);
            }
            if exists|i: int| 0 <= i < s.len() && s[i].0@ == k {
                let i = choose|i: int| 0 <= i < s.len() && s[i].0@ == k;
                if i < s.len() - 1 {
                    assert(t[i] == s[i]);
                    assert(assoc_map(t).contains_key(k));
                }
            }
        }
    }
}

/// With distinct keys, each pair's value is what the map holds for its key.
pub proof fn lemma_assoc_index<V>(s: Seq<(String, V)>, i: int)
    requires
        assoc_distinct(s),
        0 <= i < s.len(),
    ensures
        assoc_map(s).contains_key(s[i].0@),
        assoc_map(s)[s[i].0@] == s[i].1,
    decreases s.len(),
{
    if i < s.len() - 1 {
        assert(assoc_distinct(s.drop_last()));
        lemma_assoc_index(s.drop_last(), i);
        assert(s.drop_last()[i] == s[i]);
    }
}

/// With distinct keys, the map has exactly as many keys as there are pairs.
pub proof fn lemma_assoc_len<V>(s: Seq<(String, V)>)
    requires
        assoc_distinct(s),
    ensures
        assoc_map(s).len() == s.len(),
        assoc_map(s).dom().finite(),
    decreases s.len(),
{
    if s.len() > 0 {
        assert(assoc_distinct(s.drop_last()));
        lemma_assoc_len(s.drop_last());
        lemma_assoc_dom(s.drop_last());
        assert(!assoc_map(s.drop_last()).contains_key(s.last().0@)) by {
            if assoc_map(s.drop_last()).contains_key(s.last().0@) {
                let i = choose|i: int|
                    0 <= i < s.drop_last().len() && s.drop_last()[i].0@ == s.last().0@;
                assert(s[i].0@ == s[s.len() - 1].0@);
            }
        }
    }
}

/// The map of a list after removing a pair at `i`, with distinct keys.
pub proof fn lemma_assoc_remove<V>(s: Seq<(String, V)>, i: int)
    requires
        assoc_distinct(s),
        0 <= i < s.len(),
    ensures
        assoc_distinct(s.remove(i)),
        assoc_map(s.remove(i)) == assoc_map(s).remove(s[i].0@),
{
    let t = s.remove(i);
    assert forall|a: int, b: int| 0 <= a < t.len() && 0 <= b < t.len() && a != b implies t[a].0@
        != t[b].0@ by {
        let a2 = if a < i { a } else { a + 1 };
        let b2 = if b < i { b } else { b + 1 };
        assert(t[a] == s[a2] && t[b] == s[b2]);
    }
    lemma_assoc_dom(s);
    lemma_assoc_dom(t);
    assert forall|k: Seq<char>| #[trigger] assoc_map(t).contains_key(k) implies assoc_map(s).remove(
        s[i].0@,
    ).contains_key(k) && assoc_map(t)[k] == assoc_map(s)[k] by {
        let j = choose|j: int| 0 <= j < t.len() && t[j].0@ == k;
        let j2 = if j < i { j } else { j + 1 };
        assert(t[j] == s[j2]);
        lemma_assoc_index(s, j2);
        lemma_assoc_index(t, j);
    }
    assert forall|k: Seq<char>| #[trigger] assoc_map(s).remove(s[i].0@).contains_key(k) implies assoc_map(
        t,
    ).contains_key(k) by {
        let j = choose|j: int| 0 <= j < s.len() && s[j].0@ == k;
        assert(j != i);
        let j2 = if j < i { j } else { j - 1 };
        assert(t[j2] == s[j]);
    }
    assert(assoc_map(t) =~= assoc_map(s).remove(s[i].0@));
}

/// The map of a list after replacing the pair at `i` by one with the same key.
pub proof fn lemma_assoc_update<V>(s: Seq<(String, V)>, i: int, p: (String, V))
    requires
        assoc_distinct(s),
        0 <= i < s.len(),
        p.0@ == s[i].0@,
    ensures
        assoc_distinct(s.update(i, p)),
        assoc_map(s.update(i, p)) == assoc_map(s).insert(p.0@, p.1),
{
    let t = s.update(i, p);
    assert forall|a: int, b: int| 0 <= a < t.len() && 0 <= b < t.len() && a != b implies t[a].0@
        != t[b].0@ by {
        assert(t[a].0@ == s[a].0@ && t[b].0@ == s[b].0@);
    }
    lemma_assoc_dom(s);
    lemma_assoc_dom(t);
    assert forall|k: Seq<char>| #[trigger] assoc_map(t).contains_key(k) implies assoc_map(s).insert(
        p.0@,
        p.1,
    ).contains_key(k) && assoc_map(t)[k] == assoc_map(s).insert(p.0@, p.1)[k] by {
        let j = choose|j: int| 0 <= j < t.len() && t[j].0@ == k;
        lemma_assoc_index(t, j);
        if j != i {
            lemma_assoc_index(s, j);
        }
    }
    assert forall|k: Seq<char>| #[trigger] assoc_map(s).insert(p.0@, p.1).contains_key(k) implies assoc_map(
        t,
    ).contains_key(k) by {
        if k != p.0@ {
            let j = choose|j: int| 0 <= j < s.len() && s[j].0@ == k;
            assert(t[j].0@ == k);
        } else {
            assert(t[i].0@ == k);
        }
    }
    assert(assoc_map(t) =~= assoc_map(s).insert(p.0@, p.1));
}

/// Appending a pair with a new key keeps the keys distinct.
pub proof fn lemma_assoc_push<V>(s: Seq<(String, V)>, p: (String, V))
    requires
        assoc_distinct(s),
        !assoc_map(s).contains_key(p.0@),
    ensures
        assoc_distinct(s.push(p)),
        assoc_map(s.push(p)) == assoc_map(s).insert(p.0@, p.1),
{
    lemma_assoc_dom(s);
    let t = s.push(p);
    assert(t.drop_last() =~= s);
    assert forall|a: int, b: int| 0 <= a < t.len() && 0 <= b < t.len() && a != b implies t[a].0@
        != t[b].0@ by {
        if a == s.len() {
            assert(t[b] == s[b]);
        } else if b == s.len() {
            assert(t[a] == s[a]);
        }
    }
}

/// The index of the pair with key `key`.
pub fn assoc_find<V>(s: &Vec<(String, V)>, key: &str) -> (r: Option<usize>)
    ensures
        r matches Some(i) ==> i < s.len() && s@[i as int].0@ == key@,
        r is None ==> forall|j: int| 0 <= j < s.len() ==> s@[j].0@ != key@,
        r is None ==> !assoc_map(s@).contains_key(key@),
        r matches Some(i) ==> assoc_distinct(s@) ==> assoc_map(s@).contains_key(key@)
            && assoc_map(s@)[key@] == s@[i as int].1,
{
    let mut i: usize = 0;
    while i < s.len()
        invariant
            0 <= i <= s.len(),
            forall|j: int| 0 <= j < i ==> s@[j].0@ != key@,
        decreases s.len() - i,
    {
        if str_eq(s[i].0.as_str(), key) {
            proof {
                if assoc_distinct(s@) {
                    lemma_assoc_index(s@, i as int);
                }
            }
            return Some(i);
        }
        i += 1;
    }
    proof {
        lemma_assoc_dom(s@);
    }
    None
}

/// The value under `key`.
pub fn assoc_get<'a, V>(s: &'a Vec<(String, V)>, key: &str) -> (r: Option<&'a V>)
    requires
        assoc_distinct(s@),
    ensures
        r matches Some(v) ==> assoc_map(s@).contains_key(key@) && assoc_map(s@)[key@] == *v,
        r is None ==> !assoc_map(s@).contains_key(key@),
{
    match assoc_find(s, key) {
        Some(i) => Some(&s[i].1),
        None => None,
    }
}

/// Sets `key` to `value`.
pub fn assoc_set<V>(s: &mut Vec<(String, V)>, key: String, value: V)
    requires
        assoc_distinct(old(s)@),
    ensures
        assoc_distinct(final(s)@),
        assoc_map(final(s)@) == assoc_map(old(s)@).insert(key@, value),
{
    let ghost kv = key@;
    let ghost vv = value;
    match assoc_find(s, key.as_str()) {
        Some(i) => {
            let ghost before = s@;
            s.set(i, (key, value));
            proof {
                lemma_assoc_update(before, i as int, s@[i as int]);
                assert(s@ == before.update(i as int, s@[i as int]));
            }
        },
        None => {
            let ghost before = s@;
            s.push((key, value));
            proof {
                lemma_assoc_push(before, s@.last());
                assert(s@ == before.push(s@.last()));
            }
        },
    }
}

/// Removes `key`, returning the value it had.
pub fn assoc_remove<V>(s: &mut Vec<(String, V)>, key: &str) -> (r: Option<V>)
    requires
        assoc_distinct(old(s)@),
    ensures
        assoc_distinct(final(s)@),
        assoc_map(final(s)@) == assoc_map(old(s)@).remove(key@),
        r is Some <==> assoc_map(old(s)@).contains_key(key@),
        r matches Some(v) ==> assoc_map(old(s)@)[key@] == v,
{
    match assoc_find(s, key) {
        Some(i) => {
            let ghost before = s@;
            let (_, v) = s.remove(i);
            proof {
                lemma_assoc_remove(before, i as int);
                assert(s@ == before.remove(i as int));
            }
            Some(v)
        },
        None => {
            proof {
                assert(assoc_map(s@).remove(key@) =~= assoc_map(s@));
            }
            None
        },
    }
}

} // verus!
