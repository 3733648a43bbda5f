//! A JSON document model and the object operations that request and
//! response transforms perform on it.
//!
//! Numbers are held as their JSON text, so that no floating-point value is
//! ever computed on; objects are ordered lists of fields whose keys are kept
//! distinct by every operation here.
use vstd::prelude::*;

use crate::text::{parse_u64, parse_u64_spec, str_eq, to_owned_string};

verus! {

/// The mathematical form of a JSON value: its strings and numbers as
/// character sequences, its arrays and objects as sequences.
pub ghost enum JsonV {
    Null,
    Bool(bool),
    Number(Seq<char>),
    Str(Seq<char>),
    Array(Seq<JsonV>),
    Object(Seq<(Seq<char>, JsonV)>),
}

/// A JSON value.
#[derive(Debug)]
pub enum JsonValue {
    Null,
    Bool(bool),
    /// A number, held as its JSON text (such as `256` or `0.2`).
    Number(String),
    Str(String),
    Array(Vec<JsonValue>),
    /// An object: its fields in order.
    Object(Vec<(String, JsonValue)>),
}

/// The mathematical form of a JSON value.
pub open spec fn json_view(v: JsonValue) -> JsonV
    decreases v,
{
    match v {
        JsonValue::Null => JsonV::Null,
        JsonValue::Bool(b) => JsonV::Bool(b),
        JsonValue::Number(n) => JsonV::Number(n@),
        JsonValue::Str(s) => JsonV::Str(s@),
        JsonValue::Array(items) => JsonV::Array(
            Seq::new(
                items@.len(),
                |i: int|
                    if 0 <= i < items@.len() {
                        proof {
                            broadcast use vstd::std_specs::vec::axiom_vec_index_decreases;

                            assert(decreases_to!(items => items[i]));
                        }
                        json_view(items@[i])
                    } else {
                        JsonV::Null
                    },
            ),
        ),
        JsonValue::Object(fields) => JsonV::Object(
            Seq::new(
                fields@.len(),
                |i: int|
                    if 0 <= i < fields@.len() {
                        proof {
                            broadcast use vstd::std_specs::vec::axiom_vec_index_decreases;

                            assert(decreases_to!(fields => fields[i]));
                        }
                        (fields@[i].0@, json_view(fields@[i].1))
                    } else {
                        (Seq::empty(), JsonV::Null)
                    },
            ),
        ),
    }
}

impl View for JsonValue {
    type V = JsonV;

    open spec fn view(&self) -> JsonV {
        json_view(*self)
    }
}

/// The mathematical form of a list of object fields.
pub open spec fn fields_view(fields: Seq<(String, JsonValue)>) -> Seq<(Seq<char>, JsonV)> {
    Seq::new(fields.len(), |i: int| (fields[i].0@, fields[i].1@))
}

/// The value of the first field named `key`, if any.
pub open spec fn field_lookup(fields: Seq<(Seq<char>, JsonV)>, key: Seq<char>) -> Option<JsonV>
    decreases fields.len(),
{
    if fields.len() == 0 {
        None
    } else if fields[0].0 == key {
        Some(fields[0].1)
    } else {
        field_lookup(fields.drop_first(), key)
    }
}

/// No two fields share a key.
pub open spec fn keys_unique(fields: Seq<(Seq<char>, JsonV)>) -> bool {
    forall|i: int, j: int|
        0 <= i < fields.len() && 0 <= j < fields.len() && i != j ==> fields[i].0 != fields[j].0
}

/// Whether some field is named `key`.
pub open spec fn has_key(fields: Seq<(Seq<char>, JsonV)>, key: Seq<char>) -> bool {
    exists|i: int| 0 <= i < fields.len() && fields[i].0 == key
}

/// The lookup finds the field at the first index with that key.
pub proof fn lemma_lookup_index(fields: Seq<(Seq<char>, JsonV)>, key: Seq<char>, i: int)
    requires
        0 <= i < fields.len(),
        fields[i].0 == key,
        forall|j: int| 0 <= j < i ==> fields[j].0 != key,
    ensures
        field_lookup(fields, key) == Some(fields[i].1),
    decreases i,
{
    if i > 0 {
        lemma_lookup_index(fields.drop_first(), key, i - 1);
    }
}

/// No field with that key means no value for it.
pub proof fn lemma_lookup_absent(fields: Seq<(Seq<char>, JsonV)>, key: Seq<char>)
    requires
        forall|j: int| 0 <= j < fields.len() ==> fields[j].0 != key,
    ensures
        field_lookup(fields, key) is None,
    decreases fields.len(),
{
    if fields.len() > 0 {
        lemma_lookup_absent(fields.drop_first(), key);
    }
}

/// With distinct keys, the lookup finds the unique field of that key.
pub proof fn lemma_lookup_unique(fields: Seq<(Seq<char>, JsonV)>, key: Seq<char>, i: int)
    requires
        keys_unique(fields),
        0 <= i < fields.len(),
        fields[i].0 == key,
    ensures
        field_lookup(fields, key) == Some(fields[i].1),
{
    lemma_lookup_index(fields, key, i);
}

/// The lookup of a key is what one finds at some index of that key, or nothing.
pub proof fn lemma_lookup_cases(fields: Seq<(Seq<char>, JsonV)>, key: Seq<char>)
    ensures
        field_lookup(fields, key) is None <==> !has_key(fields, key),
    decreases fields.len(),
{
    if fields.len() > 0 {
        lemma_lookup_cases(fields.drop_first(), key);
        if fields[0].0 != key {
            if has_key(fields, key) {
                let i = choose|i: int| 0 <= i < fields.len() && fields[i].0 == key;
                assert(fields.drop_first()[i - 1].0 == key);
            }
            if has_key(fields.drop_first(), key) {
                let i = choose|i: int|
                    0 <= i < fields.drop_first().len() && fields.drop_first()[i].0 == key;
                assert(fields[i + 1].0 == key);
            }
        }
    }
}

/// Removing index `i` from a list of fields whose key there is unique.
proof fn lemma_remove_at(before: Seq<(Seq<char>, JsonV)>, i: int, key: Seq<char>)
    requires
        keys_unique(before),
        0 <= i < before.len(),
        before[i].0 == key,
    ensures
        ({
            let after = before.remove(i);
            &&& keys_unique(after)
            &&& field_lookup(after, key) is None
            &&& forall|k: Seq<char>|
                k != key ==> field_lookup(after, k) == field_lookup(before, k)
            &&& forall|k: Seq<char>| has_key(after, k) <==> (has_key(before, k) && k != key)
        }),
{
    let after = before.remove(i);
    assert forall|a: int, b: int|
        0 <= a < after.len() && 0 <= b < after.len() && a != b implies after[a].0
        != after[b].0 by {
        let a2 = if a < i { a } else { a + 1 };
        let b2 = if b < i { b } else { b + 1 };
        assert(after[a] == before[a2]);
        assert(after[b] == before[b2]);
    }
    assert forall|j: int| 0 <= j < after.len() implies after[j].0 != key by {
        let j2 = if j < i { j } else { j + 1 };
        assert(after[j] == before[j2]);
    }
    lemma_lookup_absent(after, key);
    assert forall|k: Seq<char>| k != key implies field_lookup(after, k) == field_lookup(before, k) by {
        lemma_lookup_cases(before, k);
        if has_key(before, k) {
            let j = choose|j: int| 0 <= j < before.len() && before[j].0 == k;
            assert(j != i);
            let j2 = if j < i { j } else { j - 1 };
            assert(after[j2] == before[j]);
            lemma_lookup_unique(before, k, j);
            lemma_lookup_unique(after, k, j2);
        } else {
            assert forall|j: int| 0 <= j < after.len() implies after[j].0 != k by {
                let j2 = if j < i { j } else { j + 1 };
                assert(after[j] == before[j2]);
            }
            lemma_lookup_absent(after, k);
        }
    }
    assert forall|k: Seq<char>| has_key(after, k) <==> (has_key(before, k) && k != key) by {
        if has_key(after, k) {
            let j = choose|j: int| 0 <= j < after.len() && after[j].0 == k;
            let j2 = if j < i { j } else { j + 1 };
            assert(after[j] == before[j2]);
        }
        if has_key(before, k) && k != key {
            let j = choose|j: int| 0 <= j < before.len() && before[j].0 == k;
            let j2 = if j < i { j } else { j - 1 };
            assert(after[j2] == before[j]);
        }
    }
}

/// Writing index `i`, or appending when `i` is the length, with a key that
/// no other field has.
proof fn lemma_write_at(
    before: Seq<(Seq<char>, JsonV)>,
    after: Seq<(Seq<char>, JsonV)>,
    i: int,
    key: Seq<char>,
    value: JsonV,
)
    requires
        keys_unique(before),
        0 <= i <= before.len(),
        i < before.len() ==> before[i].0 == key,
        i == before.len() ==> !has_key(before, key),
        after.len() == if i < before.len() { before.len() } else { before.len() + 1 },
        after[i] == (key, value),
        forall|j: int| 0 <= j < before.len() && j != i ==> after[j] == before[j],
    ensures
        keys_unique(after),
        field_lookup(after, key) == Some(value),
        forall|k: Seq<char>| k != key ==> field_lookup(after, k) == field_lookup(before, k),
        forall|k: Seq<char>| has_key(after, k) <==> (has_key(before, k) || k == key),
{
    assert forall|a: int, b: int|
        0 <= a < after.len() && 0 <= b < after.len() && a != b implies after[a].0
        != after[b].0 by {
        if a != i && b != i {
        } else if a == i {
            if i == before.len() {
                assert(before[b].0 != key);
            }
        } else {
            if i == before.len() {
                assert(before[a].0 != key);
            }
        }
    }
    lemma_lookup_unique(after, key, i);
    assert forall|k: Seq<char>| k != key implies field_lookup(after, k) == field_lookup(before, k) by {
        lemma_lookup_cases(before, k);
        if has_key(before, k) {
            let j = choose|j: int| 0 <= j < before.len() && before[j].0 == k;
            assert(j != i);
            lemma_lookup_unique(before, k, j);
            lemma_lookup_unique(after, k, j);
        } else {
            assert forall|j: int| 0 <= j < after.len() implies after[j].0 != k by {
                if j != i {
                    assert(after[j] == before[j]);
                }
            }
            lemma_lookup_absent(after, k);
        }
    }
    assert forall|k: Seq<char>| has_key(after, k) <==> (has_key(before, k) || k == key) by {
        if has_key(after, k) {
            let j = choose|j: int| 0 <= j < after.len() && after[j].0 == k;
            if j != i {
                assert(after[j] == before[j]);
            }
        }
        if has_key(before, k) {
            let j = choose|j: int| 0 <= j < before.len() && before[j].0 == k;
            if j != i {
                assert(after[j] == before[j]);
            }
        }
        if k == key {
            assert(after[i].0 == k);
        }
    }
}

/// The unsigned integer a JSON value holds, if it is a number written as
/// one that fits in 64 bits.
pub open spec fn json_u64(v: JsonV) -> Option<u64> {
    match v {
        JsonV::Number(t) => parse_u64_spec(t),
        _ => None,
    }
}

/// The fields of an object as a map from key to value.
pub open spec fn obj_map(fields: Seq<(Seq<char>, JsonV)>) -> Map<Seq<char>, JsonV> {
    Map::new(|k: Seq<char>| has_key(fields, k), |k: Seq<char>| field_lookup(fields, k)->0)
}

/// Two field lists with the same keys and lookups have the same map.
proof fn lemma_obj_map_of(fields: Seq<(Seq<char>, JsonV)>, m: Map<Seq<char>, JsonV>)
    requires
        forall|k: Seq<char>| has_key(fields, k) <==> #[trigger] m.contains_key(k),
        forall|k: Seq<char>| #[trigger] m.contains_key(k) ==> field_lookup(fields, k) == Some(m[k]),
    ensures
        obj_map(fields) == m,
{
    assert(obj_map(fields) =~= m);
}

impl JsonValue {
    /// A copy of this value.
    pub fn duplicate(&self) -> (r: JsonValue)
        ensures
            r@ == self@,
        decreases self,
    {
        match self {
            JsonValue::Null => JsonValue::Null,
            JsonValue::Bool(b) => JsonValue::Bool(*b),
            JsonValue::Number(n) => JsonValue::Number(n.clone()),
            JsonValue::Str(s) => JsonValue::Str(s.clone()),
            JsonValue::Array(items) => {
                let out = duplicate_items(items);
                let r = JsonValue::Array(out);
                proof {
                    assert(json_view(r)->Array_0 =~= json_view(*self)->Array_0) by {
                        assert(forall|j: int|
                            0 <= j < out@.len() ==> (#[trigger] json_view(r)->Array_0[j])
                                == out@[j]@);
                        assert(forall|j: int|
                            0 <= j < items@.len() ==> (#[trigger] json_view(*self)->Array_0[j])
                                == items@[j]@);
                    }
                }
                r
            },
            JsonValue::Object(fields) => {
                let out = duplicate_fields(fields);
                let r = JsonValue::Object(out);
                proof {
                    assert(json_view(r)->Object_0 =~= json_view(*self)->Object_0) by {
                        assert(json_view(r)->Object_0 =~= fields_view(out@));
                        assert(json_view(*self)->Object_0 =~= fields_view(fields@));
                    }
                }
                r
            },
        }
    }

    /// Whether this value is an object.
    pub fn is_object(&self) -> (r: bool)
        ensures
            r == (self@ is Object),
    {
        match self {
            JsonValue::Object(_) => true,
            _ => false,
        }
    }

    /// The boolean this value holds, if it is one.
    pub fn as_bool(&self) -> (r: Option<bool>)
        ensures
            r == (match self@ {
                JsonV::Bool(b) => Some(b),
                _ => None,
            }),
    {
        match self {
            JsonValue::Bool(b) => Some(*b),
            _ => None,
        }
    }

    /// The unsigned integer this value holds, if it is a number written as
    /// one that fits in 64 bits.
    pub fn as_u64(&self) -> (r: Option<u64>)
        ensures
            r == json_u64(self@),
    {
        match self {
            JsonValue::Number(n) => parse_u64(n.as_str()),
            _ => None,
        }
    }

    /// The string this value holds, if it is one.
    pub fn as_str(&self) -> (r: Option<&str>)
        ensures
            (r is Some) == (self@ is Str),
            r matches Some(s) ==> s@ == self@->Str_0,
    {
        match self {
            JsonValue::Str(s) => Some(s.as_str()),
            _ => None,
        }
    }

    /// A string value with the characters of `s`.
    pub fn string(s: &str) -> (r: JsonValue)
        ensures
            r@ == JsonV::Str(s@),
    {
        JsonValue::Str(to_owned_string(s))
    }

    /// An object with no fields.
    pub fn empty_object() -> (r: JsonValue)
        ensures
            r@ == JsonV::Object(Seq::empty()),
    {
        let r = JsonValue::Object(Vec::new());
        proof {
            assert(json_view(r)->Object_0 =~= Seq::empty());
        }
        r
    }
}

/// Copies of a list of values.
pub fn duplicate_items(items: &Vec<JsonValue>) -> (r: Vec<JsonValue>)
    ensures
        r.len() == items.len(),
        forall|j: int| 0 <= j < items.len() ==> (#[trigger] r@[j])@ == items@[j]@,
    decreases items,
{
    let mut out: Vec<JsonValue> = Vec::new();
    let mut i: usize = 0;
    while i < items.len()
        invariant
            0 <= i <= items.len(),
            out.len() == i,
            forall|j: int| 0 <= j < i ==> (#[trigger] out@[j])@ == items@[j]@,
        decreases items.len() - i,
    {
        proof {
            broadcast use vstd::std_specs::vec::axiom_vec_index_decreases;

            assert(decreases_to!(items => items[i as int]));
        }
        let item = items[i].duplicate();
        out.push(item);
        i += 1;
    }
    out
}

/// A copy of a list of fields.
pub fn duplicate_fields(fields: &Vec<(String, JsonValue)>) -> (r: Vec<(String, JsonValue)>)
    ensures
        fields_view(r@) == fields_view(fields@),
    decreases fields,
{
    let mut out: Vec<(String, JsonValue)> = Vec::new();
    let mut i: usize = 0;
    while i < fields.len()
        invariant
            0 <= i <= fields.len(),
            out.len() == i,
            forall|j: int| 0 <= j < i ==> (#[trigger] out@[j]).0@ == fields@[j].0@ && out@[j].1@ == fields@[j].1@,
        decreases fields.len() - i,
    {
        proof {
            broadcast use vstd::std_specs::vec::axiom_vec_index_decreases;

            assert(decreases_to!(fields => fields[i as int]));
        }
        let value = fields[i].1.duplicate();
        out.push((fields[i].0.clone(), value));
        i += 1;
    }
    proof {
        assert(fields_view(out@) =~= fields_view(fields@));
    }
    out
}

/// The index of the first field named `key`.
pub fn obj_find(fields: &Vec<(String, JsonValue)>, key: &str) -> (r: Option<usize>)
    ensures
        r matches Some(i) ==> i < fields.len() && fields@[i as int].0@ == key@,
        r is None <==> field_lookup(fields_view(fields@), key@) is None,
        r is None <==> !has_key(fields_view(fields@), key@),
        r matches Some(i) ==> field_lookup(fields_view(fields@), key@) == Some(fields@[i as int].1@),
{
    let ghost fv = fields_view(fields@);
    let mut i: usize = 0;
    while i < fields.len()
        invariant
            0 <= i <= fields.len(),
            fv == fields_view(fields@),
            forall|j: int| 0 <= j < i ==> fv[j].0 != key@,
        decreases fields.len() - i,
    {
        if str_eq(fields[i].0.as_str(), key) {
            proof {
                lemma_lookup_index(fv, key@, i as int);
                lemma_lookup_cases(fv, key@);
            }
            return Some(i);
        }
        i += 1;
    }
    proof {
        lemma_lookup_absent(fv, key@);
        lemma_lookup_cases(fv, key@);
    }
    None
}

/// The value of the field named `key`.
pub fn obj_get<'a>(fields: &'a Vec<(String, JsonValue)>, key: &str) -> (r: Option<&'a JsonValue>)
    ensures
        r matches Some(v) ==> field_lookup(fields_view(fields@), key@) == Some(v@),
        r is None ==> field_lookup(fields_view(fields@), key@) is None,
{
    match obj_find(fields, key) {
        Some(i) => Some(&fields[i].1),
        None => None,
    }
}

/// Whether a field named `key` exists.
pub fn obj_contains(fields: &Vec<(String, JsonValue)>, key: &str) -> (r: bool)
    ensures
        r == (field_lookup(fields_view(fields@), key@) is Some),
        r == has_key(fields_view(fields@), key@),
{
    obj_find(fields, key).is_some()
}

/// Removes the field named `key`, returning its value.
pub fn obj_remove(fields: &mut Vec<(String, JsonValue)>, key: &str) -> (r: Option<JsonValue>)
    requires
        keys_unique(fields_view(old(fields)@)),
    ensures
        r is Some <==> field_lookup(fields_view(old(fields)@), key@) is Some,
        r matches Some(v) ==> field_lookup(fields_view(old(fields)@), key@) == Some(v@),
        keys_unique(fields_view(final(fields)@)),
        field_lookup(fields_view(final(fields)@), key@) is None,
        forall|k: Seq<char>|
            k != key@ ==> field_lookup(fields_view(final(fields)@), k) == field_lookup(
                fields_view(old(fields)@),
                k,
            ),
        forall|k: Seq<char>|
            has_key(fields_view(final(fields)@), k) <==> (has_key(fields_view(old(fields)@), k)
                && k != key@),
        obj_map(fields_view(final(fields)@)) == obj_map(fields_view(old(fields)@)).remove(key@),
{
    let ghost before = fields@;
    match obj_find(fields, key) {
        Some(i) => {
            let (_, v) = fields.remove(i);
            proof {
                lemma_remove_at(fields_view(before), i as int, key@);
                assert(fields_view(fields@) =~= fields_view(before).remove(i as int));
            }
            proof {
                let m = obj_map(fields_view(before)).remove(key@);
                assert forall|k: Seq<char>| #[trigger] m.contains_key(k) implies field_lookup(
                    fields_view(fields@),
                    k,
                ) == Some(m[k]) by {
                    lemma_lookup_cases(fields_view(before), k);
                }
                lemma_obj_map_of(fields_view(fields@), m);
            }
            Some(v)
        },
        None => {
            proof {
                assert(obj_map(fields_view(before)).remove(key@) =~= obj_map(fields_view(before)));
            }
            None
        },
    }
}

/// Sets the field `key` to `value`: replaces it where present, appends it
/// otherwise.
pub fn obj_insert(fields: &mut Vec<(String, JsonValue)>, key: String, value: JsonValue)
    requires
        keys_unique(fields_view(old(fields)@)),
    ensures
        keys_unique(fields_view(final(fields)@)),
        field_lookup(fields_view(final(fields)@), key@) == Some(value@),
        forall|k: Seq<char>|
            k != key@ ==> field_lookup(fields_view(final(fields)@), k) == field_lookup(
                fields_view(old(fields)@),
                k,
            ),
        forall|k: Seq<char>|
            has_key(fields_view(final(fields)@), k) <==> (has_key(fields_view(old(fields)@), k)
                || k == key@),
        obj_map(fields_view(final(fields)@)) == obj_map(fields_view(old(fields)@)).insert(
            key@,
            value@,
        ),
{
    let ghost before = fields_view(fields@);
    let ghost kv = key@;
    let ghost vv = value@;
    match obj_find(fields, key.as_str()) {
        Some(i) => {
            fields.set(i, (key, value));
            proof {
                lemma_write_at(before, fields_view(fields@), i as int, kv, vv);
            }
        },
        None => {
            let n = fields.len();
            fields.push((key, value));
            proof {
                lemma_write_at(before, fields_view(fields@), n as int, kv, vv);
            }
        },
    }
    proof {
        let m = obj_map(before).insert(kv, vv);
        assert forall|k: Seq<char>| #[trigger] m.contains_key(k) implies field_lookup(
            fields_view(fields@),
            k,
        ) == Some(m[k]) by {
            lemma_lookup_cases(before, k);
        }
        lemma_obj_map_of(fields_view(fields@), m);
    }
}

/// The value that a JSON text denotes, or, where the text is not JSON, the
/// message of the error, as `serde_json` parses it.
pub uninterp spec fn json_parse(text: Seq<char>) -> Result<JsonV, Seq<char>>;

/// A parse result: the value's view, or the error's text.
pub open spec fn parse_result_view(r: Result<JsonValue, String>) -> Result<JsonV, Seq<char>> {
    match r {
        Ok(x) => Ok(x@),
        Err(m) => Err(m@),
    }
}

/// The compact JSON text of a value, as `serde_json` writes it once the
/// value is in `serde_json`'s form; a number whose text `serde_json` does
/// not read as a number takes that form as `null`.
pub uninterp spec fn json_text(v: JsonV) -> Seq<char>;

#[verifier::external_type_specification]
#[verifier::external_body]
pub struct ExSerdeValue(serde_json::Value);

/// The library's form of a `serde_json` value: numbers keep their text,
/// objects their fields in the order `serde_json` holds them.
#[verifier::external_body]
fn json_from_serde(v: &serde_json::Value) -> JsonValue {
    match v {
        serde_json::Value::Null => JsonValue::Null,
        serde_json::Value::Bool(b) => JsonValue::Bool(*b),
        serde_json::Value::Number(n) => JsonValue::Number(n.to_string()),
        serde_json::Value::String(s) => JsonValue::Str(s.clone()),
        serde_json::Value::Array(items) => JsonValue::Array(items.iter().map(json_from_serde).collect()),
        serde_json::Value::Object(m) => JsonValue::Object(
            m.iter().map(|(k, x)| (k.clone(), json_from_serde(x))).collect(),
        ),
    }
}

/// The `serde_json` form of a library value; a number whose text
/// `serde_json::Number` does not parse becomes `null`.
#[verifier::external_body]
fn json_to_serde(v: &JsonValue) -> serde_json::Value {
    match v {
        JsonValue::Null => serde_json::Value::Null,
        JsonValue::Bool(b) => serde_json::Value::Bool(*b),
        JsonValue::Number(n) => n.parse().map(serde_json::Value::Number).unwrap_or(serde_json::Value::Null),
        JsonValue::Str(s) => serde_json::Value::String(s.clone()),
        JsonValue::Array(items) => serde_json::Value::Array(items.iter().map(json_to_serde).collect()),
        JsonValue::Object(fs) => serde_json::Value::Object(
            fs.iter().map(|(k, x)| (k.clone(), json_to_serde(x))).collect(),
        ),
    }
}

/// Parses JSON text with `serde_json::from_str`; the error carries
/// `serde_json`'s message.
///
/// Trusted: what `serde_json::from_str::<serde_json::Value>` gives, the
/// value or the text of its error, is `json_parse` of the text.
#[verifier::external_body]
pub(crate) fn parse_json(text: &str) -> (r: Result<JsonValue, String>)
    ensures
        parse_result_view(r) == json_parse(text@),
{
    match serde_json::from_str::<serde_json::Value>(text) {
        Ok(v) => Ok(json_from_serde(&v)),
        Err(e) => Err(e.to_string()),
    }
}

/// Writes a value as compact JSON text with `serde_json::to_string`.
///
/// Trusted: the text is `json_text` of the value (so a number whose text is
/// not a number is written as `null`); writing a JSON value with string
/// keys does not fail.
#[verifier::external_body]
pub(crate) fn to_json_text(v: &JsonValue) -> (r: String)
    ensures
        r@ == json_text(v@),
{
    serde_json::to_string(&json_to_serde(v)).unwrap_or_default()
}

/// The value that JSON bytes denote, or, where they are not JSON, the
/// message of the error, as `serde_json` parses them.
pub uninterp spec fn json_parse_bytes(bytes: Seq<u8>) -> Result<JsonV, Seq<char>>;

/// Parses JSON bytes with `serde_json::from_slice`; the error carries
/// `serde_json`'s message.
///
/// Trusted: what `serde_json::from_slice::<serde_json::Value>` gives, the
/// value or the text of its error, is `json_parse_bytes` of the bytes.
#[verifier::external_body]
pub(crate) fn parse_json_slice(bytes: &[u8]) -> (r: Result<JsonValue, String>)
    ensures
        parse_result_view(r) == json_parse_bytes(bytes@),
{
    match serde_json::from_slice::<serde_json::Value>(bytes) {
        Ok(v) => Ok(json_from_serde(&v)),
        Err(e) => Err(e.to_string()),
    }
}

} // verus!
