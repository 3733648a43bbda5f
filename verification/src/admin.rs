//! The decisions of the admin API: who may use it, where an entity is
//! stored, and what a write or a deletion answers.
use vstd::prelude::*;

use crate::config::AdminKey;
use crate::json::{json_parse_bytes, parse_json_slice, JsonValue};
use crate::text::{chars_of, concat, decimal, str_eq, string_of_range, to_owned_string};

verus! {

/// Why a request to the admin API is refused.
#[derive(Clone, Copy, Debug, PartialEq, Eq, Structural)]
pub enum AuthError {
    /// The request presents no key, or no admin key is configured.
    MissingKey,
    /// The key presented is not an admin key.
    InvalidKey,
}

/// A character lowered if it is an ASCII capital.
pub open spec fn ascii_lower(c: char) -> char {
    if 'A' <= c <= 'Z' {
        ((c as u32) + 32) as char
    } else {
        c
    }
}

/// Whether every character is ASCII.
pub open spec fn all_ascii(s: Seq<char>) -> bool {
    forall|i: int| 0 <= i < s.len() ==> (#[trigger] s[i] as u32) < 128
}

/// Whether `s` is `bearer ` in any case.
pub open spec fn is_bearer_prefix(s: Seq<char>) -> bool {
    s.len() == 7 && forall|i: int| 0 <= i < 7 ==> ascii_lower(#[trigger] s[i]) == "bearer "@[i]
}

/// The key a request presents: the `authorization` header without a
/// `Bearer ` prefix in any case, else the `x-api-key` header.
pub open spec fn presented_key(authorization: Option<Seq<char>>, x_api_key: Option<Seq<char>>) -> Option<Seq<char>> {
    match authorization {
        Some(h) => if h.len() >= 7 && is_bearer_prefix(h.take(7)) {
            Some(h.skip(7))
        } else {
            Some(h)
        },
        None => x_api_key,
    }
}

/// The admin keys as texts.
pub open spec fn admin_keys_view(keys: Seq<AdminKey>) -> Seq<Seq<char>> {
    keys.map_values(|k: AdminKey| k.key@)
}

/// The verdict on an admin request: no key presented, or none configured,
/// is a missing key; a key that is not an admin key is invalid.
pub open spec fn auth_verdict(presented: Option<Seq<char>>, keys: Seq<Seq<char>>) -> Result<(), AuthError> {
    match presented {
        None => Err(AuthError::MissingKey),
        Some(k) => if keys.len() == 0 {
            Err(AuthError::MissingKey)
        } else if keys.contains(k) {
            Ok(())
        } else {
            Err(AuthError::InvalidKey)
        },
    }
}

fn same_lowered(c: char, p: char) -> (r: bool)
    requires
        !('A' <= p <= 'Z'),
    ensures
        r == (ascii_lower(c) == p),
{
    if 'A' <= c && c <= 'Z' {
        let r = (c as u32) + 32 == (p as u32);
        proof {
            let l = ((c as u32) + 32) as char;
            assert(l as u32 == (c as u32) + 32);
            assert(r == (l as u32 == p as u32));
        }
        r
    } else {
        c == p
    }
}

/// The key an admin request presents, from its `authorization` and
/// `x-api-key` headers as text.
pub fn presented_admin_key(authorization: Option<&str>, x_api_key: Option<&str>) -> (r: Option<String>)
    requires
        authorization matches Some(h) ==> all_ascii(h@),
    ensures
        match r {
            Some(k) => presented_key(
                match authorization {
                    Some(h) => Some(h@),
                    None => None,
                },
                match x_api_key {
                    Some(x) => Some(x@),
                    None => None,
                },
            ) == Some(k@),
            None => presented_key(
                match authorization {
                    Some(h) => Some(h@),
                    None => None,
                },
                match x_api_key {
                    Some(x) => Some(x@),
                    None => None,
                },
            ) is None,
        },
{
    match authorization {
        Some(h) => {
            let cs = chars_of(h);
            if cs.len() >= 7 {
                let prefix: Vec<char> = vec!['b', 'e', 'a', 'r', 'e', 'r', ' '];
                proof {
                    reveal_strlit("bearer ");
                    assert(prefix@ =~= "bearer "@);
                }
                let mut i: usize = 0;
                let mut same = true;
                while i < 7
                    invariant
                        0 <= i <= 7,
                        cs@ == h@,
                        cs@.len() >= 7,
                        prefix@ == "bearer "@,
                        prefix@ == seq!['b', 'e', 'a', 'r', 'e', 'r', ' '],
                        same == forall|j: int| 0 <= j < i ==> ascii_lower(#[trigger] cs@[j]) == prefix@[j],
                    decreases 7 - i,
                {
                    if !same_lowered(cs[i], prefix[i]) {
                        same = false;
                    }
                    i += 1;
                }
                proof {
                    assert(forall|j: int| 0 <= j < 7 ==> cs@.take(7)[j] == cs@[j]);
                }
                if same {
                    let rest = string_of_range(&cs, 7, cs.len());
                    proof {
                        assert(is_bearer_prefix(h@.take(7)));
                        assert(rest@ =~= h@.skip(7));
                    }
                    return Some(rest);
                }
                proof {
                    if is_bearer_prefix(h@.take(7)) {
                        assert(false);
                    }
                }
            }
            Some(to_owned_string(h))
        },
        None => match x_api_key {
            Some(x) => Some(to_owned_string(x)),
            None => None,
        },
    }
}

/// Decides whether a request may use the admin API, from its
/// `authorization` and `x-api-key` headers as text and the configured
/// admin keys.
pub fn authorize_admin(authorization: Option<&str>, x_api_key: Option<&str>, admin_keys: &Vec<AdminKey>) -> (r: Result<
    (),
    AuthError,
>)
    requires
        authorization matches Some(h) ==> all_ascii(h@),
    ensures
        r == auth_verdict(
            presented_key(
                match authorization {
                    Some(h) => Some(h@),
                    None => None,
                },
                match x_api_key {
                    Some(x) => Some(x@),
                    None => None,
                },
            ),
            admin_keys_view(admin_keys@),
        ),
{
    let ghost keys = admin_keys_view(admin_keys@);
    let key = match presented_admin_key(authorization, x_api_key) {
        Some(k) => k,
        None => {
            return Err(AuthError::MissingKey);
        },
    };
    if admin_keys.len() == 0 {
        return Err(AuthError::MissingKey);
    }
    let ghost pk = presented_key(
        match authorization {
            Some(h) => Some(h@),
            None => None,
        },
        match x_api_key {
            Some(x) => Some(x@),
            None => None,
        },
    );
    assert(pk == Some(key@));
    let mut i: usize = 0;
    while i < admin_keys.len()
        invariant
            0 <= i <= admin_keys@.len(),
            keys == admin_keys_view(admin_keys@),
            keys.len() > 0,
            pk == Some(key@),
            pk == presented_key(
                match authorization {
                    Some(h) => Some(h@),
                    None => None,
                },
                match x_api_key {
                    Some(x) => Some(x@),
                    None => None,
                },
            ),
            forall|j: int| 0 <= j < i ==> keys[j] != key@,
        decreases admin_keys.len() - i,
    {
        assert(keys[i as int] == admin_keys@[i as int].key@);
        if str_eq(admin_keys[i].key.as_str(), key.as_str()) {
            proof {
                assert(keys[i as int] == key@);
                assert(keys.contains(key@));
            }
            return Ok(());
        }
        i += 1;
    }
    Err(AuthError::InvalidKey)
}

/// Where an entity of a collection is stored: `/<collection>/<id>`.
pub fn entity_key(collection: &str, id: &str) -> (r: String)
    ensures
        r@ == "/"@ + collection@ + "/"@ + id@,
{
    let a = concat("/", collection);
    let b = concat(a.as_str(), "/");
    concat(b.as_str(), id)
}

/// The status of a successful write: created or updated.
pub fn put_status(created: bool) -> (r: u16)
    ensures
        r == if created {
            201u16
        } else {
            200u16
        },
{
    if created {
        201
    } else {
        200
    }
}

/// Why an admin request about an entity fails.
#[derive(Debug)]
pub enum AdminError {
    NotFound(String),
    BadRequest(String),
}

/// The refusal of a request body that is not JSON, with the parser's words.
pub open spec fn invalid_json_message(parse_error: Seq<char>) -> Seq<char> {
    "Invalid JSON: "@ + parse_error
}

/// The JSON of a request body to the admin API, or the bad request for a
/// body that is not JSON.
pub fn parse_admin_body(body: &[u8]) -> (r: Result<JsonValue, AdminError>)
    ensures
        match json_parse_bytes(body@) {
            Ok(v) => r matches Ok(x) && x@ == v,
            Err(m) => r matches Err(AdminError::BadRequest(x)) && x@ == invalid_json_message(m),
        },
{
    match parse_json_slice(body) {
        Ok(v) => Ok(v),
        Err(m) => Err(AdminError::BadRequest(concat("Invalid JSON: ", m.as_str()))),
    }
}

/// The refusal for an entity that is not there.
pub open spec fn not_found_message(label: Seq<char>, id: Seq<char>) -> Seq<char> {
    label + " with ID "@ + id + " not found"@
}

/// The answer to a deletion: the count and the key where something was
/// deleted, else not found.
pub fn delete_outcome(label: &str, id: &str, key: String, deleted: i64) -> (r: Result<(i64, String), AdminError>)
    ensures
        deleted > 0 ==> (r matches Ok((n, k)) && n == deleted && k@ == key@),
        deleted <= 0 ==> (r matches Err(AdminError::NotFound(m)) && m@ == not_found_message(label@, id@)),
{
    if deleted > 0 {
        Ok((deleted, key))
    } else {
        Err(AdminError::NotFound(not_found(label, id)))
    }
}

/// The refusal for an entity that is not there.
pub fn not_found(label: &str, id: &str) -> (r: String)
    ensures
        r@ == not_found_message(label@, id@),
{
    let a = concat(label, " with ID ");
    let b = concat(a.as_str(), id);
    concat(b.as_str(), " not found")
}

/// Whether another stored API key entity, at a path other than
/// `own_path`, already holds the key `new_key`; entries are (path, key).
pub fn api_key_taken(existing: &Vec<(String, String)>, new_key: &str, own_path: &str) -> (r: bool)
    ensures
        r == exists|i: int|
            0 <= i < existing@.len() && (#[trigger] existing@[i]).1@ == new_key@ && existing@[i].0@ != own_path@,
{
    let mut i: usize = 0;
    while i < existing.len()
        invariant
            0 <= i <= existing@.len(),
            forall|j: int|
                0 <= j < i ==> !((#[trigger] existing@[j]).1@ == new_key@ && existing@[j].0@ != own_path@),
        decreases existing.len() - i,
    {
        if str_eq(existing[i].1.as_str(), new_key) && !str_eq(existing[i].0.as_str(), own_path) {
            return true;
        }
        i += 1;
    }
    false
}

/// The refusal of an API key that another entity already holds.
pub open spec fn api_key_exists_message() -> Seq<char> {
    "API key already exists"@
}

/// The verdict on writing an API key entity: a body that could not be read
/// is refused with its own error; then a key that another entity holds,
/// whether the index (`taken_fast`) or the full listing (`taken_slow`)
/// shows it, is refused as already existing; otherwise the write goes on.
pub fn api_key_write_verdict(parsed: Result<JsonValue, AdminError>, taken_fast: bool, taken_slow: bool) -> (r: Result<
    (),
    AdminError,
>)
    ensures
        parsed matches Err(e) ==> r == Err::<(), AdminError>(e),
        parsed is Ok ==> ((r matches Err(AdminError::BadRequest(m)) && m@ == api_key_exists_message()) <==> (taken_fast
            || taken_slow)),
        parsed is Ok ==> (r is Ok <==> !(taken_fast || taken_slow)),
{
    match parsed {
        Err(e) => Err(e),
        Ok(_) => {
            if taken_fast || taken_slow {
                Err(AdminError::BadRequest(to_owned_string("API key already exists")))
            } else {
                Ok(())
            }
        },
    }
}

/// Whether an entity is still referenced: some reference among `refs`
/// names `id`.
pub fn is_referenced(refs: &Vec<String>, id: &str) -> (r: bool)
    ensures
        r == exists|i: int| 0 <= i < refs@.len() && (#[trigger] refs@[i])@ == id@,
{
    let mut i: usize = 0;
    while i < refs.len()
        invariant
            0 <= i <= refs@.len(),
            forall|j: int| 0 <= j < i ==> (#[trigger] refs@[j])@ != id@,
        decreases refs.len() - i,
    {
        if str_eq(refs[i].as_str(), id) {
            return true;
        }
        i += 1;
    }
    false
}

} // verus!
