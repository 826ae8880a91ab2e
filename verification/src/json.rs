//! JSON values, as `serde_json` reads and writes them.

use vstd::prelude::*;
use vstd::string::*;

verus! {

/// `serde_json::Value`, a JSON value of any kind. Nothing inside it is visible
/// here: it is read and built by the functions below.
#[verifier::external_type_specification]
#[verifier::external_body]
pub struct ExValue(serde_json::Value);

/// What `serde_json::from_slice` makes of some bytes: the value they hold, or
/// the text of its error.
pub uninterp spec fn json_value(body: Seq<u8>) -> Result<serde_json::Value, Seq<char>>;

/// The member of an object under a key, as `serde_json::Value::get` finds it.
pub uninterp spec fn json_member(value: serde_json::Value, key: Seq<char>) -> Option<
    serde_json::Value,
>;

/// The text of a JSON string, as `serde_json::Value::as_str` gives it.
pub uninterp spec fn json_text(value: serde_json::Value) -> Option<Seq<char>>;

/// The JSON string that `serde_json::Value::from` makes of a text.
pub uninterp spec fn json_string(text: Seq<char>) -> serde_json::Value;

/// The JSON boolean that `serde_json::Value::from` makes of a `bool`.
pub uninterp spec fn json_bool(value: bool) -> serde_json::Value;

/// The JSON object that `serde_json::Map` collects from its members.
pub uninterp spec fn json_object(
    members: Seq<(Seq<char>, serde_json::Value)>,
) -> serde_json::Value;

/// The bytes that `serde_json::to_vec` writes for a value, or the text of its
/// error.
pub uninterp spec fn json_bytes(value: serde_json::Value) -> Result<Seq<u8>, Seq<char>>;

/// `serde_json::from_slice` into a `serde_json::Value`. Whether bytes are JSON,
/// and which value they hold, depends on the bytes alone; so does the error,
/// which is handed on as its text.
#[verifier::external_body]
pub(crate) fn parse(body: &[u8]) -> (r: Result<serde_json::Value, String>)
    ensures
        match r {
            Ok(value) => json_value(body@) == Ok::<serde_json::Value, Seq<char>>(value),
            Err(e) => json_value(body@) == Err::<serde_json::Value, Seq<char>>(e@),
        },
{
    serde_json::from_slice(body).map_err(|e| e.to_string())
}

/// `serde_json::Value::get` with a string key: the member of an object under
/// that key; nothing where there is none or the value is no object.
#[verifier::external_body]
fn member<'a>(value: &'a serde_json::Value, key: &str) -> (r: Option<&'a serde_json::Value>)
    ensures
        match r {
            Some(found) => json_member(*value, key@) == Some(*found),
            None => json_member(*value, key@) is None,
        },
{
    value.get(key)
}

/// `serde_json::Value::as_str`: the text of a JSON string, nothing for a value
/// of another kind.
pub assume_specification[ serde_json::Value::as_str ](value: &serde_json::Value) -> (r: Option<
    &str,
>)
    ensures
        match r {
            Some(text) => json_text(*value) == Some(text@),
            None => json_text(*value) is None,
        },
;

/// `serde_json::Value::from` on a string slice: the JSON string of that text.
#[verifier::external_body]
pub(crate) fn string_value(text: &str) -> (r: serde_json::Value)
    ensures
        r == json_string(text@),
        json_text(r) == Some(text@),
{
    serde_json::Value::from(text)
}

/// `serde_json::Value::from` on a `bool`: the JSON boolean, which is no string.
#[verifier::external_body]
pub(crate) fn bool_value(value: bool) -> (r: serde_json::Value)
    ensures
        r == json_bool(value),
        json_text(r) is None,
{
    serde_json::Value::from(value)
}

/// Key and value of each member, keys as texts.
pub open spec fn members_of(members: Seq<(String, serde_json::Value)>) -> Seq<
    (Seq<char>, serde_json::Value),
> {
    Seq::new(members.len(), |i: int| (members[i].0@, members[i].1))
}

/// The JSON object with the given members, collected into a `serde_json::Map`.
/// A member whose key no other member has can be read back under it.
#[verifier::external_body]
pub(crate) fn object_value(members: Vec<(String, serde_json::Value)>) -> (r: serde_json::Value)
    ensures
        r == json_object(members_of(members@)),
        forall|i: int|
            0 <= i < members@.len() && (forall|j: int|
                0 <= j < members@.len() && j != i ==> members_of(members@)[j].0 != members_of(
                    members@,
                )[i].0)
                ==> json_member(r, (#[trigger] members_of(members@)[i]).0) == Some(
                members_of(members@)[i].1,
            ),
{
    serde_json::Value::Object(members.into_iter().collect())
}

/// `serde_json::to_vec` on a `serde_json::Value`. The bytes depend on the value
/// alone, as does the text of an error.
#[verifier::external_body]
pub(crate) fn to_bytes(value: &serde_json::Value) -> (r: Result<Vec<u8>, String>)
    ensures
        match r {
            Ok(bytes) => json_bytes(*value) == Ok::<Seq<u8>, Seq<char>>(bytes@),
            Err(e) => json_bytes(*value) == Err::<Seq<u8>, Seq<char>>(e@),
        },
{
    serde_json::to_vec(value).map_err(|e| e.to_string())
}

/// The value at the end of a path of keys.
pub open spec fn json_at(value: serde_json::Value, path: Seq<Seq<char>>) -> Option<
    serde_json::Value,
>
    decreases path.len(),
{
    if path.len() == 0 {
        Some(value)
    } else {
        match json_member(value, path[0]) {
            Some(inner) => json_at(inner, path.drop_first()),
            None => None,
        }
    }
}

/// The text at the end of a path of keys: nothing where the path leads nowhere
/// or to something that is no string.
pub open spec fn json_text_at(value: serde_json::Value, path: Seq<Seq<char>>) -> Option<Seq<char>> {
    match json_at(value, path) {
        Some(inner) => json_text(inner),
        None => None,
    }
}

/// The texts of a path.
pub open spec fn path_of(path: Seq<&str>) -> Seq<Seq<char>> {
    Seq::new(path.len(), |i: int| path[i]@)
}

/// The text of an optional string slice.
pub open spec fn slice_text(s: Option<&str>) -> Option<Seq<char>> {
    match s {
        Some(t) => Some(t@),
        None => None,
    }
}

/// The text at the end of a path of keys.
pub fn text_at<'a>(value: &'a serde_json::Value, path: &Vec<&str>) -> (r: Option<&'a str>)
    ensures
        slice_text(r) == json_text_at(*value, path_of(path@)),
{
    let ghost keys = path_of(path@);
    let mut at: &'a serde_json::Value = value;
    let mut i: usize = 0;
    assert(keys.skip(0) =~= keys);
    while i < path.len()
        invariant
            i <= path@.len(),
            keys == path_of(path@),
            json_at(*value, keys) == json_at(*at, keys.skip(i as int)),
        decreases path@.len() - i,
    {
        assert(keys.skip(i as int).drop_first() =~= keys.skip(i + 1));
        match member(at, path[i]) {
            Some(inner) => {
                at = inner;
            },
            None => {
                return None;
            },
        }
        i += 1;
    }
    assert(keys.skip(i as int).len() == 0);
    at.as_str()
}

} // verus!
