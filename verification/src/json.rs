//! Reading a JSON document: what `serde_json` makes of the bytes, and the
//! accessors that the policy uses on it.

use serde_json::Value;
use vstd::prelude::*;

verus! {

/// What a JSON value holds. A number is known by its value as an unsigned
/// 64-bit integer, where it is one.
pub enum Json {
    Null,
    Bool(bool),
    Number(Option<u64>),
    Text(Seq<char>),
    Array(Seq<Json>),
    Object(Map<Seq<char>, Json>),
}

impl Json {
    /// The member `key` of an object.
    pub open spec fn member(self, key: Seq<char>) -> Option<Json> {
        match self {
            Json::Object(members) => if members.dom().contains(key) {
                Some(members[key])
            } else {
                None
            },
            _ => None,
        }
    }

    /// The number, where the value is an unsigned 64-bit integer.
    pub open spec fn unsigned(self) -> Option<u64> {
        match self {
            Json::Number(n) => n,
            _ => None,
        }
    }

    /// The truth value, where the value is one.
    pub open spec fn boolean(self) -> Option<bool> {
        match self {
            Json::Bool(b) => Some(b),
            _ => None,
        }
    }

    /// The characters, where the value is a text.
    pub open spec fn text(self) -> Option<Seq<char>> {
        match self {
            Json::Text(s) => Some(s),
            _ => None,
        }
    }
}

/// A parsed document of `serde_json`.
#[verifier::external_type_specification]
#[verifier::external_body]
pub struct ExValue(serde_json::Value);

/// Why `serde_json` refused a document.
#[verifier::external_type_specification]
#[verifier::external_body]
pub struct ExError(serde_json::Error);

/// What a `serde_json::Value` holds.
pub uninterp spec fn content(value: Value) -> Json;

/// What `serde_json::from_slice` reads out of a document: `None` where the
/// bytes are not one.
pub uninterp spec fn parsed(bytes: Seq<u8>) -> Option<Json>;

/// `serde_json::from_slice` into a `Value`: whether it takes the bytes as a JSON
/// document, and what the value then holds, depends on them alone.
#[verifier::external_body]
pub(crate) fn parse(bytes: &[u8]) -> (r: Result<Value, serde_json::Error>)
    ensures
        match r {
            Ok(value) => parsed(bytes@) == Some(content(value)),
            Err(_) => parsed(bytes@) is None,
        },
{
    serde_json::from_slice(bytes)
}

/// `Value::get` with a text index: the member of that name, where the value is
/// an object that has one.
#[verifier::external_body]
pub(crate) fn get<'a>(value: &'a Value, key: &str) -> (r: Option<&'a Value>)
    ensures
        match r {
            Some(member) => content(*value).member(key@) == Some(content(*member)),
            None => content(*value).member(key@) is None,
        },
{
    value.get(key)
}

/// `Value::as_u64`: the number, where the value is one that is an unsigned
/// 64-bit integer.
pub assume_specification[ Value::as_u64 ](value: &Value) -> (r: Option<u64>)
    ensures
        r == content(*value).unsigned(),
;

/// `Value::as_bool`: the truth value, where the value is one.
pub assume_specification[ Value::as_bool ](value: &Value) -> (r: Option<bool>)
    ensures
        r == content(*value).boolean(),
;

/// `Value::as_str`: the characters, where the value is a string.
pub assume_specification[ Value::as_str ](value: &Value) -> (r: Option<&str>)
    ensures
        match r {
            Some(s) => content(*value).text() == Some(s@),
            None => content(*value).text() is None,
        },
;

/// `Value::as_array`: the items in their order, where the value is an array.
pub assume_specification[ Value::as_array ](value: &Value) -> (r: Option<&Vec<Value>>)
    ensures
        match r {
            Some(items) => content(*value) == Json::Array(items@.map_values(|v: Value| content(v))),
            None => !(content(*value) is Array),
        },
;

/// An object under construction: the map of `serde_json`, which keeps its
/// members in the order of their insertion.
#[verifier::external_type_specification]
#[verifier::external_body]
#[verifier::reject_recursive_types(K)]
#[verifier::reject_recursive_types(V)]
pub struct ExObject<K, V>(serde_json::Map<K, V>);

/// The members of a `serde_json::Map`, in their order.
pub uninterp spec fn members(object: serde_json::Map<String, Value>) -> Seq<(Seq<char>, Json)>;

/// What `serde_json::to_vec` writes for an object of these members.
pub uninterp spec fn written(members: Seq<(Seq<char>, Json)>) -> Seq<u8>;

/// The list has a member of that name.
pub open spec fn has_member(members: Seq<(Seq<char>, Json)>, key: Seq<char>) -> bool {
    exists|i: int| 0 <= i < members.len() && (#[trigger] members[i]).0 == key
}

/// The object that a list of members makes.
pub open spec fn object_of(members: Seq<(Seq<char>, Json)>) -> Map<Seq<char>, Json>
    decreases members.len(),
{
    if members.len() == 0 {
        Map::empty()
    } else {
        object_of(members.drop_last()).insert(members.last().0, members.last().1)
    }
}

/// Every member is a text or an unsigned integer.
pub open spec fn flat(members: Seq<(Seq<char>, Json)>) -> bool {
    forall|i: int|
        0 <= i < members.len() ==> {
            ||| (#[trigger] members[i]).1 is Text
            ||| members[i].1 matches Json::Number(n) && n is Some
        }
}

/// `serde_json::Map::new`: an object without members.
#[verifier::external_body]
pub(crate) fn new_object() -> (r: serde_json::Map<String, Value>)
    ensures
        members(r) == Seq::<(Seq<char>, Json)>::empty(),
{
    serde_json::Map::new()
}

/// `serde_json::Map::insert` of a text under a name that the object does not have
/// yet: the member comes last.
#[verifier::external_body]
pub(crate) fn put_text(object: &mut serde_json::Map<String, Value>, key: &str, text: &str)
    requires
        !has_member(members(*old(object)), key@),
    ensures
        members(*final(object)) == members(*old(object)).push((key@, Json::Text(text@))),
{
    object.insert(key.to_owned(), Value::from(text));
}

/// `serde_json::Map::insert` of a number under a name that the object does not
/// have yet: the member comes last.
#[verifier::external_body]
pub(crate) fn put_number(object: &mut serde_json::Map<String, Value>, key: &str, n: u64)
    requires
        !has_member(members(*old(object)), key@),
    ensures
        members(*final(object)) == members(*old(object)).push((key@, Json::Number(Some(n)))),
{
    object.insert(key.to_owned(), Value::from(n));
}

/// `serde_json::to_vec` of an object of texts and numbers, which has nothing to
/// fail on. What it writes depends on the members and their order alone; parsed
/// again, it is the object; and it holds no newline, since the compact form has
/// none between its tokens and escapes those in texts.
#[verifier::external_body]
pub(crate) fn write_object(object: &serde_json::Map<String, Value>) -> (r: Result<
    Vec<u8>,
    serde_json::Error,
>)
    requires
        flat(members(*object)),
    ensures
        match r {
            Ok(bytes) => {
                &&& bytes@ == written(members(*object))
                &&& parsed(bytes@) == Some(Json::Object(object_of(members(*object))))
                &&& !bytes@.contains(10u8)
            },
            Err(_) => false,
        },
{
    serde_json::to_vec(object)
}

} // verus!
