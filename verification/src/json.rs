//! The boundary to `serde_json`: the few calls that the transforms make, each
//! with the contract that the rest of the library relies on.
//!
//! Nothing in this file is proved. A JSON object is carried as
//! `serde_json::Map`; contracts speak of its members through
//! [`object_members`].

use vstd::prelude::*;

verus! {

/// `serde_json::Value`, a JSON value of any shape. Nothing is known of what
/// one holds.
#[verifier::external_type_specification]
#[verifier::external_body]
pub struct ExJsonValue(serde_json::Value);

/// `serde_json::Error`, why a text could not be parsed or a value not be
/// written. Nothing is known of what one holds.
#[verifier::external_type_specification]
#[verifier::external_body]
pub struct ExJsonError(serde_json::Error);

/// `serde_json::Map`, the members of a JSON object by key. What one holds
/// is known through [`object_members`] alone.
#[verifier::external_type_specification]
#[verifier::external_body]
#[verifier::reject_recursive_types(K)]
#[verifier::reject_recursive_types(V)]
pub struct ExJsonMap<K, V>(serde_json::Map<K, V>);

/// What stands for one member of a JSON object: the compact JSON text of its
/// value and, where the value is a JSON string, the string itself.
pub type Member = (Seq<char>, Option<Seq<char>>);

/// The members of a JSON object, by key.
pub uninterp spec fn object_members(m: serde_json::Map<String, serde_json::Value>) -> Map<
    Seq<char>,
    Member,
>;

/// A line of text as a JSON document.
pub enum ParsedJson {
    /// The text is not one JSON document, or it is one that cannot be
    /// written back.
    Invalid,
    /// The text is a JSON object with these members.
    Object(Map<Seq<char>, Member>),
    /// The text is a JSON document other than an object; its compact text.
    Other(Seq<char>),
}

/// What `serde_json` makes of a line of text.
pub uninterp spec fn parsed_json(line: Seq<char>) -> ParsedJson;

/// The compact JSON text of an object with the given members, where
/// `serde_json` can write one.
pub uninterp spec fn object_json(members: Map<Seq<char>, Member>) -> Option<Seq<char>>;

/// A parsed line, as the transforms hold it.
pub enum JsonLine {
    Object(serde_json::Map<String, serde_json::Value>),
    Other(String),
}

/// Parses one line with `serde_json::from_str`.
///
/// An object comes back as its map. Any other document comes back as its
/// compact text, written by `serde_json::to_string`. The outcome depends on
/// the text alone, and [`parsed_json`] is its name.
#[verifier::external_body]
pub(crate) fn parse_json_line(line: &str) -> (r: Result<JsonLine, serde_json::Error>)
    ensures
        match r {
            Ok(JsonLine::Object(m)) => parsed_json(line@) == ParsedJson::Object(object_members(m)),
            Ok(JsonLine::Other(text)) => parsed_json(line@) == ParsedJson::Other(text@),
            Err(_) => parsed_json(line@) == ParsedJson::Invalid,
        },
{
    match serde_json::from_str::<serde_json::Value>(line)? {
        serde_json::Value::Object(m) => Ok(JsonLine::Object(m)),
        other => serde_json::to_string(&other).map(JsonLine::Other),
    }
}

/// Removes a key with `serde_json::Map::remove`: afterwards the object has
/// the same members but the one under `key`.
#[verifier::external_body]
pub(crate) fn object_remove(m: &mut serde_json::Map<String, serde_json::Value>, key: &str)
    ensures
        object_members(*final(m)) == object_members(*old(m)).remove(key@),
{
    m.remove(key);
}

/// Looks a member up with `serde_json::Map::get` and, where it is a JSON
/// string, hands out a copy of the string.
#[verifier::external_body]
pub(crate) fn object_member_string(
    m: &serde_json::Map<String, serde_json::Value>,
    key: &str,
) -> (r: Option<String>)
    ensures
        match r {
            Some(s) => object_members(*m).dom().contains(key@) && object_members(*m)[key@].1
                == Some(s@),
            None => !object_members(*m).dom().contains(key@) || object_members(*m)[key@].1
                is None,
        },
{
    match m.get(key) {
        Some(serde_json::Value::String(s)) => Some(s.clone()),
        _ => None,
    }
}

/// Looks a member up with `serde_json::Map::get` and hands out the compact
/// JSON text of its value, as `Value`'s `Display` writes it.
#[verifier::external_body]
pub(crate) fn object_member_text(
    m: &serde_json::Map<String, serde_json::Value>,
    key: &str,
) -> (r: Option<String>)
    ensures
        match r {
            Some(s) => object_members(*m).dom().contains(key@) && object_members(*m)[key@].0
                == s@,
            None => !object_members(*m).dom().contains(key@),
        },
{
    match m.get(key) {
        Some(value) => Some(value.to_string()),
        None => None,
    }
}

/// Writes an object as compact JSON with `serde_json::to_string`. The outcome
/// depends on the members alone, and [`object_json`] is its name.
#[verifier::external_body]
pub(crate) fn object_to_json(m: &serde_json::Map<String, serde_json::Value>) -> (r: Result<
    String,
    serde_json::Error,
>)
    ensures
        match r {
            Ok(text) => object_json(object_members(*m)) == Some(text@),
            Err(_) => object_json(object_members(*m)) is None,
        },
{
    serde_json::to_string(m)
}

/// The compact JSON text of a string, quoted and escaped as `serde_json`
/// writes it.
pub uninterp spec fn json_string_text(value: Seq<char>) -> Seq<char>;

/// Makes an object without members, with `serde_json::Map::new`.
#[verifier::external_body]
pub(crate) fn object_new() -> (object: serde_json::Map<String, serde_json::Value>)
    ensures
        object_members(object) =~= Map::empty(),
{
    serde_json::Map::new()
}

/// Puts a string under a key with `serde_json::Map::insert`: afterwards the
/// object holds that string under `key`, in place of what was there, and its
/// other members as before.
#[verifier::external_body]
pub(crate) fn object_insert_string(
    m: &mut serde_json::Map<String, serde_json::Value>,
    key: &str,
    value: &str,
)
    ensures
        object_members(*final(m)) == object_members(*old(m)).insert(
            key@,
            (json_string_text(value@), Some(value@)),
        ),
{
    m.insert(key.to_owned(), serde_json::Value::String(value.to_owned()));
}

} // verus!
