//! What the library reads out of a JSON reply.

use serde_json::Value;
use vstd::prelude::*;

verus! {

/// A JSON value of `serde_json`.
#[verifier::external_type_specification]
#[verifier::external_body]
pub struct ExValue(serde_json::Value);

/// An error of `serde_json`.
#[verifier::external_type_specification]
#[verifier::external_body]
pub struct ExError(serde_json::Error);

/// A JSON value as a tree. A number stands as the text that writes it.
pub enum Json {
    Null,
    Bool(bool),
    Number(Seq<char>),
    Text(Seq<char>),
    Array(Seq<Json>),
    Object(Map<Seq<char>, Json>),
}

impl Json {
    /// The item of an array at a position, and null where there is none.
    pub open spec fn item(self, i: int) -> Json {
        match self {
            Json::Array(items) => if 0 <= i < items.len() {
                items[i]
            } else {
                Json::Null
            },
            _ => Json::Null,
        }
    }

    /// The field of an object under a key, and null where there is none.
    pub open spec fn field(self, key: Seq<char>) -> Json {
        match self {
            Json::Object(fields) => if fields.dom().contains(key) {
                fields[key]
            } else {
                Json::Null
            },
            _ => Json::Null,
        }
    }
}

/// The tree that a value of `serde_json` holds.
pub uninterp spec fn tree(value: Value) -> Json;

/// The tree that a JSON text writes down; nothing where the text is not JSON.
pub uninterp spec fn parsed(text: Seq<char>) -> Option<Json>;

/// A tree written over several lines.
pub uninterp spec fn pretty(json: Json) -> Option<Seq<char>>;

/// The value that a text writes down, by `serde_json::from_str`.
///
/// The claim is that the text alone decides whether there is one, and which tree it holds.
#[verifier::external_body]
fn parse(text: &str) -> (r: Result<Value, serde_json::Error>)
    ensures
        r is Ok <==> parsed(text@) is Some,
        r matches Ok(value) ==> parsed(text@) == Some(tree(value)),
{
    serde_json::from_str(text)
}

/// The item at a position, by the indexing of `serde_json::Value` with a `usize`: null where the
/// value is no array or is too short.
#[verifier::external_body]
fn item(value: &Value, i: usize) -> (r: &Value)
    ensures
        tree(*r) == tree(*value).item(i as int),
{
    &value[i]
}

/// The field under a key, by the indexing of `serde_json::Value` with a string: null where the
/// value is no object or has no such field.
#[verifier::external_body]
fn field<'v>(value: &'v Value, key: &str) -> (r: &'v Value)
    ensures
        tree(*r) == tree(*value).field(key@),
{
    &value[key]
}

/// The items of an array, by `serde_json::Value::as_array`: nothing where the value is none.
#[verifier::external_body]
fn items(value: &Value) -> (r: Option<&Vec<Value>>)
    ensures
        r is Some <==> tree(*value) is Array,
        r matches Some(items) ==> tree(*value) == Json::Array(items@.map_values(|v: Value| tree(v))),
{
    value.as_array()
}

/// The characters of a text, by `serde_json::Value::as_str`: nothing where the value is none.
#[verifier::external_body]
fn characters(value: &Value) -> (r: Option<&str>)
    ensures
        r is Some <==> tree(*value) is Text,
        r matches Some(text) ==> tree(*value) == Json::Text(text@),
{
    value.as_str()
}

/// A value written over several lines, by `serde_json::to_string_pretty`.
///
/// The claim is that the tree decides the text: fields are written in the order of their keys.
#[verifier::external_body]
fn write_pretty(value: &Value) -> (r: Result<String, serde_json::Error>)
    ensures
        r is Ok <==> pretty(tree(*value)) is Some,
        r matches Ok(text) ==> pretty(tree(*value)) == Some(text@),
{
    serde_json::to_string_pretty(value)
}

/// The names that a sequence of buckets gives, up to the first bucket that has none.
pub open spec fn names(buckets: Seq<Json>) -> Seq<Seq<char>>
    decreases buckets.len(),
{
    if buckets.len() > 0 && buckets[0].field("Name"@) is Text {
        seq![buckets[0].field("Name"@)->Text_0] + names(buckets.skip(1))
    } else {
        Seq::empty()
    }
}

/// The buckets that a list of buckets holds: its second item.
pub open spec fn listed_buckets(list: Json) -> Seq<Json> {
    match list.item(1) {
        Json::Array(buckets) => buckets,
        _ => Seq::empty(),
    }
}

/// The names of the buckets in a list of buckets, and whether every bucket has one. Where one has
/// none, the names are those of the buckets before it.
pub open spec fn bucket_names(list: Json) -> (Seq<Seq<char>>, bool) {
    let buckets = listed_buckets(list);
    (names(buckets), names(buckets).len() == buckets.len())
}

/// Reads the names of the buckets out of a list of buckets.
pub fn names_in(list: &Value) -> (r: (Vec<String>, bool))
    ensures
        (r.0.deep_view(), r.1) == bucket_names(tree(*list)),
{
    let mut found: Vec<String> = Vec::new();
    match items(item(list, 1)) {
        None => {
            assert(found.deep_view() == names(Seq::empty()));
            (found, true)
        },
        Some(buckets) => {
            let ghost all = buckets@.map_values(|v: Value| tree(v));
            let mut i: usize = 0;
            proof {
                assert(all.skip(0) == all);
                assert(found.deep_view() + names(all) == names(all));
            }
            while i < buckets.len()
                invariant
                    i <= buckets@.len(),
                    found@.len() == i,
                    all == buckets@.map_values(|v: Value| tree(v)),
                    all == listed_buckets(tree(*list)),
                    found.deep_view() + names(all.skip(i as int)) == names(all),
                decreases buckets@.len() - i,
            {
                let ghost before = found.deep_view();
                let ghost rest = all.skip(i as int);
                assert(rest[0] == tree(buckets@[i as int]));
                assert(rest.skip(1) == all.skip(i + 1));
                match characters(field(&buckets[i], "Name")) {
                    Some(name) => {
                        found.push(name.to_owned());
                        proof {
                            assert(found.deep_view() == before.push(name@));
                            assert(before.push(name@) + names(all.skip(i + 1)) == before + (
                            seq![name@] + names(all.skip(i + 1))));
                        }
                    },
                    None => {
                        assert(names(rest) == Seq::<Seq<char>>::empty());
                        assert(found.deep_view() + names(rest) == found.deep_view());
                        return (found, false);
                    },
                }
                i += 1;
            }
            assert(found.deep_view() + names(all.skip(i as int)) == found.deep_view());
            (found, true)
        },
    }
}

/// The names of the buckets that a JSON text lists, and whether all of it could be read.
pub open spec fn json_bucket_names(text: Seq<char>) -> (Seq<Seq<char>>, bool) {
    match parsed(text) {
        Some(list) => bucket_names(list),
        None => (Seq::empty(), false),
    }
}

/// Reads the names of the buckets out of a JSON text.
pub fn names_of(text: &str) -> (r: (Vec<String>, bool))
    ensures
        (r.0.deep_view(), r.1) == json_bucket_names(text@),
{
    match parse(text) {
        Ok(list) => names_in(&list),
        Err(_) => {
            let none: Vec<String> = Vec::new();
            assert(none.deep_view() == Seq::<Seq<char>>::empty());
            (none, false)
        },
    }
}

/// How the usage in a reply is shown: nothing where it cannot be written down.
pub open spec fn usage_shown(reply: Json) -> Seq<char> {
    match pretty(reply.field("usage"@)) {
        Some(text) => text,
        None => ""@,
    }
}

/// Shows the usage in a reply.
pub fn usage_in(reply: &Value) -> (r: String)
    ensures
        r@ == usage_shown(tree(*reply)),
{
    match write_pretty(field(reply, "usage")) {
        Ok(text) => text,
        Err(_) => "".to_owned(),
    }
}

/// Shows the usage in a JSON text; nothing where the text is not JSON.
pub fn usage_of(text: &str) -> (r: Option<String>)
    ensures
        r is Some <==> parsed(text@) is Some,
        r matches Some(shown) ==> shown@ == usage_shown(parsed(text@)->0),
{
    match parse(text) {
        Ok(reply) => Some(usage_in(&reply)),
        Err(_) => None,
    }
}

} // verus!
