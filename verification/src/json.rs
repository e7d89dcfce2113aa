//! JSON documents as the configuration loader reads them.
//!
//! A document is held as a tree of plain values. A number is held as what
//! the loader reads of it: its value where it is a non-negative integer
//! below 2^64, and nothing otherwise.

use crate::text::same_text;
use vstd::prelude::*;

verus! {

/// A JSON value.
#[derive(Debug)]
pub enum Json {
    Null,
    Bool(bool),
    /// A number, with its value where it is an unsigned 64-bit integer.
    Number(Option<u64>),
    Text(String),
    List(Vec<Json>),
    /// The members of an object, in the order of the document model.
    Object(Vec<(String, Json)>),
}

/// The value of the first member named `key`, if there is one.
pub open spec fn lookup(members: Seq<(String, Json)>, key: Seq<char>) -> Option<Json>
    decreases members.len(),
{
    if members.len() == 0 {
        None
    } else if members.first().0@ == key {
        Some(members.first().1)
    } else {
        lookup(members.drop_first(), key)
    }
}

/// The texts among `items`, in order. Items of other kinds are passed over.
pub open spec fn text_items(items: Seq<Json>) -> Seq<Seq<char>> {
    items.filter_map(
        |item: Json|
            match item {
                Json::Text(text) => Some(text@),
                _ => None,
            },
    )
}

impl Json {
    /// The text of a text value.
    pub open spec fn text(self) -> Option<Seq<char>> {
        match self {
            Json::Text(text) => Some(text@),
            _ => None,
        }
    }

    /// The value of the member `key` of an object.
    pub open spec fn member(self, key: Seq<char>) -> Option<Json> {
        match self {
            Json::Object(members) => lookup(members@, key),
            _ => None,
        }
    }

    /// The text of the member `key` of an object, where that is a text.
    pub open spec fn text_member(self, key: Seq<char>) -> Option<Seq<char>> {
        match self.member(key) {
            Some(value) => value.text(),
            None => None,
        }
    }

    /// The text of a text value.
    pub fn as_text(&self) -> (r: Option<&str>)
        ensures
            match r {
                Some(text) => self.text() == Some(text@),
                None => self.text() is None,
            },
    {
        match self {
            Json::Text(text) => Some(text.as_str()),
            _ => None,
        }
    }

    /// The members of an object.
    pub fn as_object(&self) -> (r: Option<&Vec<(String, Json)>>)
        ensures
            match r {
                Some(members) => *self == Json::Object(*members),
                None => !(self is Object),
            },
    {
        match self {
            Json::Object(members) => Some(members),
            _ => None,
        }
    }

    /// The items of a list.
    pub fn as_array(&self) -> (r: Option<&Vec<Json>>)
        ensures
            match r {
                Some(items) => *self == Json::List(*items),
                None => !(self is List),
            },
    {
        match self {
            Json::List(items) => Some(items),
            _ => None,
        }
    }

    /// The value of a number that is an unsigned 64-bit integer.
    pub fn as_u64(&self) -> (r: Option<u64>)
        ensures
            r == (match *self {
                Json::Number(value) => value,
                _ => None,
            }),
    {
        match self {
            Json::Number(value) => *value,
            _ => None,
        }
    }

    /// The value of the member `key` of an object.
    pub fn get(&self, key: &str) -> (r: Option<&Json>)
        ensures
            match r {
                Some(value) => self.member(key@) == Some(*value),
                None => self.member(key@) is None,
            },
    {
        match self {
            Json::Object(members) => find_member(members, key),
            _ => None,
        }
    }

    /// The text of the member `key` of an object, where that is a text.
    pub fn get_text(&self, key: &str) -> (r: Option<&str>)
        ensures
            match r {
                Some(text) => self.text_member(key@) == Some(text@),
                None => self.text_member(key@) is None,
            },
    {
        match self.get(key) {
            Some(value) => value.as_text(),
            None => None,
        }
    }
}

/// The value of the first member named `key`, if there is one.
pub fn find_member<'a>(members: &'a Vec<(String, Json)>, key: &str) -> (r: Option<&'a Json>)
    ensures
        match r {
            Some(value) => lookup(members@, key@) == Some(*value),
            None => lookup(members@, key@) is None,
        },
{
    let n = members.len();
    let mut i: usize = 0;
    assert(members@.skip(0) == members@);
    while i < n
        invariant
            i <= n,
            n == members@.len(),
            lookup(members@, key@) == lookup(members@.skip(i as int), key@),
        decreases n - i,
    {
        assert(members@.skip(i as int).drop_first() == members@.skip(i + 1));
        if same_text(members[i].0.as_str(), key) {
            return Some(&members[i].1);
        }
        i += 1;
    }
    None
}

/// The texts among `items`, in order.
pub fn collect_texts(items: &Vec<Json>) -> (r: Vec<String>)
    ensures
        r@.map_values(|text: String| text@) == text_items(items@),
{
    let ghost pick = |item: Json|
        match item {
            Json::Text(text) => Some(text@),
            _ => None,
        };
    let mut r: Vec<String> = Vec::new();
    let n = items.len();
    let mut i: usize = 0;
    assert(items@.take(0).filter_map(pick) == Seq::<Seq<char>>::empty());
    while i < n
        invariant
            i <= n,
            n == items@.len(),
            pick == (|item: Json|
                match item {
                    Json::Text(text) => Some(text@),
                    _ => None,
                }),
            r@.map_values(|text: String| text@) == items@.take(i as int).filter_map(pick),
        decreases n - i,
    {
        proof {
            items@.lemma_filter_map_take_succ(pick, i as int);
        }
        match &items[i] {
            Json::Text(text) => {
                let copy = text.clone();
                assert(r@.push(copy).map_values(|text: String| text@) == r@.map_values(
                    |text: String| text@,
                ).push(copy@));
                r.push(copy);
            },
            _ => {},
        }
        i += 1;
    }
    assert(items@.take(n as int) == items@);
    r
}

/// `serde_json::Value`, the document model of that crate. It is declared
/// so that a document can be carried from the parser to the copy below;
/// nothing is known of what one holds.
#[verifier::external_type_specification]
#[verifier::external_body]
pub struct ExValue(serde_json::Value);

/// What `serde_json::from_str` makes of a text: a document in the model of
/// that crate, or the message of the error that it reports.
pub uninterp spec fn parsed(text: Seq<char>) -> Result<serde_json::Value, Seq<char>>;

/// The tree of plain values that a document of `serde_json` holds.
pub uninterp spec fn tree_of(value: serde_json::Value) -> Json;

/// Calls `serde_json::from_str` for a `serde_json::Value` and, where that
/// fails, `to_string` on the error. The contract gives the outcome the
/// name `parsed` and claims nothing else of it.
#[verifier::external_body]
fn parse_value(text: &str) -> (r: Result<serde_json::Value, String>)
    ensures
        match r {
            Ok(value) => parsed(text@) == Ok::<serde_json::Value, Seq<char>>(value),
            Err(message) => parsed(text@) == Err::<serde_json::Value, Seq<char>>(message@),
        },
{
    match serde_json::from_str::<serde_json::Value>(text) {
        Ok(value) => Ok(value),
        Err(error) => Err(error.to_string()),
    }
}

/// Copies a `serde_json::Value` into a tree of plain values, variant by
/// variant; of a number it keeps what `Number::as_u64` returns. The
/// contract gives the tree the name `tree_of` and claims nothing else of
/// it.
#[verifier::external_body]
fn json_from_value(value: &serde_json::Value) -> (r: Json)
    ensures
        r == tree_of(*value),
{
    match value {
        serde_json::Value::Null => Json::Null,
        serde_json::Value::Bool(flag) => Json::Bool(*flag),
        serde_json::Value::Number(number) => Json::Number(number.as_u64()),
        serde_json::Value::String(text) => Json::Text(text.clone()),
        serde_json::Value::Array(items) => Json::List(items.iter().map(json_from_value).collect()),
        serde_json::Value::Object(members) => Json::Object(
            members.iter().map(|(key, item)| (key.clone(), json_from_value(item))).collect(),
        ),
    }
}

/// The tree of plain values that a JSON text denotes, or the message of
/// the parse error.
pub open spec fn json_of(text: Seq<char>) -> Result<Json, Seq<char>> {
    match parsed(text) {
        Ok(value) => Ok(tree_of(value)),
        Err(message) => Err(message),
    }
}

/// Parses a JSON text into a tree of plain values.
pub fn parse_json(text: &str) -> (r: Result<Json, String>)
    ensures
        match r {
            Ok(doc) => json_of(text@) == Ok::<Json, Seq<char>>(doc),
            Err(message) => json_of(text@) == Err::<Json, Seq<char>>(message@),
        },
{
    match parse_value(text) {
        Ok(value) => Ok(json_from_value(&value)),
        Err(message) => Err(message),
    }
}

} // verus!
