//! The values of the `serde_json` crate: what they say, and how they are taken
//! apart, made, read and written.

use vstd::prelude::*;

use crate::json::{
    items_view, lemma_items_push, lemma_smaller, lemma_smaller_view, members_view, Json, JsonView,
};
use crate::str_map::StrMap;

verus! {

/// Declares `serde_json::Number`, which is carried through and never looked into.
#[verifier::external_type_specification]
#[verifier::external_body]
pub struct ExNumber(serde_json::Number);

/// Declares `serde_json::Value`; [`value_json`] is what one says.
#[verifier::external_type_specification]
#[verifier::external_body]
pub struct ExValue(serde_json::Value);

/// Declares `serde_json::Map`; [`map_members`] is what one holds.
#[verifier::external_type_specification]
#[verifier::external_body]
#[verifier::reject_recursive_types(K)]
#[verifier::reject_recursive_types(V)]
pub struct ExJsonMap<K, V>(serde_json::Map<K, V>);

/// Declares `serde_json::Error`, the reason why a text is not JSON or a value has
/// no JSON text.
#[verifier::external_type_specification]
#[verifier::external_body]
pub struct ExJsonError(serde_json::Error);

/// What a `serde_json::Value` says.
pub uninterp spec fn value_json(value: serde_json::Value) -> JsonView;

/// What the values of a `serde_json::Map` say, by their keys.
pub uninterp spec fn map_members(map: serde_json::Map<String, serde_json::Value>) -> Map<
    Seq<char>,
    JsonView,
>;

/// What the JSON text of a value is, as its `Display` writes it.
pub uninterp spec fn json_text(json: JsonView) -> Seq<char>;

/// The value that `serde_json::from_str` reads from a text, if it reads one.
pub uninterp spec fn parsed_json(text: Seq<char>) -> Option<JsonView>;

/// The text that `serde_json::to_string` writes for a value, if it writes one.
pub uninterp spec fn written_json(json: JsonView) -> Option<Seq<char>>;

/// A `serde_json::Value` taken apart by one level.
pub enum ValueParts {
    Null,
    Bool(bool),
    Number(serde_json::Number),
    String(String),
    Array(Vec<serde_json::Value>),
    Object(serde_json::Map<String, serde_json::Value>),
}

/// The members that a list of entries makes when it is inserted in order.
pub open spec fn value_members(entries: Seq<(String, serde_json::Value)>) -> Map<
    Seq<char>,
    JsonView,
>
    decreases entries.len(),
{
    if entries.len() == 0 {
        Map::empty()
    } else {
        value_members(entries.drop_last()).insert(entries.last().0@, value_json(entries.last().1))
    }
}

/// What the value with these parts says.
pub open spec fn parts_json(parts: ValueParts) -> JsonView {
    match parts {
        ValueParts::Null => JsonView::Null,
        ValueParts::Bool(b) => JsonView::Bool(b),
        ValueParts::Number(n) => JsonView::Number(n),
        ValueParts::String(s) => JsonView::String(s@),
        ValueParts::Array(items) => JsonView::Array(
            items@.map_values(|item: serde_json::Value| value_json(item)),
        ),
        ValueParts::Object(map) => JsonView::Object(map_members(map)),
    }
}

/// No key stands twice in a list of entries.
pub open spec fn distinct_keys(entries: Seq<(String, serde_json::Value)>) -> bool {
    forall|i: int, j: int|
        0 <= i < j < entries.len() ==> (#[trigger] entries[i]).0@ != (#[trigger] entries[j]).0@
}

/// `Clone` of `serde_json::Number`: the copy is the same number.
pub assume_specification[ <serde_json::Number as Clone>::clone ](n: &serde_json::Number) -> (copy:
    serde_json::Number)
    ensures
        copy == *n,
;

/// Takes a `serde_json::Value` apart: each variant hands out what it holds.
#[verifier::external_body]
fn take_apart(value: serde_json::Value) -> (parts: ValueParts)
    ensures
        value_json(value) == parts_json(parts),
{
    match value {
        serde_json::Value::Null => ValueParts::Null,
        serde_json::Value::Bool(b) => ValueParts::Bool(b),
        serde_json::Value::Number(n) => ValueParts::Number(n),
        serde_json::Value::String(s) => ValueParts::String(s),
        serde_json::Value::Array(items) => ValueParts::Array(items),
        serde_json::Value::Object(map) => ValueParts::Object(map),
    }
}

/// Makes the `serde_json::Value` with these parts: each variant takes what it holds.
#[verifier::external_body]
fn put_together(parts: ValueParts) -> (value: serde_json::Value)
    ensures
        value_json(value) == parts_json(parts),
{
    match parts {
        ValueParts::Null => serde_json::Value::Null,
        ValueParts::Bool(b) => serde_json::Value::Bool(b),
        ValueParts::Number(n) => serde_json::Value::Number(n),
        ValueParts::String(s) => serde_json::Value::String(s),
        ValueParts::Array(items) => serde_json::Value::Array(items),
        ValueParts::Object(map) => serde_json::Value::Object(map),
    }
}

/// `serde_json::Map::into_iter`: every entry once, and no key twice.
#[verifier::external_body]
fn list_members(map: serde_json::Map<String, serde_json::Value>) -> (entries: Vec<
    (String, serde_json::Value),
>)
    ensures
        distinct_keys(entries@),
        value_members(entries@) == map_members(map),
{
    map.into_iter().collect()
}

/// `serde_json::Map::new`: no members.
#[verifier::external_body]
fn no_members() -> (map: serde_json::Map<String, serde_json::Value>)
    ensures
        map_members(map).dom() == Set::<Seq<char>>::empty(),
{
    serde_json::Map::new()
}

/// `serde_json::Map::insert`: the value is held for the key from now on, in the place of
/// one that was.
#[verifier::external_body]
fn set_member(
    map: &mut serde_json::Map<String, serde_json::Value>,
    key: String,
    value: serde_json::Value,
)
    ensures
        map_members(*final(map)) == map_members(*old(map)).insert(key@, value_json(value)),
{
    map.insert(key, value);
}

/// `Display` of `serde_json::Value`, by `to_string`: the text depends on what the
/// value says and on nothing else, for an object's members are written in the
/// order of their keys.
#[verifier::external_body]
fn display_value(value: &serde_json::Value) -> (text: String)
    ensures
        text@ == json_text(value_json(*value)),
{
    value.to_string()
}

/// `serde_json::from_str` into a `Value`: whether it reads one, and which, is
/// decided by the text.
#[verifier::external_body]
fn parse_value(text: &str) -> (read: Result<serde_json::Value, serde_json::Error>)
    ensures
        match read {
            Ok(value) => parsed_json(text@) == Some(value_json(value)),
            Err(_) => parsed_json(text@) is None,
        },
{
    serde_json::from_str(text)
}

/// `serde_json::to_string` of a `Value`: whether it writes a text, and which, is
/// decided by what the value says.
#[verifier::external_body]
pub(crate) fn write_value(value: &serde_json::Value) -> (written: Result<String, serde_json::Error>)
    ensures
        match written {
            Ok(text) => written_json(value_json(*value)) == Some(text@),
            Err(_) => written_json(value_json(*value)) is None,
        },
{
    serde_json::to_string(value)
}

/// With each key once, every entry is what the members hold for its key.
proof fn lemma_value_member(entries: Seq<(String, serde_json::Value)>, i: int)
    requires
        distinct_keys(entries),
        0 <= i < entries.len(),
    ensures
        value_members(entries).contains_key(entries[i].0@),
        value_members(entries)[entries[i].0@] == value_json(entries[i].1),
        value_members(entries).dom().finite(),
    decreases entries.len(),
{
    let front = entries.drop_last();
    assert(distinct_keys(front));
    if i < front.len() {
        lemma_value_member(front, i);
    } else if front.len() > 0 {
        lemma_value_member(front, 0);
    }
}

/// The plain value that says what a `serde_json::Value` says.
pub fn json_from_value(value: serde_json::Value) -> (json: Json)
    ensures
        json@ == value_json(value),
    decreases value_json(value),
{
    match take_apart(value) {
        ValueParts::Null => Json::Null,
        ValueParts::Bool(b) => Json::Bool(b),
        ValueParts::Number(n) => Json::Number(n),
        ValueParts::String(s) => Json::String(s),
        ValueParts::Array(items) => {
            let ghost views = items@.map_values(|item: serde_json::Value| value_json(item));
            let mut plain: Vec<Json> = Vec::new();
            for item in it: items.into_iter()
                invariant
                    it.seq() == items@,
                    views == items@.map_values(|item: serde_json::Value| value_json(item)),
                    value_json(value) == JsonView::Array(views),
                    items_view(plain@) == views.take(it.index() as int),
            {
                proof {
                    assert(views[it.index() as int] == value_json(item));
                    lemma_smaller_view(value_json(value), it.index() as int, Seq::empty());
                }
                let one = json_from_value(item);
                proof {
                    lemma_items_push(plain@, one);
                    assert(views.take(it.index() + 1) =~= views.take(it.index() as int).push(
                        value_json(item),
                    ));
                }
                plain.push(one);
            }
            assert(views.take(views.len() as int) =~= views);
            Json::Array(plain)
        },
        ValueParts::Object(map) => {
            let entries = list_members(map);
            let mut plain: Vec<(String, Json)> = Vec::new();
            for entry in it: entries.into_iter()
                invariant
                    it.seq() == entries@,
                    distinct_keys(entries@),
                    value_json(value) == JsonView::Object(value_members(entries@)),
                    members_view(plain@) == value_members(entries@.take(it.index() as int)),
            {
                proof {
                    lemma_value_member(entries@, it.index() as int);
                    lemma_smaller_view(value_json(value), 0, entry.0@);
                }
                let ghost before = plain@;
                let key = entry.0;
                let one = json_from_value(entry.1);
                plain.push((key, one));
                assert(plain@.drop_last() =~= before);
                assert(entries@.take(it.index() + 1).drop_last() =~= entries@.take(
                    it.index() as int,
                ));
            }
            assert(entries@.take(entries@.len() as int) =~= entries@);
            Json::Object(StrMap { entries: plain })
        },
    }
}

impl Json {
    /// The `serde_json::Value` that says what this value says.
    pub fn to_value(&self) -> (value: serde_json::Value)
        ensures
            value_json(value) == self@,
        decreases self,
    {
        match self {
            Json::Null => put_together(ValueParts::Null),
            Json::Bool(b) => put_together(ValueParts::Bool(*b)),
            Json::Number(n) => put_together(ValueParts::Number(n.clone())),
            Json::String(s) => put_together(ValueParts::String(s.clone())),
            Json::Array(items) => {
                let mut values: Vec<serde_json::Value> = Vec::new();
                let mut i: usize = 0;
                while i < items.len()
                    invariant
                        i <= items@.len(),
                        self == Json::Array(*items),
                        values@.map_values(|item: serde_json::Value| value_json(item))
                            == items_view(items@).take(i as int),
                    decreases items@.len() - i,
                {
                    proof {
                        lemma_smaller(*self, i as int);
                        assert(items_view(items@).take(i + 1) =~= items_view(items@).take(
                            i as int,
                        ).push(items@[i as int]@));
                    }
                    let ghost before = values@;
                    let one = items[i].to_value();
                    values.push(one);
                    assert(values@.map_values(|item: serde_json::Value| value_json(item))
                        =~= before.map_values(|item: serde_json::Value| value_json(item)).push(
                        value_json(one),
                    ));
                    i += 1;
                }
                assert(items_view(items@).take(items@.len() as int) =~= items_view(items@));
                put_together(ValueParts::Array(values))
            },
            Json::Object(map) => {
                let mut members = no_members();
                let mut i: usize = 0;
                assert(map.entries@.take(0) =~= Seq::empty());
                assert(map_members(members) =~= members_view(map.entries@.take(0)));
                while i < map.entries.len()
                    invariant
                        i <= map.entries@.len(),
                        self == Json::Object(*map),
                        map_members(members) == members_view(map.entries@.take(i as int)),
                    decreases map.entries@.len() - i,
                {
                    proof {
                        lemma_smaller(*self, i as int);
                    }
                    let value = map.entries[i].1.to_value();
                    set_member(&mut members, map.entries[i].0.clone(), value);
                    assert(map.entries@.take(i + 1).drop_last() =~= map.entries@.take(i as int));
                    i += 1;
                }
                assert(map.entries@.take(i as int) =~= map.entries@);
                put_together(ValueParts::Object(members))
            },
        }
    }

    /// The JSON text of this value.
    pub fn to_json_text(&self) -> (text: String)
        ensures
            text@ == json_text(self@),
    {
        display_value(&self.to_value())
    }
}

/// Reads a JSON text.
pub fn read_json(text: &str) -> (read: Result<Json, serde_json::Error>)
    ensures
        match read {
            Ok(json) => parsed_json(text@) == Some(json@),
            Err(_) => parsed_json(text@) is None,
        },
{
    match parse_value(text) {
        Ok(value) => Ok(json_from_value(value)),
        Err(error) => Err(error),
    }
}

} // verus!
