//! JSON values as plain data.

use vstd::prelude::*;

use crate::str_map::{entries_map, StrMap};

verus! {

/// A JSON value. Numbers are kept as `serde_json` reads them.
#[derive(Debug, PartialEq)]
pub enum Json {
    Null,
    Bool(bool),
    Number(serde_json::Number),
    String(String),
    Array(Vec<Json>),
    Object(StrMap<Json>),
}

/// What a JSON value says: the order of an object's members is no part of it.
#[verifier::ext_equal]
pub ghost enum JsonView {
    Null,
    Bool(bool),
    Number(serde_json::Number),
    String(Seq<char>),
    Array(Seq<JsonView>),
    Object(Map<Seq<char>, JsonView>),
}

/// The view of a JSON value.
pub open spec fn json_view(json: Json) -> JsonView
    decreases json,
{
    match json {
        Json::Null => JsonView::Null,
        Json::Bool(b) => JsonView::Bool(b),
        Json::Number(n) => JsonView::Number(n),
        Json::String(s) => JsonView::String(s@),
        Json::Array(items) => JsonView::Array(items_view(items@)),
        Json::Object(map) => JsonView::Object(members_view(map.entries@)),
    }
}

/// The views of an array's items.
pub open spec fn items_view(items: Seq<Json>) -> Seq<JsonView>
    decreases items,
{
    Seq::new(
        items.len(),
        |i: int|
            if 0 <= i < items.len() {
                json_view(items[i])
            } else {
                JsonView::Null
            },
    )
}

/// The views of an object's members: a later entry for a key hides an earlier one.
pub open spec fn members_view(entries: Seq<(String, Json)>) -> Map<Seq<char>, JsonView>
    decreases entries,
{
    if entries.len() == 0 {
        Map::empty()
    } else {
        members_view(entries.drop_last()).insert(entries.last().0@, json_view(entries.last().1))
    }
}

impl View for Json {
    type V = JsonView;

    open spec fn view(&self) -> JsonView {
        json_view(*self)
    }
}

/// The members of an object by their keys are the views of what its map holds.
pub proof fn lemma_members(entries: Seq<(String, Json)>)
    ensures
        members_view(entries).dom() == entries_map(entries).dom(),
        forall|key: Seq<char>|
            #![trigger members_view(entries)[key]]
            #![trigger entries_map(entries)[key]]
            members_view(entries).contains_key(key) ==> members_view(entries)[key]
                == entries_map(entries)[key]@,
    decreases entries.len(),
{
    if entries.len() > 0 {
        lemma_members(entries.drop_last());
    }
    assert(members_view(entries).dom() =~= entries_map(entries).dom());
}

/// One more item is one more view.
pub proof fn lemma_items_push(items: Seq<Json>, item: Json)
    ensures
        items_view(items.push(item)) == items_view(items).push(item@),
{
    assert(items_view(items.push(item)) =~= items_view(items).push(item@));
}

/// An array is larger than each of its items, and an object than each of its members.
pub proof fn lemma_smaller(json: Json, i: int)
    ensures
        json matches Json::Array(items) ==> (0 <= i < items@.len() ==> decreases_to!(
            json => items@[i]
        )),
        json matches Json::Object(map) ==> (0 <= i < map.entries@.len() ==> decreases_to!(
            json => map.entries@[i].1
        )),
{
    match json {
        Json::Array(items) => {
            if 0 <= i < items@.len() {
                assert(decreases_to!(items@ => items@[i]));
                assert(decreases_to!(items => items@));
                assert(decreases_to!(json => items));
            }
        },
        Json::Object(map) => {
            if 0 <= i < map.entries@.len() {
                assert(decreases_to!(map.entries@[i] => map.entries@[i].1));
                assert(decreases_to!(map.entries@ => map.entries@[i]));
                assert(decreases_to!(map.entries => map.entries@));
                assert(decreases_to!(map => map.entries));
                assert(decreases_to!(json => map));
            }
        },
        _ => {},
    }
}

/// What an array says is larger than what each item says, and what an object says
/// than what each member says.
pub proof fn lemma_smaller_view(json: JsonView, i: int, key: Seq<char>)
    ensures
        json matches JsonView::Array(items) ==> (0 <= i < items.len() ==> decreases_to!(
            json => items[i]
        )),
        json matches JsonView::Object(members) ==> (members.contains_key(key) ==> decreases_to!(
            json => members[key]
        )),
{
    match json {
        JsonView::Array(items) => {
            if 0 <= i < items.len() {
                assert(decreases_to!(items => items[i]));
                assert(decreases_to!(json => items));
            }
        },
        JsonView::Object(members) => {
            if members.contains_key(key) {
                assert(decreases_to!(json => json->Object_0[key]));
            }
        },
        _ => {},
    }
}

impl Json {
    /// The JSON string that holds `text`.
    pub fn text(text: &str) -> (json: Json)
        ensures
            json@ == JsonView::String(text@),
    {
        Json::String(text.to_owned())
    }

    /// The member of an object, if this is one and it has that member.
    pub fn get(&self, key: &str) -> (member: Option<&Json>)
        ensures
            match member {
                Some(value) => self@ is Object && self@->Object_0.contains_key(key@) && value@
                    == self@->Object_0[key@],
                None => self@ is Object ==> !self@->Object_0.contains_key(key@),
            },
    {
        match self {
            Json::Object(map) => {
                proof {
                    lemma_members(map.entries@);
                }
                map.get(key)
            },
            _ => None,
        }
    }
}

impl Clone for Json {
    fn clone(&self) -> (copy: Json)
        ensures
            copy@ == self@,
        decreases self,
    {
        match self {
            Json::Null => Json::Null,
            Json::Bool(b) => Json::Bool(*b),
            Json::Number(n) => Json::Number(n.clone()),
            Json::String(s) => Json::String(s.clone()),
            Json::Array(items) => {
                let mut copies: Vec<Json> = Vec::new();
                let mut i: usize = 0;
                while i < items.len()
                    invariant
                        i <= items@.len(),
                        self == Json::Array(*items),
                        items_view(copies@) == items_view(items@).take(i as int),
                    decreases items@.len() - i,
                {
                    proof {
                        lemma_smaller(*self, i as int);
                    }
                    let copy = items[i].clone();
                    proof {
                        lemma_items_push(copies@, copy);
                        assert(items_view(items@).take(i + 1) =~= items_view(items@).take(
                            i as int,
                        ).push(items@[i as int]@));
                    }
                    copies.push(copy);
                    i += 1;
                }
                assert(items_view(items@).take(items@.len() as int) =~= items_view(items@));
                Json::Array(copies)
            },
            Json::Object(map) => {
                let mut copies: Vec<(String, Json)> = Vec::new();
                let mut i: usize = 0;
                while i < map.entries.len()
                    invariant
                        i <= map.entries@.len(),
                        self == Json::Object(*map),
                        members_view(copies@) == members_view(map.entries@.take(i as int)),
                    decreases map.entries@.len() - i,
                {
                    let ghost before = copies@;
                    proof {
                        lemma_smaller(*self, i as int);
                    }
                    let key = map.entries[i].0.clone();
                    let copy = map.entries[i].1.clone();
                    copies.push((key, copy));
                    assert(copies@.drop_last() =~= before);
                    assert(map.entries@.take(i + 1).drop_last() =~= map.entries@.take(i as int));
                    i += 1;
                }
                assert(map.entries@.take(i as int) =~= map.entries@);
                Json::Object(StrMap { entries: copies })
            },
        }
    }
}

/// Holds `value` as the member `key` of an object from now on.
pub fn insert_member(members: &mut StrMap<Json>, key: &str, value: Json)
    ensures
        members_view(final(members).entries@) == members_view(old(members).entries@).insert(
            key@,
            value@,
        ),
{
    proof {
        lemma_members(members.entries@);
    }
    members.insert(key.to_owned(), value);
    proof {
        lemma_members(members.entries@);
        assert(members_view(members.entries@) =~= members_view(old(members).entries@).insert(
            key@,
            value@,
        ));
    }
}

} // verus!
