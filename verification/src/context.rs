//! Context that callers hand over as a map of texts.

use vstd::prelude::*;

use std::collections::HashMap;
use vstd::std_specs::iter::IteratorSpec;

use crate::document::map_view;
use crate::http::pairs_view;
use crate::str_map::StrMap;

verus! {

/// A list holds the entries of a map: each key once, with its value, in some order.
pub open spec fn enumerates(
    entries: Seq<(Seq<char>, Seq<char>)>,
    map: Map<Seq<char>, Seq<char>>,
) -> bool {
    &&& forall|i: int, j: int|
        0 <= i < j < entries.len() ==> (#[trigger] entries[i]).0 != (#[trigger] entries[j]).0
    &&& forall|i: int|
        0 <= i < entries.len() ==> map.contains_key((#[trigger] entries[i]).0) && map[entries[i].0]
            == entries[i].1
    &&& forall|key: Seq<char>| #[trigger]
        map.contains_key(key) ==> exists|i: int| 0 <= i < entries.len() && entries[i].0 == key
}

/// `HashMap::iter` of std over texts: every entry once, in an order that is not told.
#[verifier::external_body]
fn walk<'a>(map: &'a HashMap<String, String>) -> (iter: std::collections::hash_map::Iter<
    'a,
    String,
    String,
>)
    ensures
        enumerates(
            IteratorSpec::remaining(&iter).map_values(|e: (&String, &String)| (e.0@, e.1@)),
            map.deep_view(),
        ),
        IteratorSpec::decrease(&iter) is Some,
        IteratorSpec::initial_value_relation(&iter, &iter),
{
    map.iter()
}

/// The entries of a map, in some order.
pub fn context_entries(map: &HashMap<String, String>) -> (entries: Vec<(String, String)>)
    ensures
        enumerates(pairs_view(entries@), map.deep_view()),
{
    let mut entries: Vec<(String, String)> = Vec::new();
    let iter = walk(map);
    let ghost all = IteratorSpec::remaining(&iter);
    for entry in it: iter
        invariant
            it.seq() == all,
            entries@.len() == it.index(),
            forall|i: int|
                0 <= i < entries@.len() ==> (#[trigger] entries@[i]).0@ == all[i].0@
                    && entries@[i].1@ == all[i].1@,
    {
        entries.push((entry.0.clone(), entry.1.clone()));
    }
    assert(pairs_view(entries@) =~= all.map_values(|e: (&String, &String)| (e.0@, e.1@)));
    entries
}

/// What a list of entries means as a map.
pub open spec fn listed_texts(entries: Seq<(Seq<char>, Seq<char>)>) -> Map<Seq<char>, Seq<char>>
    decreases entries.len(),
{
    if entries.len() == 0 {
        Map::empty()
    } else {
        listed_texts(entries.drop_last()).insert(entries.last().0, entries.last().1)
    }
}

/// A list that holds the entries of a map means that map.
pub proof fn lemma_enumerated(
    entries: Seq<(Seq<char>, Seq<char>)>,
    map: Map<Seq<char>, Seq<char>>,
)
    requires
        enumerates(entries, map),
    ensures
        listed_texts(entries) == map,
{
    lemma_listed_texts(entries);
    assert forall|key: Seq<char>| #[trigger] map.contains_key(key) implies listed_texts(
        entries,
    ).contains_key(key) && listed_texts(entries)[key] == map[key] by {
        let i = choose|i: int| 0 <= i < entries.len() && entries[i].0 == key;
        assert(entries[i].0 == key);
    }
    assert(listed_texts(entries) =~= map);
}

/// With each key once, a list means each of its entries and nothing else.
proof fn lemma_listed_texts(entries: Seq<(Seq<char>, Seq<char>)>)
    requires
        forall|i: int, j: int|
            0 <= i < j < entries.len() ==> (#[trigger] entries[i]).0 != (#[trigger] entries[j]).0,
    ensures
        forall|i: int|
            0 <= i < entries.len() ==> listed_texts(entries).contains_key(
                (#[trigger] entries[i]).0,
            ) && listed_texts(entries)[entries[i].0] == entries[i].1,
        forall|key: Seq<char>| #[trigger]
            listed_texts(entries).contains_key(key) ==> exists|i: int|
                0 <= i < entries.len() && entries[i].0 == key,
    decreases entries.len(),
{
    if entries.len() > 0 {
        let front = entries.drop_last();
        lemma_listed_texts(front);
        assert forall|i: int| 0 <= i < entries.len() implies listed_texts(entries).contains_key(
            (#[trigger] entries[i]).0,
        ) && listed_texts(entries)[entries[i].0] == entries[i].1 by {
            if i < front.len() {
                assert(front[i] == entries[i]);
                assert(entries[i].0 != entries[entries.len() - 1].0);
            }
        }
        assert forall|key: Seq<char>| #[trigger] listed_texts(entries).contains_key(
            key,
        ) implies exists|i: int| 0 <= i < entries.len() && entries[i].0 == key by {
            if key == entries.last().0 {
                assert(entries[entries.len() - 1].0 == key);
            } else {
                assert(listed_texts(front).contains_key(key));
                let i = choose|i: int| 0 <= i < front.len() && front[i].0 == key;
                assert(entries[i].0 == key);
            }
        }
    }
}

/// Adds entries to a map; a new value for a key takes the place of the old one.
pub fn extend_texts(map: &mut StrMap<String>, entries: &Vec<(String, String)>)
    ensures
        forall|context: Map<Seq<char>, Seq<char>>| #[trigger]
            enumerates(pairs_view(entries@), context) ==> map_view(*final(map)) == map_view(
                *old(map),
            ).union_prefer_right(context),
{
    let ghost before = map_view(*map);
    let ghost listed = pairs_view(entries@);
    let mut i: usize = 0;
    assert(map_view(*map) =~= before.union_prefer_right(listed_texts(listed.take(0))));
    while i < entries.len()
        invariant
            i <= entries@.len(),
            listed == pairs_view(entries@),
            map_view(*map) == before.union_prefer_right(listed_texts(listed.take(i as int))),
        decreases entries@.len() - i,
    {
        assert(listed.take(i + 1).drop_last() =~= listed.take(i as int));
        let key = entries[i].0.clone();
        let value = entries[i].1.clone();
        let ghost held = *map;
        map.insert(key, value);
        assert(map_view(*map) =~= map_view(held).insert(key@, value@));
        assert(map_view(*map) =~= before.union_prefer_right(listed_texts(listed.take(i + 1))));
        i += 1;
    }
    proof {
        assert(listed.take(i as int) =~= listed);
        assert forall|context: Map<Seq<char>, Seq<char>>| #[trigger]
            enumerates(pairs_view(entries@), context) implies map_view(*map)
            == before.union_prefer_right(context) by {
            lemma_enumerated(listed, context);
        }
    }
}

} // verus!
