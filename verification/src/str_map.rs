//! A map keyed by text, kept as a list of entries.

use vstd::prelude::*;

use crate::text::same_text;

verus! {

/// A map from text to `V`. Where two entries have the same key, the later one
/// holds.
#[derive(Debug, PartialEq)]
pub struct StrMap<V> {
    pub entries: Vec<(String, V)>,
}

/// What a list of entries means as a map: the entries inserted in order.
pub open spec fn entries_map<V>(entries: Seq<(String, V)>) -> Map<Seq<char>, V>
    decreases entries.len(),
{
    if entries.len() == 0 {
        Map::empty()
    } else {
        entries_map(entries.drop_last()).insert(entries.last().0@, entries.last().1)
    }
}

impl<V> View for StrMap<V> {
    type V = Map<Seq<char>, V>;

    open spec fn view(&self) -> Map<Seq<char>, V> {
        entries_map(self.entries@)
    }
}

/// `at` is where the last entry for `key` stands, if there is one.
pub open spec fn is_last_entry<V>(
    entries: Seq<(String, V)>,
    key: Seq<char>,
    at: Option<int>,
) -> bool {
    match at {
        Some(i) => {
            &&& 0 <= i < entries.len()
            &&& entries[i].0@ == key
            &&& forall|j: int| i < j < entries.len() ==> (#[trigger] entries[j]).0@ != key
        },
        None => forall|j: int| 0 <= j < entries.len() ==> (#[trigger] entries[j]).0@ != key,
    }
}

/// The last entry for a key is what the map holds for it.
pub proof fn lemma_last_entry<V>(entries: Seq<(String, V)>, key: Seq<char>, at: Option<int>)
    requires
        is_last_entry(entries, key, at),
    ensures
        entries_map(entries).contains_key(key) == (at is Some),
        at matches Some(i) ==> entries_map(entries)[key] == entries[i].1,
    decreases entries.len(),
{
    if entries.len() > 0 {
        let front = entries.drop_last();
        assert(forall|j: int| 0 <= j < front.len() ==> (#[trigger] front[j]) == entries[j]);
        if at != Some(entries.len() - 1) {
            assert(entries[entries.len() - 1].0@ != key);
            lemma_last_entry(front, key, at);
        }
    }
}

/// A map of entries has finitely many keys.
pub proof fn lemma_entries_finite<V>(entries: Seq<(String, V)>)
    ensures
        entries_map(entries).dom().finite(),
    decreases entries.len(),
{
    if entries.len() > 0 {
        lemma_entries_finite(entries.drop_last());
    }
}

/// Replacing the value of a key's last entry replaces what the map holds for it.
pub proof fn lemma_update_last<V>(
    entries: Seq<(String, V)>,
    key: Seq<char>,
    at: int,
    entry: (String, V),
)
    requires
        is_last_entry(entries, key, Some(at)),
        entry.0@ == key,
    ensures
        entries_map(entries.update(at, entry)) == entries_map(entries).insert(key, entry.1),
    decreases entries.len(),
{
    let front = entries.drop_last();
    let updated = entries.update(at, entry);
    if at == entries.len() - 1 {
        assert(updated.drop_last() =~= front);
        assert(entries_map(updated) =~= entries_map(entries).insert(key, entry.1));
    } else {
        assert(forall|j: int| 0 <= j < front.len() ==> (#[trigger] front[j]) == entries[j]);
        assert(entries[entries.len() - 1].0@ != key);
        lemma_update_last(front, key, at, entry);
        assert(updated.drop_last() =~= front.update(at, entry));
        assert(entries_map(updated) =~= entries_map(entries).insert(key, entry.1));
    }
}

impl<V> StrMap<V> {
    /// The map without entries.
    pub fn new() -> (map: Self)
        ensures
            map@ == Map::<Seq<char>, V>::empty(),
            map.entries@ == Seq::<(String, V)>::empty(),
    {
        StrMap { entries: Vec::new() }
    }

    /// Where the entry that holds for `key` stands.
    fn position(&self, key: &str) -> (at: Option<usize>)
        ensures
            is_last_entry(
                self.entries@,
                key@,
                match at {
                    Some(i) => Some(i as int),
                    None => None,
                },
            ),
    {
        let mut i: usize = self.entries.len();
        while i > 0
            invariant
                i <= self.entries@.len(),
                forall|j: int|
                    i <= j < self.entries@.len() ==> (#[trigger] self.entries@[j]).0@ != key@,
            decreases i,
        {
            i -= 1;
            if same_text(self.entries[i].0.as_str(), key) {
                return Some(i);
            }
        }
        None
    }

    /// The value held for `key`.
    pub fn get(&self, key: &str) -> (value: Option<&V>)
        ensures
            value == (if self@.contains_key(key@) {
                Some(&self@[key@])
            } else {
                None
            }),
    {
        match self.position(key) {
            Some(i) => {
                proof {
                    lemma_last_entry(self.entries@, key@, Some(i as int));
                }
                Some(&self.entries[i].1)
            },
            None => {
                proof {
                    lemma_last_entry(self.entries@, key@, None);
                }
                None
            },
        }
    }

    /// Whether a value is held for `key`.
    pub fn contains_key(&self, key: &str) -> (held: bool)
        ensures
            held == self@.contains_key(key@),
    {
        self.get(key).is_some()
    }

    /// Holds `value` for `key` from now on.
    pub fn insert(&mut self, key: String, value: V)
        ensures
            final(self)@ == old(self)@.insert(key@, value),
    {
        let ghost before = self.entries@;
        match self.position(key.as_str()) {
            Some(i) => {
                proof {
                    lemma_update_last(before, key@, i as int, (key, value));
                }
                self.entries.set(i, (key, value));
            },
            None => {
                self.entries.push((key, value));
                assert(self.entries@.drop_last() =~= before);
            },
        }
    }
}

} // verus!
