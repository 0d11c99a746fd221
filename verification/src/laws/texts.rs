//! What the operations on texts and maps give.

use vstd::prelude::*;

use crate::json::Json;
use crate::laws::context::lemma_trimmed_end;
use crate::serde_value::{json_from_value, value_json};
use crate::str_map::StrMap;
use crate::text::{replace_all, replaced, trim_end, trim_start, trimmed_start};

verus! {

/// Trimming the end takes away the whole run of a character there, and nothing else.
pub proof fn law_trim_end_takes_the_run(text: &str, c: char, trimmed: String)
    requires
        call_ensures(trim_end, (text, c), trimmed),
    ensures
        trimmed@.is_prefix_of(text@),
        forall|i: int| trimmed@.len() <= i < text@.len() ==> text@[i] == c,
        trimmed@.len() > 0 ==> trimmed@.last() != c,
{
    lemma_trimmed_end(text@, c);
}

/// What is left of a text without the run of a character at its start.
pub proof fn lemma_start_run(text: Seq<char>, c: char)
    ensures
        trimmed_start(text, c).len() > 0 ==> trimmed_start(text, c).first() != c,
        trimmed_start(text, c).len() <= text.len(),
        trimmed_start(text, c) == text.skip(text.len() - trimmed_start(text, c).len()),
        forall|i: int| 0 <= i < text.len() - trimmed_start(text, c).len() ==> text[i] == c,
    decreases text.len(),
{
    if text.len() > 0 && text.first() == c {
        let rest = text.drop_first();
        lemma_start_run(rest, c);
        let left = trimmed_start(rest, c);
        assert(left =~= text.skip(text.len() - left.len()));
        assert forall|i: int| 0 <= i < text.len() - left.len() implies text[i] == c by {
            if i > 0 {
                assert(rest[i - 1] == c);
            }
        }
    } else {
        assert(text =~= text.skip(0));
    }
}

/// Trimming the start takes away the whole run of a character there, and nothing else.
pub proof fn law_trim_start_takes_the_run(text: &str, c: char, trimmed: String)
    requires
        call_ensures(trim_start, (text, c), trimmed),
    ensures
        trimmed@.len() <= text@.len(),
        trimmed@ == text@.skip(text@.len() - trimmed@.len()),
        forall|i: int| 0 <= i < text@.len() - trimmed@.len() ==> text@[i] == c,
        trimmed@.len() > 0 ==> trimmed@.first() != c,
{
    lemma_start_run(text@, c);
}

/// A pattern stands in a text at a position.
pub open spec fn stands_at(text: Seq<char>, pattern: Seq<char>, i: int) -> bool {
    0 <= i && i + pattern.len() <= text.len() && text.subrange(i, i + pattern.len()) == pattern
}

/// What comes before the first occurrence of a pattern stays.
proof fn lemma_replaced_first(
    before: Seq<char>,
    rest: Seq<char>,
    pattern: Seq<char>,
    with: Seq<char>,
)
    requires
        pattern.len() > 0,
        forall|i: int| 0 <= i < before.len() ==> !stands_at(before + rest, pattern, i),
    ensures
        replaced(before + rest, pattern, with) == before + replaced(rest, pattern, with),
    decreases before.len(),
{
    let text = before + rest;
    if before.len() == 0 {
        assert(text =~= rest);
        assert(replaced(text, pattern, with) =~= before + replaced(rest, pattern, with));
    } else if text.len() >= pattern.len() {
        assert(!stands_at(text, pattern, 0));
        assert(text.take(pattern.len() as int) =~= text.subrange(0, pattern.len() as int));
        let after = before.skip(1);
        assert(text.skip(1) =~= after + rest);
        assert forall|i: int| 0 <= i < after.len() implies !stands_at(after + rest, pattern, i) by {
            assert(!stands_at(text, pattern, i + 1));
            if stands_at(after + rest, pattern, i) {
                assert((after + rest).subrange(i, i + pattern.len()) =~= text.subrange(
                    i + 1,
                    i + 1 + pattern.len(),
                ));
            }
        }
        lemma_replaced_first(after, rest, pattern, with);
        assert(replaced(text, pattern, with) =~= before + replaced(rest, pattern, with));
    } else {
        assert(replaced(text, pattern, with) =~= before + replaced(rest, pattern, with));
    }
}

/// A text in which a pattern stands nowhere is left as it is.
pub proof fn law_nothing_to_replace(text: &str, pattern: &str, with: &str, result: String)
    requires
        call_ensures(replace_all, (text, pattern, with), result),
        pattern@.len() > 0,
        forall|i: int| !stands_at(text@, pattern@, i),
    ensures
        result@ == text@,
{
    assert(text@ + Seq::empty() =~= text@);
    lemma_replaced_first(text@, Seq::empty(), pattern@, with@);
    assert(text@ + Seq::empty() =~= text@);
}

/// The first occurrence of a pattern is replaced, what comes before it stays, and in
/// what comes after it the same is done.
pub proof fn law_first_occurrence_is_replaced(
    before: Seq<char>,
    rest: &str,
    text: &str,
    pattern: &str,
    with: &str,
    result: String,
    rest_result: String,
)
    requires
        call_ensures(replace_all, (text, pattern, with), result),
        call_ensures(replace_all, (rest, pattern, with), rest_result),
        pattern@.len() > 0,
        text@ == before + pattern@ + rest@,
        forall|i: int| 0 <= i < before.len() ==> !stands_at(text@, pattern@, i),
    ensures
        result@ == before + with@ + rest_result@,
{
    let tail = pattern@ + rest@;
    assert(text@ =~= before + tail);
    lemma_replaced_first(before, tail, pattern@, with@);
    assert(tail.take(pattern@.len() as int) =~= pattern@);
    assert(tail.skip(pattern@.len() as int) =~= rest@);
    assert(result@ =~= before + with@ + rest_result@);
}

/// A map holds what was inserted last for a key, and all other keys as before.
pub proof fn law_insert_then_get(
    map: &mut StrMap<Json>,
    key: String,
    value: Json,
    other: &str,
    before: Option<&Json>,
    after: Option<&Json>,
)
    requires
        call_ensures(StrMap::<Json>::get, (old(map), other), before),
        call_ensures(StrMap::<Json>::insert, (map, key, value), ()),
        call_ensures(StrMap::<Json>::get, (final(map), other), after),
    ensures
        other@ == key@ ==> after == Some(&value),
        other@ != key@ ==> after == before,
{
}

/// A JSON value survives being turned into a `serde_json::Value` and back.
pub proof fn law_values_survive(json: Json, value: serde_json::Value, back: Json)
    requires
        call_ensures(Json::to_value, (&json,), value),
        call_ensures(json_from_value, (value,), back),
    ensures
        back@ == json@,
        value_json(value) == json@,
{
}

} // verus!
