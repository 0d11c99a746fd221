//! Text as a sequence of characters: comparing, trimming, and replacing.

use vstd::prelude::*;

verus! {

/// `text` without the run of `c` at its end.
pub open spec fn trimmed_end(text: Seq<char>, c: char) -> Seq<char>
    decreases text.len(),
{
    if text.len() > 0 && text.last() == c {
        trimmed_end(text.drop_last(), c)
    } else {
        text
    }
}

/// `text` without the run of `c` at its start.
pub open spec fn trimmed_start(text: Seq<char>, c: char) -> Seq<char>
    decreases text.len(),
{
    if text.len() > 0 && text.first() == c {
        trimmed_start(text.drop_first(), c)
    } else {
        text
    }
}

/// `text` with every occurrence of `pattern` turned into `with`, found from the
/// left and without overlaps.
pub open spec fn replaced(text: Seq<char>, pattern: Seq<char>, with: Seq<char>) -> Seq<char>
    recommends
        pattern.len() > 0,
    decreases text.len(),
{
    if pattern.len() == 0 || text.len() < pattern.len() {
        text
    } else if text.take(pattern.len() as int) == pattern {
        with + replaced(text.skip(pattern.len() as int), pattern, with)
    } else {
        seq![text.first()] + replaced(text.skip(1), pattern, with)
    }
}

/// The characters of `text`, in order.
pub fn chars_of(text: &str) -> (chars: Vec<char>)
    ensures
        chars@ == text@,
{
    let mut chars: Vec<char> = Vec::new();
    for c in it: text.chars()
        invariant
            chars@ == it.seq().take(it.index() as int),
            it.seq() == text@,
    {
        chars.push(c);
    }
    chars
}

/// Whether two texts hold the same characters.
pub fn same_text(a: &str, b: &str) -> (same: bool)
    ensures
        same == (a@ == b@),
{
    a.to_owned() == b.to_owned()
}

/// Whether `pattern` stands in `chars` at position `at`.
pub fn matches_at(chars: &Vec<char>, at: usize, pattern: &Vec<char>) -> (found: bool)
    requires
        at <= chars@.len(),
    ensures
        found == pattern@.is_prefix_of(chars@.skip(at as int)),
{
    if chars.len() - at < pattern.len() {
        return false;
    }
    let mut i: usize = 0;
    while i < pattern.len()
        invariant
            at + pattern@.len() <= chars.len(),
            i <= pattern@.len(),
            forall|j: int| 0 <= j < i ==> pattern@[j] == #[trigger] chars@[at + j],
        decreases pattern@.len() - i,
    {
        if chars[at + i] != pattern[i] {
            assert(pattern@[i as int] != chars@.skip(at as int)[i as int]);
            return false;
        }
        i += 1;
    }
    assert(pattern@ =~= chars@.skip(at as int).take(pattern@.len() as int)) by {
        assert forall|j: int| 0 <= j < pattern@.len() implies pattern@[j] == chars@.skip(
            at as int,
        )[j] by {
            assert(chars@.skip(at as int)[j] == chars@[at + j]);
        }
    }
    true
}

/// `text` without its trailing `c` characters.
pub fn trim_end(text: &str, c: char) -> (trimmed: String)
    ensures
        trimmed@ == trimmed_end(text@, c),
{
    let chars = chars_of(text);
    let mut end: usize = chars.len();
    assert(chars@.take(end as int) =~= text@);
    while end > 0 && chars[end - 1] == c
        invariant
            end <= chars@.len(),
            chars@ == text@,
            trimmed_end(text@, c) == trimmed_end(text@.take(end as int), c),
        decreases end,
    {
        assert(text@.take(end as int).drop_last() =~= text@.take(end - 1));
        end -= 1;
    }
    assert(text@.take(end as int) =~= text@.subrange(0, end as int));
    text.substring_char(0, end).to_owned()
}

/// `text` without its leading `c` characters.
pub fn trim_start(text: &str, c: char) -> (trimmed: String)
    ensures
        trimmed@ == trimmed_start(text@, c),
{
    let chars = chars_of(text);
    let mut start: usize = 0;
    assert(chars@.skip(0) =~= text@);
    while start < chars.len() && chars[start] == c
        invariant
            start <= chars@.len(),
            chars@ == text@,
            trimmed_start(text@, c) == trimmed_start(text@.skip(start as int), c),
        decreases chars@.len() - start,
    {
        assert(text@.skip(start as int).drop_first() =~= text@.skip(start + 1));
        start += 1;
    }
    assert(text@.skip(start as int) =~= text@.subrange(start as int, text@.len() as int));
    text.substring_char(start, chars.len()).to_owned()
}

/// `text` with every occurrence of `pattern` turned into `with`.
pub fn replace_all(text: &str, pattern: &str, with: &str) -> (result: String)
    requires
        pattern@.len() > 0,
    ensures
        result@ == replaced(text@, pattern@, with@),
{
    let chars = chars_of(text);
    let wanted = chars_of(pattern);
    let mut result = String::new();
    let mut done: usize = 0;
    let mut at: usize = 0;
    assert(text@.skip(0) =~= text@);
    while at < chars.len()
        invariant
            done <= at <= chars@.len(),
            chars@ == text@,
            wanted@ == pattern@,
            pattern@.len() > 0,
            replaced(text@, pattern@, with@) == result@ + text@.subrange(done as int, at as int)
                + replaced(text@.skip(at as int), pattern@, with@),
        decreases chars@.len() - at,
    {
        let ghost rest = text@.skip(at as int);
        if matches_at(&chars, at, &wanted) {
            assert(rest.take(pattern@.len() as int) =~= pattern@);
            assert(rest.skip(pattern@.len() as int) =~= text@.skip(at + pattern@.len()));
            result.append(text.substring_char(done, at));
            result.append(with);
            at += wanted.len();
            done = at;
            assert(text@.subrange(done as int, at as int) =~= Seq::<char>::empty());
        } else {
            assert(rest.len() >= pattern@.len() ==> rest.take(pattern@.len() as int) != pattern@);
            assert(rest.skip(1) =~= text@.skip(at + 1));
            assert(seq![rest.first()] + replaced(rest.skip(1), pattern@, with@) =~= replaced(
                rest,
                pattern@,
                with@,
            ));
            assert(text@.subrange(done as int, at + 1) =~= text@.subrange(done as int, at as int)
                + seq![rest.first()]);
            at += 1;
        }
    }
    assert(text@.skip(at as int) =~= Seq::<char>::empty());
    result.append(text.substring_char(done, at));
    result
}

} // verus!
