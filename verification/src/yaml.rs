//! YAML values of the `serde_yaml` crate, and which texts `openapiv3` reads or refuses
//! at the first try.

use vstd::prelude::*;

use crate::text::same_text;

verus! {

/// Declares `serde_yaml::Error`, the reason why a text is not read.
#[verifier::external_type_specification]
#[verifier::external_body]
pub struct ExYamlError(serde_yaml::Error);

/// Declares `serde_yaml::Value`; [`yaml_view`] is what one says.
#[verifier::external_type_specification]
#[verifier::external_body]
pub struct ExYamlValue(serde_yaml::Value);

/// Declares `serde_yaml::Number`; [`is_finite_number`] tells the finite ones.
#[verifier::external_type_specification]
#[verifier::external_body]
pub struct ExYamlNumber(serde_yaml::Number);

/// What a YAML value says. Null and the booleans are not told apart, and what has a
/// tag is not looked into.
pub ghost enum YamlView {
    Plain,
    Number(serde_yaml::Number),
    Text(Seq<char>),
    Sequence(Seq<YamlView>),
    Mapping(Seq<(YamlView, YamlView)>),
    Tagged,
}

/// A `serde_yaml::Value` taken apart by one level.
pub enum YamlParts {
    Plain,
    Number(serde_yaml::Number),
    Text(String),
    Sequence(Vec<serde_yaml::Value>),
    Mapping(Vec<(serde_yaml::Value, serde_yaml::Value)>),
    Tagged,
}

/// What a `serde_yaml::Value` says.
pub uninterp spec fn yaml_view(value: serde_yaml::Value) -> YamlView;

/// The YAML value that `serde_yaml` reads from a text, if it reads one.
pub uninterp spec fn text_yaml(text: Seq<char>) -> Option<YamlView>;

/// Whether a number is neither infinite nor not a number.
pub uninterp spec fn is_finite_number(number: serde_yaml::Number) -> bool;

/// Whether `openapiv3` reads every item of a text that may be a reference at its first
/// try, or not at all. Where the first try fails it tries again, from a
/// `serde_json::Value`, and panics if it reads the item then.
pub uninterp spec fn reads_once(text: Seq<char>) -> bool;

/// What the value with these parts says.
pub open spec fn parts_view(parts: YamlParts) -> YamlView {
    match parts {
        YamlParts::Plain => YamlView::Plain,
        YamlParts::Number(n) => YamlView::Number(n),
        YamlParts::Text(text) => YamlView::Text(text@),
        YamlParts::Sequence(items) => YamlView::Sequence(
            items@.map_values(|item: serde_yaml::Value| yaml_view(item)),
        ),
        YamlParts::Mapping(entries) => YamlView::Mapping(
            entries@.map_values(
                |entry: (serde_yaml::Value, serde_yaml::Value)|
                    (yaml_view(entry.0), yaml_view(entry.1)),
            ),
        ),
        YamlParts::Tagged => YamlView::Tagged,
    }
}

/// A mapping has a key.
pub open spec fn has_key(entries: Seq<(YamlView, YamlView)>, key: Seq<char>) -> bool {
    exists|i: int| 0 <= i < entries.len() && (#[trigger] entries[i]).0 == YamlView::Text(key)
}

/// A second try at a value, from a `serde_json::Value`, sees what the first one saw: all
/// numbers are finite, and no mapping has two keys of which the first one that is met
/// decides. Values with tags are left out.
pub open spec fn reads_alike(yaml: YamlView) -> bool
    decreases yaml,
{
    match yaml {
        YamlView::Plain => true,
        YamlView::Number(n) => is_finite_number(n),
        YamlView::Text(_) => true,
        YamlView::Sequence(items) => forall|i: int|
            0 <= i < items.len() ==> reads_alike(#[trigger] items[i]),
        YamlView::Mapping(entries) => {
            &&& !(has_key(entries, "schema"@) && has_key(entries, "content"@))
            &&& !(has_key(entries, "operationRef"@) && has_key(entries, "operationId"@))
            &&& forall|i: int|
                0 <= i < entries.len() ==> reads_alike((#[trigger] entries[i]).0) && reads_alike(
                    entries[i].1,
                )
        },
        YamlView::Tagged => false,
    }
}

/// `serde_yaml::Number::is_finite`.
pub assume_specification[ serde_yaml::Number::is_finite ](number: &serde_yaml::Number) -> (finite:
    bool)
    ensures
        finite == is_finite_number(*number),
;

/// Takes a `serde_yaml::Value` apart: each variant hands out what it holds, but for the
/// plain ones and those with a tag.
#[verifier::external_body]
fn take_yaml_apart(value: serde_yaml::Value) -> (parts: YamlParts)
    ensures
        yaml_view(value) == parts_view(parts),
{
    match value {
        serde_yaml::Value::Null => YamlParts::Plain,
        serde_yaml::Value::Bool(_) => YamlParts::Plain,
        serde_yaml::Value::Number(n) => YamlParts::Number(n),
        serde_yaml::Value::String(text) => YamlParts::Text(text),
        serde_yaml::Value::Sequence(items) => YamlParts::Sequence(items),
        serde_yaml::Value::Mapping(map) => YamlParts::Mapping(map.into_iter().collect()),
        serde_yaml::Value::Tagged(_) => YamlParts::Tagged,
    }
}

/// `serde_yaml::from_str` into a `serde_yaml::Value`: whether there is one, and what it
/// says, is decided by the text. A text in which a mapping has a key twice has none.
///
/// The second try of `openapiv3` is made from a `serde_json::Value`. It differs from the
/// first where a key stands twice, where a number is not finite, and in the order of
/// the keys. The order decides only which key of a flattened enum is taken: `schema` or
/// `content`, `operationRef` or `operationId`.
#[verifier::external_body]
fn read_yaml(text: &str) -> (read: Result<serde_yaml::Value, serde_yaml::Error>)
    ensures
        match read {
            Ok(value) => text_yaml(text@) == Some(yaml_view(value)),
            Err(_) => text_yaml(text@) is None,
        },
        read matches Ok(value) ==> (reads_alike(yaml_view(value)) ==> reads_once(text@)),
{
    serde_yaml::from_str(text)
}

/// Whether a value is this text.
fn is_text(parts: &YamlParts, text: &str) -> (is: bool)
    ensures
        is == (parts_view(*parts) == YamlView::Text(text@)),
{
    match parts {
        YamlParts::Text(held) => same_text(held.as_str(), text),
        _ => false,
    }
}

/// A mapping with one more entry has its key too.
proof fn lemma_has_key(entries: Seq<(YamlView, YamlView)>, i: int, key: Seq<char>)
    requires
        0 <= i < entries.len(),
    ensures
        has_key(entries.take(i + 1), key) == (has_key(entries.take(i), key) || entries[i].0
            == YamlView::Text(key)),
{
    let more = entries.take(i + 1);
    let less = entries.take(i);
    if has_key(less, key) {
        let j = choose|j: int|
            0 <= j < less.len() && (#[trigger] less[j]).0 == YamlView::Text(key);
        assert(more[j].0 == YamlView::Text(key));
    }
    if entries[i].0 == YamlView::Text(key) {
        assert(more[i].0 == YamlView::Text(key));
    }
    if has_key(more, key) {
        let j = choose|j: int|
            0 <= j < more.len() && (#[trigger] more[j]).0 == YamlView::Text(key);
        if j < i {
            assert(less[j].0 == YamlView::Text(key));
        }
    }
}

/// Whether a second try at the entries of a mapping sees what the first one saw.
fn entries_read_alike(entries: Vec<(serde_yaml::Value, serde_yaml::Value)>) -> (alike: bool)
    ensures
        alike == reads_alike(parts_view(YamlParts::Mapping(entries))),
    decreases parts_view(YamlParts::Mapping(entries)), 0int,
{
    let ghost whole = parts_view(YamlParts::Mapping(entries));
    let ghost views = whole->Mapping_0;
    let mut alike = true;
    let mut schema = false;
    let mut content = false;
    let mut reference = false;
    let mut id = false;
    for entry in it: entries.into_iter()
        invariant
            it.seq() == entries@,
            whole == parts_view(YamlParts::Mapping(entries)),
            views == whole->Mapping_0,
            alike == (forall|i: int|
                0 <= i < it.index() ==> reads_alike((#[trigger] views[i]).0) && reads_alike(
                    views[i].1,
                )),
            schema == has_key(views.take(it.index() as int), "schema"@),
            content == has_key(views.take(it.index() as int), "content"@),
            reference == has_key(views.take(it.index() as int), "operationRef"@),
            id == has_key(views.take(it.index() as int), "operationId"@),
    {
        let ghost at = it.index() as int;
        proof {
            assert(views[at] == (yaml_view(entry.0), yaml_view(entry.1)));
            assert(decreases_to!(views[at] => views[at].0));
            assert(decreases_to!(views[at] => views[at].1));
            assert(decreases_to!(views => views[at]));
            assert(decreases_to!(whole => views));
            lemma_has_key(views, at, "schema"@);
            lemma_has_key(views, at, "content"@);
            lemma_has_key(views, at, "operationRef"@);
            lemma_has_key(views, at, "operationId"@);
        }
        let key = take_yaml_apart(entry.0);
        schema = schema || is_text(&key, "schema");
        content = content || is_text(&key, "content");
        reference = reference || is_text(&key, "operationRef");
        id = id || is_text(&key, "operationId");
        let key_alike = parts_read_alike(key);
        let value_alike = parts_read_alike(take_yaml_apart(entry.1));
        alike = alike && key_alike && value_alike;
    }
    assert(views.take(views.len() as int) =~= views);
    alike && !(schema && content) && !(reference && id)
}

/// Whether a second try at the items of a sequence sees what the first one saw.
fn items_read_alike(items: Vec<serde_yaml::Value>) -> (alike: bool)
    ensures
        alike == reads_alike(parts_view(YamlParts::Sequence(items))),
    decreases parts_view(YamlParts::Sequence(items)), 0int,
{
    let ghost whole = parts_view(YamlParts::Sequence(items));
    let ghost views = whole->Sequence_0;
    let mut alike = true;
    for item in it: items.into_iter()
        invariant
            it.seq() == items@,
            whole == parts_view(YamlParts::Sequence(items)),
            views == whole->Sequence_0,
            alike == (forall|i: int| 0 <= i < it.index() ==> reads_alike(#[trigger] views[i])),
    {
        let ghost at = it.index() as int;
        proof {
            assert(views[at] == yaml_view(item));
            assert(decreases_to!(views => views[at]));
            assert(decreases_to!(whole => views));
        }
        let item_alike = parts_read_alike(take_yaml_apart(item));
        alike = alike && item_alike;
    }
    alike
}

/// Whether a second try at a value sees what the first one saw.
fn parts_read_alike(parts: YamlParts) -> (alike: bool)
    ensures
        alike == reads_alike(parts_view(parts)),
    decreases parts_view(parts), 1int,
{
    match parts {
        YamlParts::Plain => true,
        YamlParts::Number(n) => n.is_finite(),
        YamlParts::Text(_) => true,
        YamlParts::Sequence(items) => items_read_alike(items),
        YamlParts::Mapping(entries) => entries_read_alike(entries),
        YamlParts::Tagged => false,
    }
}

/// A text is sure to be read, or refused, at the first try.
pub open spec fn is_sure_text(text: Seq<char>) -> bool {
    match text_yaml(text) {
        Some(yaml) => reads_alike(yaml),
        None => false,
    }
}

/// Whether a text is sure to be read, or refused, at the first try.
pub fn surely_reads_once(text: &str) -> (sure: bool)
    ensures
        sure == is_sure_text(text@),
        sure ==> reads_once(text@),
{
    match read_yaml(text) {
        Ok(value) => parts_read_alike(take_yaml_apart(value)),
        Err(_) => false,
    }
}

} // verus!
