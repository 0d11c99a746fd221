//! What the context of a request does to tools, and how a model is told of it.

use vstd::prelude::*;

use std::collections::HashMap;

use crate::context::{context_entries, enumerates};
use crate::http::pairs_view;
use crate::tool::OpenApiTool;
use crate::toolset::{context_lines, preamble, tools_view, with_context, OpenApiToolset};
use crate::yaml::{has_key, is_finite_number, reads_alike, surely_reads_once, text_yaml, YamlView};

verus! {

/// The tools of a request have the context as hidden parameters, in place of earlier
/// ones of the same names; they keep all other hidden parameters and all else.
pub proof fn law_tools_get_the_context(
    toolset: &OpenApiToolset,
    context: &HashMap<String, String>,
    tools: Vec<OpenApiTool>,
    i: int,
    name: Seq<char>,
)
    requires
        call_ensures(OpenApiToolset::tools_with_context, (toolset, context), tools),
    ensures
        tools@.len() == toolset.tools@.len(),
        0 <= i < tools@.len() ==> {
            let before = toolset.tools@[i];
            let after = tools@[i];
            &&& after.hidden_params@.contains_key(name) <==> before.hidden_params@.contains_key(
                name,
            ) || context.deep_view().contains_key(name)
            &&& context.deep_view().contains_key(name) ==> after.hidden_params@[name]@
                == context.deep_view()[name]
            &&& before.hidden_params@.contains_key(name) && !context.deep_view().contains_key(name)
                ==> after.hidden_params@[name]@ == before.hidden_params@[name]@
            &&& after.client == before.client
            &&& after.method == before.method
            &&& after.base_url@ == before.base_url@
            &&& after.path_template@ == before.path_template@
            &&& after.operation_id@ == before.operation_id@
            &&& after.description@ == before.description@
            &&& after.request_body_required == before.request_body_required
            &&& after@.request_body_schema == before@.request_body_schema
            &&& after@.parameters == before@.parameters
            &&& after@.fields == before@.fields
            &&& after@.static_query_params == before@.static_query_params
            &&& after@.basic_auth == before@.basic_auth
        },
{
    let view = tools_view(tools@);
    assert(view.len() == tools@.len());
    assert(toolset@.len() == toolset.tools@.len());
    if 0 <= i < tools@.len() {
        let before = toolset.tools@[i];
        let after = tools@[i];
        assert(view[i] == after@);
        assert(toolset@[i] == before@);
        assert(after@ == with_context(before@, context.deep_view()));
        assert(after@.hidden_params.contains_key(name) == after.hidden_params@.contains_key(name));
        assert(before@.hidden_params.contains_key(name) == before.hidden_params@.contains_key(
            name,
        ));
        if after.hidden_params@.contains_key(name) {
            assert(after@.hidden_params[name] == after.hidden_params@[name]@);
        }
        if before.hidden_params@.contains_key(name) {
            assert(before@.hidden_params[name] == before.hidden_params@[name]@);
        }
        assert(after@.base_url == after.base_url@ && before@.base_url == before.base_url@);
        assert(after@.method == after.method && before@.method == before.method);
        assert(after@.client == after.client && before@.client == before.client);
    }
}

/// A set has as many tools as it hands out, and hands out those that it has.
pub proof fn law_tools_are_handed_out(
    toolset: OpenApiToolset,
    len: usize,
    empty: bool,
    tools: Vec<OpenApiTool>,
    i: int,
)
    requires
        call_ensures(OpenApiToolset::len, (&toolset,), len),
        call_ensures(OpenApiToolset::is_empty, (&toolset,), empty),
        call_ensures(OpenApiToolset::into_tools, (toolset,), tools),
    ensures
        len == toolset.tools@.len(),
        empty <==> len == 0,
        tools@.len() == len,
        0 <= i < len ==> tools@[i]@ == toolset.tools@[i]@,
{
    assert(toolset@.len() == toolset.tools@.len());
    assert(tools_view(tools@).len() == tools@.len());
    if 0 <= i < len {
        assert(tools_view(tools@)[i] == tools@[i]@);
        assert(toolset@[i] == toolset.tools@[i]@);
    }
}

/// The entries of a context are all of it, each once.
pub proof fn law_context_is_listed(
    context: &HashMap<String, String>,
    entries: Vec<(String, String)>,
    i: int,
    j: int,
    name: Seq<char>,
)
    requires
        call_ensures(context_entries, (context,), entries),
    ensures
        0 <= i < j < entries@.len() ==> entries@[i].0@ != entries@[j].0@,
        0 <= i < entries@.len() ==> context.deep_view().contains_key(entries@[i].0@)
            && context.deep_view()[entries@[i].0@] == entries@[i].1@,
        context.deep_view().contains_key(name) ==> exists|k: int|
            0 <= k < entries@.len() && (#[trigger] entries@[k]).0@ == name,
{
    let pairs = pairs_view(entries@);
    assert(pairs.len() == entries@.len());
    if 0 <= i < pairs.len() {
        assert(pairs[i] == (entries@[i].0@, entries@[i].1@));
    }
    if 0 <= j < pairs.len() {
        assert(pairs[j] == (entries@[j].0@, entries@[j].1@));
    }
    if context.deep_view().contains_key(name) {
        let k = choose|k: int| 0 <= k < pairs.len() && pairs[k].0 == name;
        assert(entries@[k].0@ == name);
    }
}

/// Without context there is nothing to tell.
pub proof fn law_nothing_is_told_of_no_context(entries: &Vec<(String, String)>, text: String)
    requires
        call_ensures(OpenApiToolset::preamble_of, (entries,), text),
        entries@.len() == 0,
    ensures
        text@.len() == 0,
{
    assert(pairs_view(entries@).len() == 0);
}

/// One more entry is one more line at the end; the first one comes after a title.
pub proof fn law_each_entry_is_told_in_a_line(
    entries: &Vec<(String, String)>,
    text: String,
    more: &Vec<(String, String)>,
    text_more: String,
)
    requires
        call_ensures(OpenApiToolset::preamble_of, (entries,), text),
        call_ensures(OpenApiToolset::preamble_of, (more,), text_more),
        more@.len() > 0,
        entries@ == more@.drop_last(),
    ensures
        text_more@ == if entries@.len() == 0 {
            "The following context is available. Use these values when calling tools:"@
        } else {
            text@
        } + "\n- "@ + more@.last().0@ + " = "@ + more@.last().1@,
{
    let pairs = pairs_view(more@);
    assert(pairs.drop_last() =~= pairs_view(entries@));
    assert(pairs.last() == (more@.last().0@, more@.last().1@));
    let title = "The following context is available. Use these values when calling tools:"@;
    let line = "\n- "@ + pairs.last().0 + " = "@ + pairs.last().1;
    assert(context_lines(pairs) =~= context_lines(pairs.drop_last()) + line);
    assert(text_more@ =~= title + context_lines(pairs.drop_last()) + line);
    if entries@.len() == 0 {
        assert(context_lines(pairs.drop_last()) =~= Seq::empty());
        assert(title + context_lines(pairs.drop_last()) =~= title);
    }
    let start = if entries@.len() == 0 {
        title
    } else {
        text@
    };
    assert(start + line =~= start + "\n- "@ + more@.last().0@ + " = "@ + more@.last().1@);
}

/// A model is told of the entries of a context, in some order.
pub proof fn law_context_is_told(context: &HashMap<String, String>, text: String)
    requires
        call_ensures(OpenApiToolset::context_preamble, (context,), text),
    ensures
        exists|entries: Seq<(Seq<char>, Seq<char>)>|
            {
                &&& #[trigger] enumerates(entries, context.deep_view())
                &&& entries.len() == 0 ==> text@.len() == 0
                &&& entries.len() > 0 ==> text@
                    == "The following context is available. Use these values when calling tools:"@
                    + context_lines(entries)
            },
{
    let entries = choose|entries: Seq<(Seq<char>, Seq<char>)>| #[trigger]
        enumerates(entries, context.deep_view()) && text@ == preamble(entries);
    assert(enumerates(entries, context.deep_view()));
}

/// A step into a YAML value.
pub ghost enum YamlStep {
    Item(int),
    Key(int),
    Value(int),
}

/// One step into a YAML value.
pub open spec fn yaml_step(yaml: YamlView, step: YamlStep) -> Option<YamlView> {
    match (yaml, step) {
        (YamlView::Sequence(items), YamlStep::Item(i)) => if 0 <= i < items.len() {
            Some(items[i])
        } else {
            None
        },
        (YamlView::Mapping(entries), YamlStep::Key(i)) => if 0 <= i < entries.len() {
            Some(entries[i].0)
        } else {
            None
        },
        (YamlView::Mapping(entries), YamlStep::Value(i)) => if 0 <= i < entries.len() {
            Some(entries[i].1)
        } else {
            None
        },
        _ => None,
    }
}

/// The part of a YAML value that some steps lead to.
pub open spec fn part_at(yaml: YamlView, steps: Seq<YamlStep>) -> Option<YamlView>
    decreases steps.len(),
{
    if steps.len() == 0 {
        Some(yaml)
    } else {
        match yaml_step(yaml, steps.first()) {
            Some(part) => part_at(part, steps.drop_first()),
            None => None,
        }
    }
}

/// A mapping has an entry of a name.
pub open spec fn names(yaml: YamlView, name: Seq<char>) -> bool {
    yaml is Mapping && exists|i: int|
        0 <= i < yaml->Mapping_0.len() && (#[trigger] yaml->Mapping_0[i]).0 == YamlView::Text(name)
}

/// A YAML value may be read otherwise at a second try: it has a tag, it is no finite
/// number, or it has two names of which the first one decides.
pub open spec fn is_unclear(yaml: YamlView) -> bool {
    ||| yaml is Tagged
    ||| yaml matches YamlView::Number(n) && !is_finite_number(n)
    ||| names(yaml, "schema"@) && names(yaml, "content"@)
    ||| names(yaml, "operationRef"@) && names(yaml, "operationId"@)
}

/// Names are keys.
proof fn lemma_names(yaml: YamlView, name: Seq<char>)
    requires
        yaml is Mapping,
    ensures
        names(yaml, name) == has_key(yaml->Mapping_0, name),
{
}

/// No part of a value that reads alike is unclear.
proof fn lemma_clear(yaml: YamlView, steps: Seq<YamlStep>)
    requires
        reads_alike(yaml),
        part_at(yaml, steps) is Some,
    ensures
        !is_unclear(part_at(yaml, steps)->Some_0),
    decreases steps.len(),
{
    if steps.len() == 0 {
        if yaml is Mapping {
            lemma_names(yaml, "schema"@);
            lemma_names(yaml, "content"@);
            lemma_names(yaml, "operationRef"@);
            lemma_names(yaml, "operationId"@);
        }
    } else {
        let part = yaml_step(yaml, steps.first())->Some_0;
        match yaml {
            YamlView::Sequence(items) => {
                assert(reads_alike(items[steps.first()->Item_0]));
            },
            YamlView::Mapping(entries) => {
                match steps.first() {
                    YamlStep::Key(i) => {
                        assert(reads_alike(entries[i].0));
                    },
                    YamlStep::Value(i) => {
                        assert(reads_alike(entries[i].1));
                    },
                    YamlStep::Item(_) => {},
                }
            },
            _ => {},
        }
        lemma_clear(part, steps.drop_first());
    }
}

/// One more step in front.
proof fn lemma_step(yaml: YamlView, step: YamlStep, steps: Seq<YamlStep>)
    requires
        yaml_step(yaml, step) is Some,
    ensures
        part_at(yaml, seq![step] + steps) == part_at(yaml_step(yaml, step)->Some_0, steps),
{
    assert((seq![step] + steps).drop_first() =~= steps);
}

/// A value that does not read alike has an unclear part.
proof fn lemma_unclear(yaml: YamlView) -> (steps: Seq<YamlStep>)
    requires
        !reads_alike(yaml),
    ensures
        part_at(yaml, steps) is Some,
        is_unclear(part_at(yaml, steps)->Some_0),
    decreases yaml,
{
    match yaml {
        YamlView::Sequence(items) => {
            let i = choose|i: int| 0 <= i < items.len() && !reads_alike(#[trigger] items[i]);
            let steps = lemma_unclear(items[i]);
            lemma_step(yaml, YamlStep::Item(i), steps);
            seq![YamlStep::Item(i)] + steps
        },
        YamlView::Mapping(entries) => {
            lemma_names(yaml, "schema"@);
            lemma_names(yaml, "content"@);
            lemma_names(yaml, "operationRef"@);
            lemma_names(yaml, "operationId"@);
            if is_unclear(yaml) {
                Seq::empty()
            } else {
                let i = choose|i: int|
                    0 <= i < entries.len() && !(reads_alike((#[trigger] entries[i]).0)
                        && reads_alike(entries[i].1));
                if !reads_alike(entries[i].0) {
                    let steps = lemma_unclear(entries[i].0);
                    lemma_step(yaml, YamlStep::Key(i), steps);
                    seq![YamlStep::Key(i)] + steps
                } else {
                    let steps = lemma_unclear(entries[i].1);
                    lemma_step(yaml, YamlStep::Value(i), steps);
                    seq![YamlStep::Value(i)] + steps
                }
            }
        },
        _ => Seq::empty(),
    }
}

/// A text is sure to be read at the first try exactly if it is YAML and no part of it is
/// unclear.
pub proof fn law_clear_texts_are_sure(text: &str, sure: bool)
    requires
        call_ensures(surely_reads_once, (text,), sure),
    ensures
        sure <==> text_yaml(text@) is Some && forall|steps: Seq<YamlStep>|
            (#[trigger] part_at(text_yaml(text@)->Some_0, steps)) is Some ==> !is_unclear(
                part_at(text_yaml(text@)->Some_0, steps)->Some_0,
            ),
{
    if let Some(yaml) = text_yaml(text@) {
        if reads_alike(yaml) {
            assert forall|steps: Seq<YamlStep>|
                (#[trigger] part_at(yaml, steps)) is Some implies !is_unclear(
                part_at(yaml, steps)->Some_0,
            ) by {
                lemma_clear(yaml, steps);
            }
        } else {
            let steps = lemma_unclear(yaml);
            assert(part_at(yaml, steps) is Some);
        }
    }
}

} // verus!
