//! Context, options and names.

use vstd::prelude::*;

use crate::builder::{built_config, is_built_client, nothing_set, BuilderView};
use crate::context::enumerates;
use crate::document::{OperationView, PerMethod, RefOrView, SpecView};
use crate::http::{
    client_fields, default_fields, lemma_without_name, with_field_set, without_name, FieldValue,
    FieldView,
};
use crate::json::JsonView;
use crate::laws::operations::law_every_tool_has_its_operation;
use crate::text::{replaced, trimmed_end, trimmed_start};
use crate::tool::{call_args, lower_method_name, planned, HttpMethod, ToolView};
use crate::toolset::{
    chosen_base_url, context_lines, method_tools, methods, operation_name, plain_config, preamble,
    spec_tools, tools_of, with_context, ConfigView,
};

verus! {

/// The context of a request takes the place of what was hidden before, and leaves
/// everything else as it was.
pub proof fn law_context_is_added(
    tool: ToolView,
    context: Map<Seq<char>, Seq<char>>,
    name: Seq<char>,
)
    ensures
        with_context(tool, context).hidden_params.contains_key(name) <==> context.contains_key(name)
            || tool.hidden_params.contains_key(name),
        context.contains_key(name) ==> with_context(tool, context).hidden_params[name]
            == context[name],
        !context.contains_key(name) && tool.hidden_params.contains_key(name) ==> with_context(
            tool,
            context,
        ).hidden_params[name] == tool.hidden_params[name],
        with_context(tool, context) == (ToolView {
            hidden_params: with_context(tool, context).hidden_params,
            ..tool
        }),
{
}

/// A request without context has the tools as they are.
pub proof fn law_empty_context_changes_nothing(tool: ToolView)
    ensures
        with_context(tool, Map::empty()) == tool,
{
    assert(with_context(tool, Map::empty()).hidden_params =~= tool.hidden_params);
}

/// A call has the context of its request, unless it was given something else.
pub proof fn law_context_reaches_calls(
    tool: ToolView,
    context: Map<Seq<char>, Seq<char>>,
    args: JsonView,
    name: Seq<char>,
)
    requires
        context.contains_key(name),
        args matches JsonView::Object(members) ==> !members.contains_key(name),
    ensures
        call_args(with_context(tool, context).hidden_params, args).contains_key(name),
        call_args(with_context(tool, context).hidden_params, args)[name] == JsonView::String(
            context[name],
        ),
{
}

/// A text holds a piece that ends with it or at the end of a line.
pub open spec fn holds_line(text: Seq<char>, piece: Seq<char>) -> bool {
    exists|before: Seq<char>, after: Seq<char>|
        text == #[trigger] (before + piece + after) && (after.len() > 0 ==> after[0] == '\n')
}

/// Each entry of the context has its line.
proof fn lemma_context_lines(entries: Seq<(Seq<char>, Seq<char>)>, i: int) -> (around: (
    Seq<char>,
    Seq<char>,
))
    requires
        0 <= i < entries.len(),
    ensures
        context_lines(entries) == around.0 + ("\n- "@ + entries[i].0 + " = "@ + entries[i].1)
            + around.1,
        around.1.len() > 0 ==> around.1[0] == '\n',
    decreases entries.len(),
{
    reveal_strlit("\n- ");
    let front = entries.drop_last();
    let last = "\n- "@ + entries.last().0 + " = "@ + entries.last().1;
    assert(context_lines(entries) =~= context_lines(front) + last);
    if i == entries.len() - 1 {
        assert(context_lines(entries) =~= context_lines(front) + last + Seq::empty());
        (context_lines(front), Seq::empty())
    } else {
        let around = lemma_context_lines(front, i);
        let line = "\n- "@ + entries[i].0 + " = "@ + entries[i].1;
        assert(context_lines(entries) =~= around.0 + line + (around.1 + last));
        (around.0, around.1 + last)
    }
}

/// The snippet for the model has a line `- key = value` for each entry of the
/// context.
pub proof fn law_preamble_lists_context(entries: Seq<(Seq<char>, Seq<char>)>, i: int)
    requires
        0 <= i < entries.len(),
    ensures
        holds_line(preamble(entries), "\n- "@ + entries[i].0 + " = "@ + entries[i].1),
{
    let title = "The following context is available. Use these values when calling tools:"@;
    let around = lemma_context_lines(entries, i);
    let line = "\n- "@ + entries[i].0 + " = "@ + entries[i].1;
    assert(preamble(entries) =~= (title + around.0) + line + around.1);
}

/// Without context there is no snippet.
pub proof fn law_no_context_no_preamble(entries: Seq<(Seq<char>, Seq<char>)>)
    requires
        enumerates(entries, Map::empty()),
    ensures
        preamble(entries) == Seq::<char>::empty(),
{
    if entries.len() > 0 {
        assert(Map::<Seq<char>, Seq<char>>::empty().contains_key(entries[0].0));
    }
}

/// What is left of a text without the run of a character at its end.
pub proof fn lemma_trimmed_end(text: Seq<char>, c: char)
    ensures
        trimmed_end(text, c).len() > 0 ==> trimmed_end(text, c).last() != c,
        trimmed_end(text, c).is_prefix_of(text),
        forall|i: int| trimmed_end(text, c).len() <= i < text.len() ==> text[i] == c,
    decreases text.len(),
{
    if text.len() > 0 && text.last() == c {
        lemma_trimmed_end(text.drop_last(), c);
        let rest = trimmed_end(text.drop_last(), c);
        assert(rest =~= text.take(rest.len() as int));
        assert forall|i: int| rest.len() <= i < text.len() implies text[i] == c by {
            if i < text.len() - 1 {
                assert(text.drop_last()[i] == c);
            }
        }
    } else {
        assert(text =~= text.take(text.len() as int));
    }
}

/// A base URL does not end in a slash. A URL that is set is taken before one of the
/// description.
pub proof fn law_base_url(spec: SpecView, configured: Option<Seq<char>>)
    ensures
        chosen_base_url(spec, configured).len() > 0 ==> chosen_base_url(spec, configured).last()
            != '/',
        configured matches Some(url) ==> chosen_base_url(spec, configured).is_prefix_of(url),
        configured is None && spec.servers.len() > 0 ==> chosen_base_url(
            spec,
            configured,
        ).is_prefix_of(spec.servers[0]),
        configured is None && spec.servers.len() == 0 ==> chosen_base_url(spec, configured)
            == "http://localhost"@,
{
    let url = match configured {
        Some(url) => url,
        None => if spec.servers.len() > 0 {
            spec.servers[0]
        } else {
            "http://localhost"@
        },
    };
    lemma_trimmed_end(url, '/');
    reveal_strlit("http://localhost");
}

/// A path has no slashes once they are replaced.
proof fn lemma_no_slash(path: Seq<char>)
    ensures
        !replaced(path, "/"@, "_"@).contains('/'),
    decreases path.len(),
{
    reveal_strlit("/");
    reveal_strlit("_");
    if path.len() > 0 {
        lemma_no_slash(path.skip(1));
        let rest = replaced(path.skip(1), "/"@, "_"@);
        let all = replaced(path, "/"@, "_"@);
        assert(path.take(1) =~= seq![path[0]]);
        if path[0] == '/' {
            assert(path.take(1) =~= "/"@);
        } else {
            assert(path.take(1)[0] != "/"@[0]);
        }
        assert forall|i: int| 0 <= i < all.len() implies all[i] != '/' by {
            if i > 0 {
                assert(all[i] == rest[i - 1]);
                assert(rest.contains(rest[i - 1]));
            }
        }
    }
}

/// What is left of a text without the run of a character at its start.
proof fn lemma_trimmed_start(text: Seq<char>, c: char, other: char)
    requires
        !text.contains(other),
    ensures
        !trimmed_start(text, c).contains(other),
        trimmed_start(text, c).len() > 0 ==> trimmed_start(text, c).first() != c,
    decreases text.len(),
{
    if text.len() > 0 && text.first() == c {
        let rest = text.drop_first();
        assert forall|i: int| 0 <= i < rest.len() implies rest[i] != other by {
            assert(text.contains(text[i + 1]));
        }
        lemma_trimmed_start(rest, c, other);
    }
}

/// A tool is named by the id of its operation. Without one it is named like
/// `get_users`: the method, and the path without slashes.
pub proof fn law_tool_names(method: HttpMethod, path: Seq<char>, operation: OperationView)
    ensures
        operation.operation_id matches Some(id) ==> operation_name(method, path, operation) == id,
        operation.operation_id is None ==> !operation_name(method, path, operation).contains('/')
            && (lower_method_name(method) + "_"@).is_prefix_of(
            operation_name(method, path, operation),
        ),
{
    if operation.operation_id is None {
        let slug = trimmed_start(replaced(path, "/"@, "_"@), '_');
        let start = lower_method_name(method) + "_"@;
        let name = operation_name(method, path, operation);
        lemma_no_slash(path);
        lemma_trimmed_start(replaced(path, "/"@, "_"@), '_', '/');
        reveal_strlit("get");
        reveal_strlit("post");
        reveal_strlit("put");
        reveal_strlit("patch");
        reveal_strlit("delete");
        reveal_strlit("head");
        reveal_strlit("options");
        reveal_strlit("trace");
        reveal_strlit("_");
        assert(name =~= start + slug);
        assert forall|i: int| 0 <= i < name.len() implies name[i] != '/' by {
            if i >= start.len() {
                assert(slug.contains(slug[i - start.len()]));
            }
        }
        assert(name.take(start.len() as int) =~= start);
    }
}

/// A client that was given is the one that is used.
pub proof fn law_given_client_is_used(
    builder: BuilderView,
    given: reqwest::Client,
    client: reqwest::Client,
)
    requires
        is_built_client((BuilderView { client: Some(given), ..builder }), client),
    ensures
        client == given,
{
}

/// Every request of every tool that is built has a header field that was set, in the
/// place of an earlier one of its name, and the fields of other names; whether a client
/// was given or not, and whatever the arguments are.
pub proof fn law_set_fields_are_always_sent(
    builder: BuilderView,
    name: Seq<u8>,
    value: FieldValue,
    spec: SpecView,
    client: reqwest::Client,
    k: int,
    args: JsonView,
    other: FieldView,
)
    requires
        0 <= k < spec_tools(
            spec,
            built_config(
                (BuilderView {
                    default_headers: with_field_set(builder.default_headers, name, value),
                    ..builder
                }),
                client,
            ),
        ).len(),
    ensures
        ({
            let set = BuilderView {
                default_headers: with_field_set(builder.default_headers, name, value),
                ..builder
            };
            let tool = spec_tools(spec, built_config(set, client))[k];
            &&& planned(tool, args).fields == set.default_headers
            &&& planned(tool, args).fields.contains((name, value))
            &&& other.0 != name ==> (planned(tool, args).fields.contains(other)
                <==> builder.default_headers.contains(other))
            &&& other.0 == name && other.1 != value ==> !planned(tool, args).fields.contains(other)
        }),
{
    let set = BuilderView {
        default_headers: with_field_set(builder.default_headers, name, value),
        ..builder
    };
    let rest = without_name(builder.default_headers, name);
    let fields = set.default_headers;
    law_every_tool_has_its_operation(spec, built_config(set, client), k);
    lemma_without_name(builder.default_headers, name);
    assert(fields[rest.len() as int] == (name, value));
    if rest.contains(other) {
        let i = choose|i: int| 0 <= i < rest.len() && rest[i] == other;
        assert(fields[i] == other);
    }
    if fields.contains(other) {
        let i = choose|i: int| 0 <= i < fields.len() && fields[i] == other;
        if i < rest.len() {
            assert(rest[i] == other);
        }
    }
}

/// No option changes which operations the tools are of, nor what is known of them: the
/// tools of two configurations differ in what all tools have in common only.
pub proof fn law_options_keep_operations(
    spec: SpecView,
    a: ConfigView,
    b: ConfigView,
    k: int,
)
    ensures
        spec_tools(spec, a).len() == spec_tools(spec, b).len(),
        0 <= k < spec_tools(spec, a).len() ==> same_operation_known(
            spec_tools(spec, a)[k],
            spec_tools(spec, b)[k],
        ),
{
    lemma_same_tools(spec, a, b, spec.paths, k);
}

/// Two tools know the same of their operations.
pub open spec fn same_operation_known(a: ToolView, b: ToolView) -> bool {
    &&& a.method == b.method
    &&& a.path_template == b.path_template
    &&& a.operation_id == b.operation_id
    &&& a.description == b.description
    &&& a.parameters == b.parameters
    &&& a.request_body_schema == b.request_body_schema
    &&& a.request_body_required == b.request_body_required
}

/// The tools of a path differ in what all tools have in common only.
proof fn lemma_same_method_tools(
    spec: SpecView,
    a: ConfigView,
    b: ConfigView,
    path: Seq<char>,
    item: PerMethod<OperationView>,
    methods: Seq<HttpMethod>,
    k: int,
)
    ensures
        method_tools(spec, a, path, item, methods).len() == method_tools(
            spec,
            b,
            path,
            item,
            methods,
        ).len(),
        0 <= k < method_tools(spec, a, path, item, methods).len() ==> same_operation_known(
            method_tools(spec, a, path, item, methods)[k],
            method_tools(spec, b, path, item, methods)[k],
        ),
    decreases methods.len(),
{
    if methods.len() > 0 {
        lemma_same_method_tools(spec, a, b, path, item, methods.drop_last(), k);
    }
}

/// The tools of some paths differ in what all tools have in common only.
proof fn lemma_same_tools(
    spec: SpecView,
    a: ConfigView,
    b: ConfigView,
    paths: Seq<(Seq<char>, RefOrView<PerMethod<OperationView>>)>,
    k: int,
)
    ensures
        tools_of(spec, a, paths).len() == tools_of(spec, b, paths).len(),
        0 <= k < tools_of(spec, a, paths).len() ==> same_operation_known(
            tools_of(spec, a, paths)[k],
            tools_of(spec, b, paths)[k],
        ),
    decreases paths.len(),
{
    if paths.len() > 0 {
        let front = tools_of(spec, a, paths.drop_last());
        lemma_same_tools(spec, a, b, paths.drop_last(), k);
        if let RefOrView::Item(item) = paths.last().1 {
            lemma_same_method_tools(
                spec,
                a,
                b,
                paths.last().0,
                item,
                methods(),
                k - front.len(),
            );
        }
    }
}

/// A builder for which nothing is set makes the same tools as the text alone.
pub proof fn law_nothing_set_is_plain(spec_str: Seq<char>, client: reqwest::Client)
    ensures
        built_config(nothing_set(spec_str), client) == plain_config(client),
        is_built_client(nothing_set(spec_str), client) <==> client_fields(client)
            == default_fields(Map::empty()),
{
}

} // verus!
