//! What a model is told of a tool.

use vstd::prelude::*;

use crate::json::JsonView;
use crate::tool::{
    required_params, required_properties, shown_params, shown_properties, shown_schema,
    ParamInfoView, ToolView,
};
use crate::toolset::with_context;

verus! {

/// Hidden parameters are not shown.
proof fn lemma_hidden_params(
    hidden: Map<Seq<char>, Seq<char>>,
    params: Seq<ParamInfoView>,
    name: Seq<char>,
)
    requires
        hidden.contains_key(name),
    ensures
        !shown_params(hidden, params).contains_key(name),
        !required_params(hidden, params).contains(JsonView::String(name)),
    decreases params.len(),
{
    if params.len() > 0 {
        lemma_hidden_params(hidden, params.drop_last(), name);
        let before = required_params(hidden, params.drop_last());
        let required = required_params(hidden, params);
        assert forall|i: int| 0 <= i < required.len() implies required[i] != JsonView::String(
            name,
        ) by {
            if i < before.len() {
                assert(before.contains(before[i]));
                assert(required[i] == before[i]);
            }
        }
    }
}

/// A model does not see a hidden parameter: it is no property and not required.
pub proof fn law_hidden_params_are_not_shown(tool: ToolView, name: Seq<char>)
    requires
        tool.hidden_params.contains_key(name),
    ensures
        !shown_properties(tool).contains_key(name),
        !required_properties(tool).contains(JsonView::String(name)),
{
    lemma_hidden_params(tool.hidden_params, tool.parameters, name);
    let params = required_params(tool.hidden_params, tool.parameters);
    let required = required_properties(tool);
    assert forall|i: int| 0 <= i < required.len() implies required[i] != JsonView::String(name) by {
        if i < params.len() {
            assert(params.contains(params[i]));
            assert(required[i] == params[i]);
        }
    }
}

/// A parameter that is not hidden is shown; and where no later one has its name, with
/// its own schema.
proof fn lemma_shown_param(
    hidden: Map<Seq<char>, Seq<char>>,
    params: Seq<ParamInfoView>,
    i: int,
)
    requires
        0 <= i < params.len(),
        !hidden.contains_key(params[i].name),
    ensures
        shown_params(hidden, params).contains_key(params[i].name),
        (forall|j: int| i < j < params.len() ==> (#[trigger] params[j]).name != params[i].name)
            ==> shown_params(hidden, params)[params[i].name] == shown_schema(params[i]),
        params[i].required ==> required_params(hidden, params).contains(
            JsonView::String(params[i].name),
        ),
    decreases params.len(),
{
    let front = params.drop_last();
    let before = required_params(hidden, front);
    let required = required_params(hidden, params);
    if i < front.len() {
        lemma_shown_param(hidden, front, i);
        if forall|j: int| i < j < params.len() ==> (#[trigger] params[j]).name != params[i].name {
            assert(params[params.len() - 1].name != params[i].name);
            assert forall|j: int| i < j < front.len() implies (#[trigger] front[j]).name
                != front[i].name by {
                assert(front[j] == params[j]);
            }
        }
        if params[i].required {
            let k = choose|k: int|
                0 <= k < before.len() && before[k] == JsonView::String(params[i].name);
            assert(required[k] == before[k]);
        }
    } else if params[i].required {
        assert(required[before.len() as int] == JsonView::String(params[i].name));
    }
}

/// A model sees every parameter that is not hidden, and that it is required if it is.
/// The schema is that of the last parameter of the name.
pub proof fn law_other_params_are_shown(tool: ToolView, i: int)
    requires
        0 <= i < tool.parameters.len(),
        !tool.hidden_params.contains_key(tool.parameters[i].name),
    ensures
        shown_properties(tool).contains_key(tool.parameters[i].name),
        (forall|j: int|
            i < j < tool.parameters.len() ==> (#[trigger] tool.parameters[j]).name
                != tool.parameters[i].name) && (tool.request_body_schema is Some
            ==> tool.parameters[i].name != "body"@) ==> shown_properties(
            tool,
        )[tool.parameters[i].name] == shown_schema(tool.parameters[i]),
        tool.parameters[i].required ==> required_properties(tool).contains(
            JsonView::String(tool.parameters[i].name),
        ),
{
    lemma_shown_param(tool.hidden_params, tool.parameters, i);
    if tool.parameters[i].required {
        let name = JsonView::String(tool.parameters[i].name);
        let params = required_params(tool.hidden_params, tool.parameters);
        let k = choose|k: int| 0 <= k < params.len() && params[k] == name;
        assert(required_properties(tool)[k] == name);
    }
}

/// A request body is shown as `body`, unless that is hidden.
pub proof fn law_body_is_shown(tool: ToolView)
    requires
        tool.request_body_schema is Some,
        !tool.hidden_params.contains_key("body"@),
    ensures
        shown_properties(tool).contains_key("body"@),
        shown_properties(tool)["body"@] == tool.request_body_schema->Some_0,
        tool.request_body_required ==> required_properties(tool).contains(
            JsonView::String("body"@),
        ),
{
    let params = required_params(tool.hidden_params, tool.parameters);
    if tool.request_body_required {
        assert(required_properties(tool)[params.len() as int] == JsonView::String("body"@));
    }
}

/// A parameter's schema is passed on as it is; only its description is put into it.
pub proof fn law_schemas_are_passed_on(param: ParamInfoView)
    requires
        param.schema is Object,
    ensures
        shown_schema(param) is Object,
        forall|key: Seq<char>|
            key != "description"@ ==> (shown_schema(param)->Object_0.contains_key(key)
                <==> #[trigger] param.schema->Object_0.contains_key(key)),
        forall|key: Seq<char>|
            key != "description"@ && #[trigger] param.schema->Object_0.contains_key(key)
                ==> shown_schema(param)->Object_0[key] == param.schema->Object_0[key],
        param.description.len() == 0 ==> shown_schema(param) == param.schema,
        param.description.len() > 0 ==> shown_schema(param)->Object_0.contains_key(
            "description"@,
        ) && shown_schema(param)->Object_0["description"@] == JsonView::String(param.description),
{
}

/// What is required of the parameters is shown.
proof fn lemma_required_params(
    hidden: Map<Seq<char>, Seq<char>>,
    params: Seq<ParamInfoView>,
    i: int,
)
    requires
        0 <= i < required_params(hidden, params).len(),
    ensures
        required_params(hidden, params)[i] is String,
        shown_params(hidden, params).contains_key(required_params(hidden, params)[i]->String_0),
    decreases params.len(),
{
    let before = required_params(hidden, params.drop_last());
    if i < before.len() {
        lemma_required_params(hidden, params.drop_last(), i);
        assert(required_params(hidden, params)[i] == before[i]);
    }
}

/// What is required is a property.
pub proof fn law_required_are_properties(tool: ToolView, i: int)
    requires
        0 <= i < required_properties(tool).len(),
    ensures
        required_properties(tool)[i] is String,
        shown_properties(tool).contains_key(required_properties(tool)[i]->String_0),
{
    let params = required_params(tool.hidden_params, tool.parameters);
    if i < params.len() {
        lemma_required_params(tool.hidden_params, tool.parameters, i);
        assert(required_properties(tool)[i] == params[i]);
    }
}

/// A model does not see the context of a request.
pub proof fn law_context_is_not_shown(
    tool: ToolView,
    context: Map<Seq<char>, Seq<char>>,
    name: Seq<char>,
)
    requires
        context.contains_key(name),
    ensures
        !shown_properties(with_context(tool, context)).contains_key(name),
        !required_properties(with_context(tool, context)).contains(JsonView::String(name)),
{
    law_hidden_params_are_not_shown(with_context(tool, context), name);
}

} // verus!
