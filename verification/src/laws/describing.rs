//! What a tool tells of itself.

use vstd::prelude::*;

use crate::json::{Json, JsonView};
use crate::tool::{
    count_at, params_view, required_params, required_properties, shown_params, shown_properties,
    shown_schema, OpenApiTool, ParamInfo, ParamInfoView, ParamLocation, ToolDefinition,
};

verus! {

/// A tool keeps a parameter from the model.
pub open spec fn hides(tool: OpenApiTool, name: Seq<char>) -> bool {
    tool.hidden_params@.contains_key(name)
}

/// A tool has a parameter of a name.
pub open spec fn has_param(tool: OpenApiTool, name: Seq<char>) -> bool {
    exists|i: int|
        0 <= i < tool.parameters@.len() && (#[trigger] tool.parameters@[i]).name@ == name
}

/// What a model is told of a parameter: its schema, with the parameter's description in
/// it if there is one and the schema is an object.
pub open spec fn is_told_as(param: ParamInfo, told: JsonView) -> bool {
    match param.schema@ {
        JsonView::Object(members) => {
            &&& told is Object
            &&& forall|key: Seq<char>|
                #[trigger] told->Object_0.contains_key(key) <==> members.contains_key(key) || (key
                    == "description"@ && param.description@.len() > 0)
            &&& forall|key: Seq<char>| #[trigger]
                members.contains_key(key) && (key != "description"@ || param.description@.len()
                    == 0) ==> told->Object_0[key] == members[key]
            &&& param.description@.len() > 0 ==> told->Object_0["description"@]
                == JsonView::String(param.description@)
        },
        other => told == other,
    }
}

/// Hidden parameters, seen as texts.
proof fn lemma_hides(tool: OpenApiTool, name: Seq<char>)
    ensures
        tool@.hidden_params.contains_key(name) == hides(tool, name),
{
}

/// The three members of what is told.
proof fn lemma_told(tool: OpenApiTool, schema: Json)
    requires
        call_ensures(OpenApiTool::build_parameters_schema, (&tool,), schema),
    ensures
        schema@ is Object,
        schema@->Object_0.dom() =~= set!["type"@, "properties"@, "required"@],
        schema@->Object_0["type"@] == JsonView::String("object"@),
        schema@->Object_0["properties"@] == JsonView::Object(
            shown_properties(tool@),
        ),
        schema@->Object_0["required"@] == JsonView::Array(
            required_properties(tool@),
        ),
{
    reveal_strlit("type");
    reveal_strlit("properties");
    reveal_strlit("required");
    assert("type"@.len() == 4);
    assert("properties"@.len() == 10);
    assert("required"@.len() == 8);
}

/// A model is told of the arguments as of an object, with its properties and with what
/// is required, and of nothing else.
pub proof fn law_arguments_are_an_object(tool: OpenApiTool, schema: Json)
    requires
        call_ensures(OpenApiTool::build_parameters_schema, (&tool,), schema),
    ensures
        schema@ is Object,
        schema@->Object_0.dom() =~= set!["type"@, "properties"@, "required"@],
        schema@->Object_0["type"@] == JsonView::String("object"@),
        schema@->Object_0["properties"@] is Object,
        schema@->Object_0["required"@] is Array,
{
    lemma_told(tool, schema);
}

/// The visible parameters of a tool are those with the name of a parameter that is not
/// hidden.
proof fn lemma_shown_keys(
    hidden: Map<Seq<char>, Seq<char>>,
    params: Seq<ParamInfoView>,
    name: Seq<char>,
)
    ensures
        shown_params(hidden, params).contains_key(name) <==> !hidden.contains_key(name) && exists|
            i: int,
        |
            0 <= i < params.len() && (#[trigger] params[i]).name == name,
    decreases params.len(),
{
    if params.len() > 0 {
        let front = params.drop_last();
        lemma_shown_keys(hidden, front, name);
        if exists|i: int| 0 <= i < params.len() && (#[trigger] params[i]).name == name {
            let i = choose|i: int| 0 <= i < params.len() && (#[trigger] params[i]).name == name;
            if i < front.len() {
                assert(front[i].name == name);
            }
        }
        if exists|i: int| 0 <= i < front.len() && (#[trigger] front[i]).name == name {
            let i = choose|i: int| 0 <= i < front.len() && (#[trigger] front[i]).name == name;
            assert(params[i].name == name);
        }
        if params.last().name == name {
            assert(params[params.len() - 1].name == name);
        }
    }
}

/// The properties that a model is told of are the parameters and, where there is one,
/// the body, but for what is hidden.
pub proof fn law_visible_arguments_are_told(tool: OpenApiTool, schema: Json, name: Seq<char>)
    requires
        call_ensures(OpenApiTool::build_parameters_schema, (&tool,), schema),
    ensures
        schema@->Object_0["properties"@]->Object_0.contains_key(name) <==> !hides(tool, name) && (
        has_param(tool, name) || (name == "body"@ && tool.request_body_schema is Some)),
{
    lemma_told(tool, schema);
    lemma_hides(tool, name);
    let params = params_view(tool.parameters@);
    lemma_shown_keys(tool@.hidden_params, params, name);
    if has_param(tool, name) {
        let i = choose|i: int|
            0 <= i < tool.parameters@.len() && (#[trigger] tool.parameters@[i]).name@ == name;
        assert(params[i].name == name);
    }
    if exists|i: int| 0 <= i < params.len() && (#[trigger] params[i]).name == name {
        let i = choose|i: int| 0 <= i < params.len() && (#[trigger] params[i]).name == name;
        assert(tool.parameters@[i].name@ == name);
    }
    assert(tool@.request_body_schema is Some == tool.request_body_schema is Some);
}

/// The last parameter of a name is the one that is shown.
proof fn lemma_shown_last(
    hidden: Map<Seq<char>, Seq<char>>,
    params: Seq<ParamInfoView>,
    i: int,
)
    requires
        0 <= i < params.len(),
        !hidden.contains_key(params[i].name),
        forall|j: int| i < j < params.len() ==> (#[trigger] params[j]).name != params[i].name,
    ensures
        shown_params(hidden, params)[params[i].name] == shown_schema(params[i]),
    decreases params.len(),
{
    let front = params.drop_last();
    if i < front.len() {
        assert(params[params.len() - 1].name != params[i].name);
        assert forall|j: int| i < j < front.len() implies (#[trigger] front[j]).name
            != front[i].name by {
            assert(front[j] == params[j]);
        }
        lemma_shown_last(hidden, front, i);
    }
}

/// Of each visible parameter, the model is told its schema and its description; of two
/// with one name, of the later one; and a body takes the place of a parameter of that
/// name.
pub proof fn law_parameters_are_told(tool: OpenApiTool, schema: Json, i: int)
    requires
        call_ensures(OpenApiTool::build_parameters_schema, (&tool,), schema),
        0 <= i < tool.parameters@.len(),
        !hides(tool, tool.parameters@[i].name@),
        forall|j: int|
            i < j < tool.parameters@.len() ==> (#[trigger] tool.parameters@[j]).name@
                != tool.parameters@[i].name@,
        tool.request_body_schema is Some ==> tool.parameters@[i].name@ != "body"@,
    ensures
        is_told_as(
            tool.parameters@[i],
            schema@->Object_0["properties"@]->Object_0[tool.parameters@[i].name@],
        ),
{
    lemma_told(tool, schema);
    lemma_hides(tool, tool.parameters@[i].name@);
    let params = params_view(tool.parameters@);
    assert(params[i] == tool.parameters@[i]@);
    assert forall|j: int| i < j < params.len() implies (#[trigger] params[j]).name
        != params[i].name by {
        assert(tool.parameters@[j].name@ != tool.parameters@[i].name@);
    }
    lemma_shown_last(tool@.hidden_params, params, i);
    assert(tool@.request_body_schema is Some == tool.request_body_schema is Some);
}

/// Of a visible body, the model is told its schema.
pub proof fn law_bodies_are_told(tool: OpenApiTool, schema: Json)
    requires
        call_ensures(OpenApiTool::build_parameters_schema, (&tool,), schema),
        tool.request_body_schema is Some,
        !hides(tool, "body"@),
    ensures
        schema@->Object_0["properties"@]->Object_0["body"@] == tool.request_body_schema->Some_0@,
{
    lemma_told(tool, schema);
    lemma_hides(tool, "body"@);
    assert(tool@.request_body_schema == Some(tool.request_body_schema->Some_0@));
}

/// The required parameters that are not hidden.
pub open spec fn needed_params(tool: OpenApiTool, params: Seq<ParamInfo>) -> Seq<ParamInfo> {
    params.filter(|param: ParamInfo| param.required && !hides(tool, param.name@))
}

/// What is required, parameter by parameter.
proof fn lemma_needed(tool: OpenApiTool, params: Seq<ParamInfo>)
    ensures
        ({
            let names = required_params(tool@.hidden_params, params_view(params));
            let needed = needed_params(tool, params);
            &&& names.len() == needed.len()
            &&& forall|i: int|
                0 <= i < names.len() ==> #[trigger] names[i] == JsonView::String(
                    needed[i].name@,
                )
        }),
    decreases params.len(),
{
    reveal(Seq::filter);
    if params.len() > 0 {
        lemma_needed(tool, params.drop_last());
        lemma_hides(tool, params.last().name@);
        assert(params_view(params).drop_last() =~= params_view(params.drop_last()));
        assert(params_view(params).last() == params.last()@);
    }
}

/// The model is told to give the required parameters that are not hidden, in their
/// order, and then the body if that is required and not hidden; and nothing else.
pub proof fn law_needed_arguments_are_told(tool: OpenApiTool, schema: Json)
    requires
        call_ensures(OpenApiTool::build_parameters_schema, (&tool,), schema),
    ensures
        ({
            let names = schema@->Object_0["required"@]->Array_0;
            let needed = needed_params(tool, tool.parameters@);
            let body = tool.request_body_schema is Some && tool.request_body_required && !hides(
                tool,
                "body"@,
            );
            &&& names.len() == needed.len() + if body {
                1int
            } else {
                0int
            }
            &&& forall|i: int|
                0 <= i < needed.len() ==> #[trigger] names[i] == JsonView::String(
                    needed[i].name@,
                )
            &&& body ==> names.last() == JsonView::String("body"@)
        }),
{
    lemma_told(tool, schema);
    lemma_hides(tool, "body"@);
    lemma_needed(tool, tool.parameters@);
    assert(tool@.request_body_schema is Some == tool.request_body_schema is Some);
    assert(tool@.request_body_required == tool.request_body_required);
}

/// A tool defines itself by its operation's name and description, and by the schema of
/// its arguments.
pub proof fn law_definitions_tell_of_the_tool(
    tool: OpenApiTool,
    definition: ToolDefinition,
    name: String,
    schema: Json,
)
    requires
        call_ensures(OpenApiTool::definition, (&tool,), definition),
        call_ensures(OpenApiTool::name, (&tool,), name),
        call_ensures(OpenApiTool::build_parameters_schema, (&tool,), schema),
    ensures
        definition.name@ == tool.operation_id@,
        name@ == tool.operation_id@,
        definition.description@ == tool.description@,
        definition.parameters@ == schema@,
{
    assert(tool@.operation_id == tool.operation_id@);
    assert(tool@.description == tool.description@);
}

/// How many parameters go to one place.
proof fn lemma_count_at(location: ParamLocation, params: Seq<ParamInfo>)
    ensures
        count_at(location, params_view(params)) == params.filter(
            |param: ParamInfo| param.location == location,
        ).len(),
    decreases params.len(),
{
    reveal(Seq::filter);
    if params.len() > 0 {
        lemma_count_at(location, params.drop_last());
        assert(params_view(params).drop_last() =~= params_view(params.drop_last()));
        assert(params_view(params).last() == params.last()@);
    }
}

/// A tool has few headers if its fields and its header parameters, with two more, are
/// no more than a request has room for.
pub proof fn law_few_headers_are_counted(tool: OpenApiTool, few: bool)
    requires
        call_ensures(OpenApiTool::few_headers, (&tool,), few),
    ensures
        few <==> tool.fields@.len() + tool.parameters@.filter(
            |param: ParamInfo| param.location is Header,
        ).len() + 2 <= 6553,
{
    lemma_count_at(ParamLocation::Header, tool.parameters@);
    assert(tool@.fields.len() == tool.fields@.len());
    assert((|param: ParamInfo| param.location is Header) =~= (|param: ParamInfo|
        param.location == ParamLocation::Header));
}

} // verus!
