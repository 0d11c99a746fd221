//! What the views of plain data show.

use vstd::prelude::*;

use crate::document::{
    map_view, ApiBody, ApiComponents, ApiOperation, ApiParameter, ApiSchema, ApiSpec, PerMethod,
    RefOr, RefOrView,
};
use crate::http::{copy_fields, field_name, field_value, fields_view, pairs_view, HeaderField};
use crate::json::{lemma_members, Json, JsonView};
use crate::laws::making::{capital_name, small_name};
use crate::serde_value::{json_text, parsed_json, read_json};
use crate::str_map::StrMap;
use crate::tool::{copy_pairs, copy_texts, HttpMethod, OpenApiTool, ParamInfo};
use crate::toolset::ToolConfig;

verus! {

/// A JSON value is seen as it is, in all of its depth.
pub proof fn law_json_is_seen_as_it_is(json: Json, i: int, key: Seq<char>)
    ensures
        json is Null <==> json@ is Null,
        json matches Json::Bool(b) ==> json@ == JsonView::Bool(b),
        json matches Json::Number(n) ==> json@ == JsonView::Number(n),
        json matches Json::String(text) ==> json@ == JsonView::String(text@),
        json matches Json::Array(items) ==> {
            &&& json@ is Array
            &&& json@->Array_0.len() == items@.len()
            &&& 0 <= i < items@.len() ==> json@->Array_0[i] == items@[i]@
        },
        json matches Json::Object(members) ==> {
            &&& json@ is Object
            &&& json@->Object_0.contains_key(key) <==> members@.contains_key(key)
            &&& members@.contains_key(key) ==> json@->Object_0[key] == members@[key]@
        },
{
    if let Json::Object(members) = json {
        lemma_members(members.entries@);
    }
}

/// A member of a JSON object is found under its key, and nothing is found under another
/// key or in any other value.
pub proof fn law_members_are_got(json: &Json, key: &str, member: Option<&Json>)
    requires
        call_ensures(Json::get, (json, key), member),
    ensures
        member is Some <==> json@ is Object && json@->Object_0.contains_key(key@),
        member matches Some(member) ==> member@ == json@->Object_0[key@],
{
}

/// A schema, a reference and a thing that is given in place are seen as they are.
pub proof fn law_given_things_are_seen_as_they_are(
    schema: ApiSchema,
    given: RefOr<ApiSchema>,
)
    ensures
        schema@ is Some <==> schema.json is Some,
        schema.json matches Some(json) ==> schema@ == Some(json@),
        given matches RefOr::Reference(reference) ==> given@ == RefOrView::<
            Option<JsonView>,
        >::Reference(reference@),
        given matches RefOr::Item(item) ==> given@ == RefOrView::Item(item@),
{
}

/// A parameter of a description is seen as it is.
pub proof fn law_parameters_are_seen_as_they_are(parameter: ApiParameter)
    ensures
        parameter@.place == parameter.place,
        parameter@.name == parameter.name@,
        parameter@.required == parameter.required,
        parameter@.description is Some <==> parameter.description is Some,
        parameter.description matches Some(text) ==> parameter@.description == Some(text@),
        parameter@.schema is Some <==> parameter.schema is Some,
        parameter.schema matches Some(schema) ==> parameter@.schema == Some(schema@),
{
}

/// A request body of a description is seen as it is.
pub proof fn law_request_bodies_are_seen_as_they_are(body: ApiBody, name: Seq<char>)
    ensures
        body@.required == body.required,
        body@.content.contains_key(name) <==> body.content@.contains_key(name),
        body.content@.contains_key(name) ==> {
            &&& body@.content[name] is Some <==> body.content@[name].schema is Some
            &&& body.content@[name].schema matches Some(schema) ==> body@.content[name] == Some(
                schema@,
            )
        },
{
}

/// An operation of a description is seen as it is.
pub proof fn law_operations_are_seen_as_they_are(operation: ApiOperation, i: int)
    ensures
        operation@.operation_id is Some <==> operation.operation_id is Some,
        operation.operation_id matches Some(id) ==> operation@.operation_id == Some(id@),
        operation@.summary is Some <==> operation.summary is Some,
        operation.summary matches Some(text) ==> operation@.summary == Some(text@),
        operation@.description is Some <==> operation.description is Some,
        operation.description matches Some(text) ==> operation@.description == Some(text@),
        operation@.parameters.len() == operation.parameters@.len(),
        0 <= i < operation.parameters@.len() ==> operation@.parameters[i]
            == operation.parameters@[i]@,
        operation@.request_body is Some <==> operation.request_body is Some,
        operation.request_body matches Some(body) ==> operation@.request_body == Some(body@),
{
}

/// The operations of a path are seen as they are, each under its own method.
pub proof fn law_paths_are_seen_as_they_are(item: PerMethod<ApiOperation>)
    ensures
        item@.get is Some <==> item.get is Some,
        item.get matches Some(operation) ==> item@.get == Some(operation@),
        item@.post is Some <==> item.post is Some,
        item.post matches Some(operation) ==> item@.post == Some(operation@),
        item@.put is Some <==> item.put is Some,
        item.put matches Some(operation) ==> item@.put == Some(operation@),
        item@.patch is Some <==> item.patch is Some,
        item.patch matches Some(operation) ==> item@.patch == Some(operation@),
        item@.delete is Some <==> item.delete is Some,
        item.delete matches Some(operation) ==> item@.delete == Some(operation@),
        item@.head is Some <==> item.head is Some,
        item.head matches Some(operation) ==> item@.head == Some(operation@),
        item@.options is Some <==> item.options is Some,
        item.options matches Some(operation) ==> item@.options == Some(operation@),
        item@.trace is Some <==> item.trace is Some,
        item.trace matches Some(operation) ==> item@.trace == Some(operation@),
{
}

/// The components of a description are seen as they are.
pub proof fn law_components_are_seen_as_they_are(components: ApiComponents, name: Seq<char>)
    ensures
        components@.schemas.contains_key(name) <==> components.schemas@.contains_key(name),
        components.schemas@.contains_key(name) ==> components@.schemas[name]
            == components.schemas@[name]@,
        components@.parameters.contains_key(name) <==> components.parameters@.contains_key(name),
        components.parameters@.contains_key(name) ==> components@.parameters[name]
            == components.parameters@[name]@,
        components@.request_bodies.contains_key(name)
            <==> components.request_bodies@.contains_key(name),
        components.request_bodies@.contains_key(name) ==> components@.request_bodies[name]
            == components.request_bodies@[name]@,
{
}

/// A description is seen as it is.
pub proof fn law_descriptions_are_seen_as_they_are(spec: ApiSpec, i: int)
    ensures
        spec@.servers.len() == spec.servers@.len(),
        0 <= i < spec.servers@.len() ==> spec@.servers[i] == spec.servers@[i]@,
        spec@.paths.len() == spec.paths@.len(),
        0 <= i < spec.paths@.len() ==> spec@.paths[i].0 == spec.paths@[i].0@ && spec@.paths[i].1
            == spec.paths@[i].1@,
        spec@.components is Some <==> spec.components is Some,
        spec.components matches Some(components) ==> spec@.components == Some(components@),
{
}

/// What all tools of a set have in common is seen as it is.
pub proof fn law_configurations_are_seen_as_they_are(
    config: ToolConfig,
    i: int,
    name: Seq<char>,
)
    ensures
        config@.client == config.client,
        config@.base_url is Some <==> config.base_url is Some,
        config.base_url matches Some(url) ==> config@.base_url == Some(url@),
        config@.fields.len() == config.fields@.len(),
        0 <= i < config.fields@.len() ==> config@.fields[i] == (
            field_name(config.fields@[i].name),
            field_value(config.fields@[i].value),
        ),
        config@.hidden_context.contains_key(name) <==> config.hidden_context@.contains_key(name),
        config.hidden_context@.contains_key(name) ==> config@.hidden_context[name]
            == config.hidden_context@[name]@,
        config@.static_query_params.len() == config.static_query_params@.len(),
        0 <= i < config.static_query_params@.len() ==> config@.static_query_params[i] == (
            config.static_query_params@[i].0@,
            config.static_query_params@[i].1@,
        ),
        config@.basic_auth is Some <==> config.basic_auth is Some,
        config.basic_auth matches Some(pair) ==> config@.basic_auth == Some((pair.0@, pair.1@)),
{
}

/// What a tool knows of a parameter is seen as it is.
pub proof fn law_known_parameters_are_seen_as_they_are(info: ParamInfo)
    ensures
        info@.name == info.name@,
        info@.location == info.location,
        info@.required == info.required,
        info@.description == info.description@,
        info@.schema == info.schema@,
{
}

/// A tool is seen as it is.
pub proof fn law_tools_are_seen_as_they_are(tool: OpenApiTool, i: int, name: Seq<char>)
    ensures
        tool@.client == tool.client,
        tool@.base_url == tool.base_url@,
        tool@.method == tool.method,
        tool@.path_template == tool.path_template@,
        tool@.operation_id == tool.operation_id@,
        tool@.description == tool.description@,
        tool@.fields.len() == tool.fields@.len(),
        0 <= i < tool.fields@.len() ==> tool@.fields[i] == (
            field_name(tool.fields@[i].name),
            field_value(tool.fields@[i].value),
        ),
        tool@.parameters.len() == tool.parameters@.len(),
        0 <= i < tool.parameters@.len() ==> tool@.parameters[i] == tool.parameters@[i]@,
        tool@.request_body_schema is Some <==> tool.request_body_schema is Some,
        tool.request_body_schema matches Some(schema) ==> tool@.request_body_schema == Some(
            schema@,
        ),
        tool@.request_body_required == tool.request_body_required,
        tool@.hidden_params.contains_key(name) <==> tool.hidden_params@.contains_key(name),
        tool.hidden_params@.contains_key(name) ==> tool@.hidden_params[name]
            == tool.hidden_params@[name]@,
        tool@.static_query_params.len() == tool.static_query_params@.len(),
        0 <= i < tool.static_query_params@.len() ==> tool@.static_query_params[i] == (
            tool.static_query_params@[i].0@,
            tool.static_query_params@[i].1@,
        ),
        tool@.basic_auth is Some <==> tool.basic_auth is Some,
        tool.basic_auth matches Some(pair) ==> tool@.basic_auth == Some((pair.0@, pair.1@)),
{
}

/// A copy of a tool has all that the tool has.
pub proof fn law_copies_are_alike(tool: OpenApiTool, copy: OpenApiTool)
    requires
        call_ensures(OpenApiTool::clone, (&tool,), copy),
    ensures
        copy.method == tool.method,
        copy.client == tool.client,
        copy.base_url@ == tool.base_url@,
        copy.path_template@ == tool.path_template@,
        copy.operation_id@ == tool.operation_id@,
        copy.description@ == tool.description@,
        copy.request_body_required == tool.request_body_required,
        copy@ == tool@,
{
    assert(copy@.method == copy.method && tool@.method == tool.method);
    assert(copy@.base_url == copy.base_url@ && tool@.base_url == tool.base_url@);
}

/// A method is named by its name, in capital or in small letters.
pub proof fn law_methods_are_named(method: HttpMethod, name: &str, lower: &str)
    requires
        call_ensures(HttpMethod::as_str, (method,), name),
        call_ensures(HttpMethod::as_lower_str, (method,), lower),
    ensures
        name@ == capital_name(method),
        lower@ == small_name(method),
{
}

/// A text is read as the JSON that it holds, and a JSON value is written as its text.
pub proof fn law_json_is_read_and_written(
    text: &str,
    read: Result<Json, serde_json::Error>,
    json: Json,
    written: String,
)
    requires
        call_ensures(read_json, (text,), read),
        call_ensures(Json::to_json_text, (&json,), written),
    ensures
        read is Ok <==> parsed_json(text@) is Some,
        read matches Ok(value) ==> parsed_json(text@) == Some(value@),
        written@ == json_text(json@),
{
}

/// A text as JSON is that text.
pub proof fn law_texts_are_json(text: &str, json: Json)
    requires
        call_ensures(Json::text, (text,), json),
    ensures
        json@ == JsonView::String(text@),
{
}

/// Copies of pairs, of header fields and of texts by name are like what they are made of.
pub proof fn law_parts_are_copied(
    pairs: Vec<(String, String)>,
    copied_pairs: Vec<(String, String)>,
    fields: Vec<HeaderField>,
    copied_fields: Vec<HeaderField>,
    texts: StrMap<String>,
    copied_texts: StrMap<String>,
    i: int,
    name: Seq<char>,
)
    requires
        call_ensures(copy_pairs, (&pairs,), copied_pairs),
        call_ensures(copy_fields, (&fields,), copied_fields),
        call_ensures(copy_texts, (&texts,), copied_texts),
    ensures
        copied_pairs@.len() == pairs@.len(),
        0 <= i < pairs@.len() ==> copied_pairs@[i].0@ == pairs@[i].0@ && copied_pairs@[i].1@
            == pairs@[i].1@,
        copied_fields@.len() == fields@.len(),
        0 <= i < fields@.len() ==> field_name(copied_fields@[i].name) == field_name(fields@[i].name)
            && field_value(copied_fields@[i].value) == field_value(fields@[i].value),
        copied_texts@.contains_key(name) <==> texts@.contains_key(name),
        texts@.contains_key(name) ==> copied_texts@[name]@ == texts@[name]@,
{
    assert(pairs_view(pairs@).len() == pairs@.len());
    assert(pairs_view(copied_pairs@).len() == copied_pairs@.len());
    assert(fields_view(fields@).len() == fields@.len());
    assert(fields_view(copied_fields@).len() == copied_fields@.len());
    if 0 <= i < pairs@.len() {
        assert(pairs_view(pairs@)[i] == (pairs@[i].0@, pairs@[i].1@));
        assert(pairs_view(copied_pairs@)[i] == (copied_pairs@[i].0@, copied_pairs@[i].1@));
    }
    if 0 <= i < fields@.len() {
        assert(fields_view(fields@)[i] == fields@[i]@);
        assert(fields_view(copied_fields@)[i] == copied_fields@[i]@);
    }
    assert(map_view(texts).contains_key(name) == texts@.contains_key(name));
    assert(map_view(copied_texts).contains_key(name) == copied_texts@.contains_key(name));
    if texts@.contains_key(name) {
        assert(map_view(texts)[name] == texts@[name]@);
        assert(map_view(copied_texts)[name] == copied_texts@[name]@);
    }
}

} // verus!
