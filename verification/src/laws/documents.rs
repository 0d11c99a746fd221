//! What of an OpenAPI document a description holds.

use vstd::prelude::*;

use openapiv3::{OpenAPI, ParameterSchemaOrContent, ReferenceOr};

use crate::document::{ApiSpec, BodyView, OperationView, ParameterView, PerMethod, RefOrView};
use crate::json::JsonView;
use crate::openapi::{
    body_entries, body_ref_view, body_view, content_entries, listed_map, media_view,
    operation_view, optional_operation_view, parameter_entries, parameter_ref_view,
    parameter_view, parsed_spec, path_entries, path_operations, path_ref_view, schema_entries,
    schema_json, schema_ref_view,
};

verus! {

/// A schema of a document, given in place or by reference.
pub open spec fn is_schema_of(
    given: ReferenceOr<openapiv3::Schema>,
    held: RefOrView<Option<JsonView>>,
) -> bool {
    match (given, held) {
        (ReferenceOr::Reference { reference }, RefOrView::Reference(text)) => text == reference@,
        (ReferenceOr::Item(schema), RefOrView::Item(json)) => json == schema_json(schema),
        _ => false,
    }
}

/// What a parameter of a document has wherever it goes.
pub open spec fn has_data(data: openapiv3::ParameterData, held: ParameterView) -> bool {
    &&& held.name == data.name@
    &&& held.required == data.required
    &&& held.description is Some <==> data.description is Some
    &&& data.description matches Some(text) ==> held.description == Some(text@)
    &&& held.schema is Some <==> data.format is Schema
    &&& data.format matches ParameterSchemaOrContent::Schema(schema) ==> is_schema_of(
        schema,
        held.schema->Some_0,
    )
}

/// A parameter of a document.
pub open spec fn is_parameter_of(given: openapiv3::Parameter, held: ParameterView) -> bool {
    match given {
        openapiv3::Parameter::Query { parameter_data, .. } => held.place is Query && has_data(
            parameter_data,
            held,
        ),
        openapiv3::Parameter::Header { parameter_data, .. } => held.place is Header && has_data(
            parameter_data,
            held,
        ),
        openapiv3::Parameter::Path { parameter_data, .. } => held.place is Path && has_data(
            parameter_data,
            held,
        ),
        openapiv3::Parameter::Cookie { parameter_data, .. } => held.place is Cookie && has_data(
            parameter_data,
            held,
        ),
    }
}

/// A parameter of a document, given in place or by reference.
pub open spec fn is_given_parameter(
    given: ReferenceOr<openapiv3::Parameter>,
    held: RefOrView<ParameterView>,
) -> bool {
    match (given, held) {
        (ReferenceOr::Reference { reference }, RefOrView::Reference(text)) => text == reference@,
        (ReferenceOr::Item(parameter), RefOrView::Item(held)) => is_parameter_of(parameter, held),
        _ => false,
    }
}

/// A request body of a document: it has the media types of the document, each with the
/// schema that stands there.
pub open spec fn is_body_of(given: openapiv3::RequestBody, held: BodyView) -> bool {
    let entries = content_entries(given.content);
    &&& held.required == given.required
    &&& forall|name: Seq<char>| #[trigger]
        held.content.contains_key(name) ==> exists|i: int|
            0 <= i < entries.len() && (#[trigger] entries[i]).0 == name
    &&& forall|i: int|
        0 <= i < entries.len() && (forall|j: int|
            i < j < entries.len() ==> (#[trigger] entries[j]).0 != entries[i].0) ==> {
            let name = (#[trigger] entries[i]).0;
            &&& held.content.contains_key(name)
            &&& held.content[name] is Some <==> entries[i].1.schema is Some
            &&& entries[i].1.schema matches Some(schema) ==> is_schema_of(
                schema,
                held.content[name]->Some_0,
            )
        }
}

/// A request body of a document, given in place or by reference.
pub open spec fn is_given_body(
    given: ReferenceOr<openapiv3::RequestBody>,
    held: RefOrView<BodyView>,
) -> bool {
    match (given, held) {
        (ReferenceOr::Reference { reference }, RefOrView::Reference(text)) => text == reference@,
        (ReferenceOr::Item(body), RefOrView::Item(held)) => is_body_of(body, held),
        _ => false,
    }
}

/// An operation of a document.
pub open spec fn is_operation_of(given: openapiv3::Operation, held: OperationView) -> bool {
    &&& held.operation_id is Some <==> given.operation_id is Some
    &&& given.operation_id matches Some(id) ==> held.operation_id == Some(id@)
    &&& held.summary is Some <==> given.summary is Some
    &&& given.summary matches Some(text) ==> held.summary == Some(text@)
    &&& held.description is Some <==> given.description is Some
    &&& given.description matches Some(text) ==> held.description == Some(text@)
    &&& held.parameters.len() == given.parameters@.len()
    &&& forall|i: int|
        0 <= i < held.parameters.len() ==> is_given_parameter(
            given.parameters@[i],
            #[trigger] held.parameters[i],
        )
    &&& held.request_body is Some <==> given.request_body is Some
    &&& given.request_body matches Some(body) ==> is_given_body(body, held.request_body->Some_0)
}

/// An operation of a document that may be missing.
pub open spec fn is_if_any(
    given: Option<openapiv3::Operation>,
    held: Option<OperationView>,
) -> bool {
    match (given, held) {
        (Some(operation), Some(held)) => is_operation_of(operation, held),
        (None, None) => true,
        _ => false,
    }
}

/// A path of a document, given in place or by reference: each method has its own
/// operation.
pub open spec fn is_given_path(
    given: ReferenceOr<openapiv3::PathItem>,
    held: RefOrView<PerMethod<OperationView>>,
) -> bool {
    match (given, held) {
        (ReferenceOr::Reference { reference }, RefOrView::Reference(text)) => text == reference@,
        (ReferenceOr::Item(item), RefOrView::Item(held)) => {
            let operations = path_operations(item);
            &&& is_if_any(operations.get, held.get)
            &&& is_if_any(operations.post, held.post)
            &&& is_if_any(operations.put, held.put)
            &&& is_if_any(operations.patch, held.patch)
            &&& is_if_any(operations.delete, held.delete)
            &&& is_if_any(operations.head, held.head)
            &&& is_if_any(operations.options, held.options)
            &&& is_if_any(operations.trace, held.trace)
        },
        _ => false,
    }
}

/// A map of entries has their names.
proof fn lemma_listed_names<V>(entries: Seq<(Seq<char>, V)>, name: Seq<char>)
    ensures
        listed_map(entries).contains_key(name) <==> exists|i: int|
            0 <= i < entries.len() && (#[trigger] entries[i]).0 == name,
    decreases entries.len(),
{
    if entries.len() > 0 {
        let front = entries.drop_last();
        lemma_listed_names(front, name);
        if listed_map(front).contains_key(name) {
            let i = choose|i: int| 0 <= i < front.len() && (#[trigger] front[i]).0 == name;
            assert(entries[i].0 == name);
        }
        if entries.last().0 == name {
            assert(entries[entries.len() - 1].0 == name);
        }
        if exists|i: int| 0 <= i < entries.len() && (#[trigger] entries[i]).0 == name {
            let i = choose|i: int| 0 <= i < entries.len() && (#[trigger] entries[i]).0 == name;
            if i < front.len() {
                assert(front[i].0 == name);
            }
        }
    }
}

/// Of entries of one name, a map has the last.
proof fn lemma_listed_last<V>(entries: Seq<(Seq<char>, V)>, i: int)
    requires
        0 <= i < entries.len(),
        forall|j: int| i < j < entries.len() ==> (#[trigger] entries[j]).0 != entries[i].0,
    ensures
        listed_map(entries).contains_key(entries[i].0),
        listed_map(entries)[entries[i].0] == entries[i].1,
    decreases entries.len(),
{
    let front = entries.drop_last();
    if i < front.len() {
        assert(entries[entries.len() - 1].0 != entries[i].0);
        assert forall|j: int| i < j < front.len() implies (#[trigger] front[j]).0
            != front[i].0 by {
            assert(entries[j].0 != entries[i].0);
        }
        lemma_listed_last(front, i);
    }
}

/// The view of a body is that of the body's media types.
proof fn lemma_body_of(given: openapiv3::RequestBody)
    ensures
        is_body_of(given, body_view(given)),
{
    let entries = content_entries(given.content);
    let held = body_view(given);
    let listed = entries.map_values(
        |entry: (Seq<char>, openapiv3::MediaType)| (entry.0, media_view(entry.1)),
    );
    assert(held.content == listed_map(listed));
    assert forall|name: Seq<char>| #[trigger]
        held.content.contains_key(name) implies exists|i: int|
        0 <= i < entries.len() && (#[trigger] entries[i]).0 == name by {
        lemma_listed_names(listed, name);
        let i = choose|i: int| 0 <= i < listed.len() && (#[trigger] listed[i]).0 == name;
        assert(entries[i].0 == name);
    }
    assert forall|i: int|
        0 <= i < entries.len() && (forall|j: int|
            i < j < entries.len() ==> (#[trigger] entries[j]).0 != entries[i].0) implies {
        let name = (#[trigger] entries[i]).0;
        &&& held.content.contains_key(name)
        &&& held.content[name] is Some <==> entries[i].1.schema is Some
        &&& entries[i].1.schema matches Some(schema) ==> is_schema_of(
            schema,
            held.content[name]->Some_0,
        )
    } by {
        assert(listed[i].0 == entries[i].0);
        assert forall|j: int| i < j < listed.len() implies (#[trigger] listed[j]).0
            != listed[i].0 by {
            assert(entries[j].0 != entries[i].0);
        }
        lemma_listed_last(listed, i);
        assert(listed[i].1 == media_view(entries[i].1));
    }
}

/// The view of a body that is given in place or by reference.
proof fn lemma_given_body(given: ReferenceOr<openapiv3::RequestBody>)
    ensures
        is_given_body(given, body_ref_view(given)),
{
    if let ReferenceOr::Item(body) = given {
        lemma_body_of(body);
    }
}

/// The view of a parameter.
proof fn lemma_given_parameter(given: ReferenceOr<openapiv3::Parameter>)
    ensures
        is_given_parameter(given, parameter_ref_view(given)),
{
    if let ReferenceOr::Item(parameter) = given {
        assert(is_parameter_of(parameter, parameter_view(parameter)));
    }
}

/// The view of an operation.
proof fn lemma_operation_of(given: openapiv3::Operation)
    ensures
        is_operation_of(given, operation_view(given)),
{
    let held = operation_view(given);
    assert forall|i: int| 0 <= i < held.parameters.len() implies is_given_parameter(
        given.parameters@[i],
        #[trigger] held.parameters[i],
    ) by {
        lemma_given_parameter(given.parameters@[i]);
    }
    if let Some(body) = given.request_body {
        lemma_given_body(body);
    }
}

/// The view of an operation that may be missing.
proof fn lemma_if_any(given: Option<openapiv3::Operation>)
    ensures
        is_if_any(given, optional_operation_view(given)),
{
    if let Some(operation) = given {
        lemma_operation_of(operation);
    }
}

/// A description has the URLs of the servers of its document, in order.
pub proof fn law_servers_are_held(document: OpenAPI, spec: ApiSpec, i: int)
    requires
        call_ensures(ApiSpec::from_document, (&document,), spec),
    ensures
        spec@.servers.len() == document.servers@.len(),
        0 <= i < document.servers@.len() ==> spec@.servers[i] == document.servers@[i].url@,
{
}

/// A description has the paths of its document, in order, each with its own operations.
pub proof fn law_paths_are_held(document: OpenAPI, spec: ApiSpec, i: int)
    requires
        call_ensures(ApiSpec::from_document, (&document,), spec),
    ensures
        spec@.paths.len() == path_entries(document.paths.paths).len(),
        0 <= i < spec@.paths.len() ==> {
            let entry = path_entries(document.paths.paths)[i];
            &&& spec@.paths[i].0 == entry.0
            &&& is_given_path(entry.1, spec@.paths[i].1)
        },
{
    let entries = path_entries(document.paths.paths);
    if 0 <= i < entries.len() {
        let entry = entries[i];
        assert(spec@.paths[i].1 == path_ref_view(entry.1));
        if let ReferenceOr::Item(item) = entry.1 {
            let operations = path_operations(item);
            lemma_if_any(operations.get);
            lemma_if_any(operations.post);
            lemma_if_any(operations.put);
            lemma_if_any(operations.patch);
            lemma_if_any(operations.delete);
            lemma_if_any(operations.head);
            lemma_if_any(operations.options);
            lemma_if_any(operations.trace);
        }
    }
}

/// No later entry has the name of an entry.
pub open spec fn is_last_of_name<V>(entries: Seq<(Seq<char>, V)>, i: int) -> bool {
    &&& 0 <= i < entries.len()
    &&& forall|j: int| i < j < entries.len() ==> (#[trigger] entries[j]).0 != entries[i].0
}

/// An entry has a name.
pub open spec fn lists<V>(entries: Seq<(Seq<char>, V)>, name: Seq<char>) -> bool {
    exists|i: int| 0 <= i < entries.len() && (#[trigger] entries[i]).0 == name
}

/// Entries that are looked at one by one have the same names.
proof fn lemma_mapped<V, W>(
    entries: Seq<(Seq<char>, V)>,
    mapped: Seq<(Seq<char>, W)>,
    i: int,
    name: Seq<char>,
)
    requires
        mapped.len() == entries.len(),
        forall|k: int| 0 <= k < mapped.len() ==> (#[trigger] mapped[k]).0 == entries[k].0,
    ensures
        listed_map(mapped).contains_key(name) <==> lists(entries, name),
        is_last_of_name(entries, i) ==> listed_map(mapped).contains_key(entries[i].0)
            && listed_map(mapped)[entries[i].0] == mapped[i].1,
{
    lemma_listed_names(mapped, name);
    if lists(entries, name) {
        let k = choose|k: int| 0 <= k < entries.len() && (#[trigger] entries[k]).0 == name;
        assert(mapped[k].0 == name);
    }
    if listed_map(mapped).contains_key(name) {
        let k = choose|k: int| 0 <= k < mapped.len() && (#[trigger] mapped[k]).0 == name;
        assert(entries[k].0 == name);
    }
    if is_last_of_name(entries, i) {
        assert forall|j: int| i < j < mapped.len() implies (#[trigger] mapped[j]).0
            != mapped[i].0 by {
            assert(entries[j].0 != entries[i].0);
        }
        lemma_listed_last(mapped, i);
    }
}

/// A description has the named schemas, parameters and request bodies of its document,
/// and no others.
pub proof fn law_components_are_held(document: OpenAPI, spec: ApiSpec, i: int, name: Seq<char>)
    requires
        call_ensures(ApiSpec::from_document, (&document,), spec),
    ensures
        spec@.components is Some <==> document.components is Some,
        document.components matches Some(components) ==> {
            let held = spec@.components->Some_0;
            let schemas = schema_entries(components.schemas);
            let parameters = parameter_entries(components.parameters);
            let bodies = body_entries(components.request_bodies);
            &&& held.schemas.contains_key(name) <==> lists(schemas, name)
            &&& is_last_of_name(schemas, i) ==> is_schema_of(
                schemas[i].1,
                held.schemas[schemas[i].0],
            )
            &&& held.parameters.contains_key(name) <==> lists(parameters, name)
            &&& is_last_of_name(parameters, i) ==> is_given_parameter(
                parameters[i].1,
                held.parameters[parameters[i].0],
            )
            &&& held.request_bodies.contains_key(name) <==> lists(bodies, name)
            &&& is_last_of_name(bodies, i) ==> is_given_body(
                bodies[i].1,
                held.request_bodies[bodies[i].0],
            )
        },
{
    if let Some(components) = document.components {
        let held = spec@.components->Some_0;
        let schemas = schema_entries(components.schemas);
        let parameters = parameter_entries(components.parameters);
        let bodies = body_entries(components.request_bodies);
        let mapped_schemas = schemas.map_values(
            |entry: (Seq<char>, ReferenceOr<openapiv3::Schema>)|
                (entry.0, schema_ref_view(entry.1)),
        );
        let mapped_parameters = parameters.map_values(
            |entry: (Seq<char>, ReferenceOr<openapiv3::Parameter>)|
                (entry.0, parameter_ref_view(entry.1)),
        );
        let mapped_bodies = bodies.map_values(
            |entry: (Seq<char>, ReferenceOr<openapiv3::RequestBody>)|
                (entry.0, body_ref_view(entry.1)),
        );
        assert(held.schemas == listed_map(mapped_schemas));
        assert(held.parameters == listed_map(mapped_parameters));
        assert(held.request_bodies == listed_map(mapped_bodies));
        lemma_mapped(schemas, mapped_schemas, i, name);
        lemma_mapped(parameters, mapped_parameters, i, name);
        lemma_mapped(bodies, mapped_bodies, i, name);
        if 0 <= i < parameters.len() {
            lemma_given_parameter(parameters[i].1);
        }
        if 0 <= i < bodies.len() {
            lemma_given_body(bodies[i].1);
        }
    }
}

/// A text is read as the description that it holds, and refused if it holds none.
pub proof fn law_texts_are_read(text: &str, read: Result<ApiSpec, serde_yaml::Error>)
    requires
        call_ensures(ApiSpec::from_text, (text,), read),
    ensures
        read is Ok <==> parsed_spec(text@) is Some,
        read matches Ok(spec) ==> parsed_spec(text@) == Some(spec@),
{
}

} // verus!
