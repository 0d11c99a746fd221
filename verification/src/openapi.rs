//! Documents of the `openapiv3` crate: how they are read from text, and what of them
//! makes an API description.

use vstd::prelude::*;

use indexmap::IndexMap;
use openapiv3::{OpenAPI, ParameterSchemaOrContent, ReferenceOr};

use crate::document::{
    entries_view, lemma_entries_push, map_view, optional, ApiBody, ApiComponents, ApiMedia,
    ApiOperation, ApiParameter, ApiSchema, ApiSpec, BodyView, ComponentsView, OperationView,
    ParamPlace, ParameterView, PerMethod, RefOr, RefOrView, SpecView,
};
use crate::json::JsonView;
use crate::resolve::{inlinable, object_schemas};
use crate::serde_value::{json_from_value, value_json};
use crate::str_map::StrMap;
use crate::yaml::reads_once;

verus! {

/// Declares `indexmap::IndexMap`, the map that a document keeps its parts in.
#[verifier::external_type_specification]
#[verifier::external_body]
#[verifier::reject_recursive_types(K)]
#[verifier::reject_recursive_types(V)]
#[verifier::reject_recursive_types(S)]
pub struct ExIndexMap<K, V, S>(IndexMap<K, V, S>);

/// Declares `openapiv3::OpenAPI` with its fields.
#[verifier::external_type_specification]
pub struct ExOpenAPI(openapiv3::OpenAPI);

/// Declares `openapiv3::Server` with its fields.
#[verifier::external_type_specification]
pub struct ExServer(openapiv3::Server);

/// Declares `openapiv3::Paths` with its fields.
#[verifier::external_type_specification]
pub struct ExPaths(openapiv3::Paths);

/// Declares `openapiv3::Operation` with its fields.
#[verifier::external_type_specification]
pub struct ExOperation(openapiv3::Operation);

/// Declares `openapiv3::Parameter` with its variants.
#[verifier::external_type_specification]
pub struct ExParameter(openapiv3::Parameter);

/// Declares `openapiv3::ParameterData` with its fields.
#[verifier::external_type_specification]
pub struct ExParameterData(openapiv3::ParameterData);

/// Declares `openapiv3::ParameterSchemaOrContent` with its variants.
#[verifier::external_type_specification]
pub struct ExParameterSchemaOrContent(openapiv3::ParameterSchemaOrContent);

/// Declares `openapiv3::RequestBody` with its fields.
#[verifier::external_type_specification]
pub struct ExRequestBody(openapiv3::RequestBody);

/// Declares `openapiv3::MediaType` with its fields.
#[verifier::external_type_specification]
pub struct ExMediaType(openapiv3::MediaType);

/// Declares `openapiv3::Components` with its fields.
#[verifier::external_type_specification]
pub struct ExComponents(openapiv3::Components);

/// Declares `openapiv3::ReferenceOr` with its variants.
#[verifier::external_type_specification]
#[verifier::reject_recursive_types(T)]
pub struct ExReferenceOr<T>(openapiv3::ReferenceOr<T>);

/// Declares `openapiv3::PathItem`; [`path_operations`] is what one holds.
#[verifier::external_type_specification]
#[verifier::external_body]
pub struct ExPathItem(openapiv3::PathItem);

/// Declares `openapiv3::Schema`; [`schema_json`] is its JSON form.
#[verifier::external_type_specification]
#[verifier::external_body]
pub struct ExSchema(openapiv3::Schema);

/// Declares `openapiv3::Info`, which no tool reads.
#[verifier::external_type_specification]
#[verifier::external_body]
pub struct ExInfo(openapiv3::Info);

/// Declares `openapiv3::Tag`, which no tool reads.
#[verifier::external_type_specification]
#[verifier::external_body]
pub struct ExTag(openapiv3::Tag);

/// Declares `openapiv3::ExternalDocumentation`, which no tool reads.
#[verifier::external_type_specification]
#[verifier::external_body]
pub struct ExExternalDocumentation(openapiv3::ExternalDocumentation);

/// Declares `openapiv3::ServerVariable`, which no tool reads.
#[verifier::external_type_specification]
#[verifier::external_body]
pub struct ExServerVariable(openapiv3::ServerVariable);

/// Declares `openapiv3::Responses`, which no tool reads.
#[verifier::external_type_specification]
#[verifier::external_body]
pub struct ExResponses(openapiv3::Responses);

/// Declares `openapiv3::Response`, which no tool reads.
#[verifier::external_type_specification]
#[verifier::external_body]
pub struct ExResponse(openapiv3::Response);

/// Declares `openapiv3::Example`, which no tool reads.
#[verifier::external_type_specification]
#[verifier::external_body]
pub struct ExExample(openapiv3::Example);

/// Declares `openapiv3::Encoding`, which no tool reads.
#[verifier::external_type_specification]
#[verifier::external_body]
pub struct ExEncoding(openapiv3::Encoding);

/// Declares `openapiv3::Header`, which no tool reads.
#[verifier::external_type_specification]
#[verifier::external_body]
pub struct ExHeader(openapiv3::Header);

/// Declares `openapiv3::SecurityScheme`, which no tool reads.
#[verifier::external_type_specification]
#[verifier::external_body]
pub struct ExSecurityScheme(openapiv3::SecurityScheme);

/// Declares `openapiv3::Link`, which no tool reads.
#[verifier::external_type_specification]
#[verifier::external_body]
pub struct ExLink(openapiv3::Link);

/// Declares `openapiv3::QueryStyle`, which no tool reads.
#[verifier::external_type_specification]
#[verifier::external_body]
pub struct ExQueryStyle(openapiv3::QueryStyle);

/// Declares `openapiv3::HeaderStyle`, which no tool reads.
#[verifier::external_type_specification]
#[verifier::external_body]
pub struct ExHeaderStyle(openapiv3::HeaderStyle);

/// Declares `openapiv3::PathStyle`, which no tool reads.
#[verifier::external_type_specification]
#[verifier::external_body]
pub struct ExPathStyle(openapiv3::PathStyle);

/// Declares `openapiv3::CookieStyle`, which no tool reads.
#[verifier::external_type_specification]
#[verifier::external_body]
pub struct ExCookieStyle(openapiv3::CookieStyle);

/// The description that a text holds, as `serde_yaml` and `openapiv3` read it;
/// `None` if they read no document from it.
pub uninterp spec fn parsed_spec(text: Seq<char>) -> Option<SpecView>;

/// The JSON form of a schema, as `serde_json::to_value` gives it; `None` if it gives
/// none.
pub uninterp spec fn schema_json(schema: openapiv3::Schema) -> Option<JsonView>;

/// What a path holds for each method.
pub uninterp spec fn path_operations(item: openapiv3::PathItem) -> PerMethod<openapiv3::Operation>;

/// The paths of a document, in order.
pub uninterp spec fn path_entries(paths: IndexMap<String, ReferenceOr<openapiv3::PathItem>>) -> Seq<
    (Seq<char>, ReferenceOr<openapiv3::PathItem>),
>;

/// The named schemas of a document, in order.
pub uninterp spec fn schema_entries(
    schemas: IndexMap<String, ReferenceOr<openapiv3::Schema>>,
) -> Seq<(Seq<char>, ReferenceOr<openapiv3::Schema>)>;

/// The named parameters of a document, in order.
pub uninterp spec fn parameter_entries(
    parameters: IndexMap<String, ReferenceOr<openapiv3::Parameter>>,
) -> Seq<(Seq<char>, ReferenceOr<openapiv3::Parameter>)>;

/// The named request bodies of a document, in order.
pub uninterp spec fn body_entries(
    bodies: IndexMap<String, ReferenceOr<openapiv3::RequestBody>>,
) -> Seq<(Seq<char>, ReferenceOr<openapiv3::RequestBody>)>;

/// The media types of a request body, in order.
pub uninterp spec fn content_entries(content: IndexMap<String, openapiv3::MediaType>) -> Seq<
    (Seq<char>, openapiv3::MediaType),
>;

/// `IndexMap::iter` over the paths of a document: every entry once, in order.
#[verifier::external_body]
fn list_paths(paths: &IndexMap<String, ReferenceOr<openapiv3::PathItem>>) -> (list: Vec<
    (&String, &ReferenceOr<openapiv3::PathItem>),
>)
    ensures
        list@.len() == path_entries(*paths).len(),
        forall|i: int|
            0 <= i < list@.len() ==> (#[trigger] list@[i]).0@ == path_entries(*paths)[i].0
                && *list@[i].1 == path_entries(*paths)[i].1,
{
    paths.iter().collect()
}

/// `IndexMap::iter` over the named schemas of a document: every entry once, in order.
#[verifier::external_body]
fn list_schemas(schemas: &IndexMap<String, ReferenceOr<openapiv3::Schema>>) -> (list: Vec<
    (&String, &ReferenceOr<openapiv3::Schema>),
>)
    ensures
        list@.len() == schema_entries(*schemas).len(),
        forall|i: int|
            0 <= i < list@.len() ==> (#[trigger] list@[i]).0@ == schema_entries(*schemas)[i].0
                && *list@[i].1 == schema_entries(*schemas)[i].1,
{
    schemas.iter().collect()
}

/// `IndexMap::iter` over the named parameters of a document: every entry once, in
/// order.
#[verifier::external_body]
fn list_parameters(parameters: &IndexMap<String, ReferenceOr<openapiv3::Parameter>>) -> (list: Vec<
    (&String, &ReferenceOr<openapiv3::Parameter>),
>)
    ensures
        list@.len() == parameter_entries(*parameters).len(),
        forall|i: int|
            0 <= i < list@.len() ==> (#[trigger] list@[i]).0@ == parameter_entries(*parameters)[i].0
                && *list@[i].1 == parameter_entries(*parameters)[i].1,
{
    parameters.iter().collect()
}

/// `IndexMap::iter` over the named request bodies of a document: every entry once, in
/// order.
#[verifier::external_body]
fn list_bodies(bodies: &IndexMap<String, ReferenceOr<openapiv3::RequestBody>>) -> (list: Vec<
    (&String, &ReferenceOr<openapiv3::RequestBody>),
>)
    ensures
        list@.len() == body_entries(*bodies).len(),
        forall|i: int|
            0 <= i < list@.len() ==> (#[trigger] list@[i]).0@ == body_entries(*bodies)[i].0
                && *list@[i].1 == body_entries(*bodies)[i].1,
{
    bodies.iter().collect()
}

/// `IndexMap::iter` over the media types of a request body: every entry once, in
/// order.
#[verifier::external_body]
fn list_content(content: &IndexMap<String, openapiv3::MediaType>) -> (list: Vec<
    (&String, &openapiv3::MediaType),
>)
    ensures
        list@.len() == content_entries(*content).len(),
        forall|i: int|
            0 <= i < list@.len() ==> (#[trigger] list@[i]).0@ == content_entries(*content)[i].0
                && *list@[i].1 == content_entries(*content)[i].1,
{
    content.iter().collect()
}

/// The operations of a path, one for each method: the fields of `openapiv3::PathItem`
/// with those names.
#[verifier::external_body]
fn operations_of(item: &openapiv3::PathItem) -> (operations: PerMethod<&openapiv3::Operation>)
    ensures
        same_operations(operations, path_operations(*item)),
{
    PerMethod {
        get: item.get.as_ref(),
        post: item.post.as_ref(),
        put: item.put.as_ref(),
        patch: item.patch.as_ref(),
        delete: item.delete.as_ref(),
        head: item.head.as_ref(),
        options: item.options.as_ref(),
        trace: item.trace.as_ref(),
    }
}

/// `serde_json::to_value` of a schema: whether there is a value, and what it says, is
/// decided by the schema. Both fields of a schema are flattened into one map, so that
/// the value is an object.
#[verifier::external_body]
fn schema_value(schema: &openapiv3::Schema) -> (value: Result<serde_json::Value, serde_json::Error>)
    ensures
        match value {
            Ok(value) => schema_json(*schema) == Some(value_json(value)),
            Err(_) => schema_json(*schema) is None,
        },
        value matches Ok(value) ==> value_json(value) is Object,
{
    serde_json::to_value(schema)
}

/// `serde_yaml::from_str` into an `openapiv3::OpenAPI`: whether there is a document,
/// and what description it holds, is decided by the text. It would panic where an item
/// is read at the second try only.
#[verifier::external_body]
fn parse_document(text: &str) -> (read: Result<OpenAPI, serde_yaml::Error>)
    requires
        reads_once(text@),
    ensures
        match read {
            Ok(document) => parsed_spec(text@) == Some(document_view(document)),
            Err(_) => parsed_spec(text@) is None,
        },
{
    serde_yaml::from_str(text)
}

/// Two sets of operations are the same, one read in place and one as a value.
pub open spec fn same_operations(
    read: PerMethod<&openapiv3::Operation>,
    held: PerMethod<openapiv3::Operation>,
) -> bool {
    &&& same_operation(read.get, held.get)
    &&& same_operation(read.post, held.post)
    &&& same_operation(read.put, held.put)
    &&& same_operation(read.patch, held.patch)
    &&& same_operation(read.delete, held.delete)
    &&& same_operation(read.head, held.head)
    &&& same_operation(read.options, held.options)
    &&& same_operation(read.trace, held.trace)
}

/// Two operations that may be missing are the same.
pub open spec fn same_operation(
    read: Option<&openapiv3::Operation>,
    held: Option<openapiv3::Operation>,
) -> bool {
    match read {
        Some(operation) => held == Some(*operation),
        None => held is None,
    }
}

/// The view of a schema given in place or by reference.
pub open spec fn schema_ref_view(schema: ReferenceOr<openapiv3::Schema>) -> RefOrView<
    Option<JsonView>,
> {
    match schema {
        ReferenceOr::Reference { reference } => RefOrView::Reference(reference@),
        ReferenceOr::Item(schema) => RefOrView::Item(schema_json(schema)),
    }
}

/// The view of a parameter of a document.
pub open spec fn parameter_view(parameter: openapiv3::Parameter) -> ParameterView {
    match parameter {
        openapiv3::Parameter::Query { parameter_data, .. } => parameter_data_view(
            ParamPlace::Query,
            parameter_data,
        ),
        openapiv3::Parameter::Header { parameter_data, .. } => parameter_data_view(
            ParamPlace::Header,
            parameter_data,
        ),
        openapiv3::Parameter::Path { parameter_data, .. } => parameter_data_view(
            ParamPlace::Path,
            parameter_data,
        ),
        openapiv3::Parameter::Cookie { parameter_data, .. } => parameter_data_view(
            ParamPlace::Cookie,
            parameter_data,
        ),
    }
}

/// The view of what a parameter has wherever it goes.
pub open spec fn parameter_data_view(
    place: ParamPlace,
    data: openapiv3::ParameterData,
) -> ParameterView {
    ParameterView {
        place,
        name: data.name@,
        description: optional(data.description),
        required: data.required,
        schema: match data.format {
            ParameterSchemaOrContent::Schema(schema) => Some(schema_ref_view(schema)),
            ParameterSchemaOrContent::Content(_) => None,
        },
    }
}

/// The view of a parameter given in place or by reference.
pub open spec fn parameter_ref_view(parameter: ReferenceOr<openapiv3::Parameter>) -> RefOrView<
    ParameterView,
> {
    match parameter {
        ReferenceOr::Reference { reference } => RefOrView::Reference(reference@),
        ReferenceOr::Item(parameter) => RefOrView::Item(parameter_view(parameter)),
    }
}

/// The view of one media type.
pub open spec fn media_view(media: openapiv3::MediaType) -> Option<RefOrView<Option<JsonView>>> {
    match media.schema {
        Some(schema) => Some(schema_ref_view(schema)),
        None => None,
    }
}

/// What entries mean as a map.
pub open spec fn listed_map<V>(entries: Seq<(Seq<char>, V)>) -> Map<Seq<char>, V>
    decreases entries.len(),
{
    if entries.len() == 0 {
        Map::empty()
    } else {
        listed_map(entries.drop_last()).insert(entries.last().0, entries.last().1)
    }
}

/// The view of a request body of a document.
pub open spec fn body_view(body: openapiv3::RequestBody) -> BodyView {
    BodyView {
        content: listed_map(
            content_entries(body.content).map_values(
                |entry: (Seq<char>, openapiv3::MediaType)| (entry.0, media_view(entry.1)),
            ),
        ),
        required: body.required,
    }
}

/// The view of a request body given in place or by reference.
pub open spec fn body_ref_view(body: ReferenceOr<openapiv3::RequestBody>) -> RefOrView<BodyView> {
    match body {
        ReferenceOr::Reference { reference } => RefOrView::Reference(reference@),
        ReferenceOr::Item(body) => RefOrView::Item(body_view(body)),
    }
}

/// The view of an operation of a document.
pub open spec fn operation_view(operation: openapiv3::Operation) -> OperationView {
    OperationView {
        operation_id: optional(operation.operation_id),
        summary: optional(operation.summary),
        description: optional(operation.description),
        parameters: operation.parameters@.map_values(
            |parameter: ReferenceOr<openapiv3::Parameter>| parameter_ref_view(parameter),
        ),
        request_body: match operation.request_body {
            Some(body) => Some(body_ref_view(body)),
            None => None,
        },
    }
}

/// The view of an operation that may be missing.
pub open spec fn optional_operation_view(operation: Option<openapiv3::Operation>) -> Option<
    OperationView,
> {
    match operation {
        Some(operation) => Some(operation_view(operation)),
        None => None,
    }
}

/// The view of a path given in place or by reference.
pub open spec fn path_ref_view(path: ReferenceOr<openapiv3::PathItem>) -> RefOrView<
    PerMethod<OperationView>,
> {
    match path {
        ReferenceOr::Reference { reference } => RefOrView::Reference(reference@),
        ReferenceOr::Item(item) => RefOrView::Item(
            PerMethod {
                get: optional_operation_view(path_operations(item).get),
                post: optional_operation_view(path_operations(item).post),
                put: optional_operation_view(path_operations(item).put),
                patch: optional_operation_view(path_operations(item).patch),
                delete: optional_operation_view(path_operations(item).delete),
                head: optional_operation_view(path_operations(item).head),
                options: optional_operation_view(path_operations(item).options),
                trace: optional_operation_view(path_operations(item).trace),
            },
        ),
    }
}

/// The view of the components of a document.
pub open spec fn components_view(components: openapiv3::Components) -> ComponentsView {
    ComponentsView {
        schemas: listed_map(
            schema_entries(components.schemas).map_values(
                |entry: (Seq<char>, ReferenceOr<openapiv3::Schema>)|
                    (entry.0, schema_ref_view(entry.1)),
            ),
        ),
        parameters: listed_map(
            parameter_entries(components.parameters).map_values(
                |entry: (Seq<char>, ReferenceOr<openapiv3::Parameter>)|
                    (entry.0, parameter_ref_view(entry.1)),
            ),
        ),
        request_bodies: listed_map(
            body_entries(components.request_bodies).map_values(
                |entry: (Seq<char>, ReferenceOr<openapiv3::RequestBody>)|
                    (entry.0, body_ref_view(entry.1)),
            ),
        ),
    }
}

/// The description that a document holds.
pub open spec fn document_view(document: OpenAPI) -> SpecView {
    SpecView {
        servers: document.servers@.map_values(|server: openapiv3::Server| server.url@),
        paths: path_entries(document.paths.paths).map_values(
            |entry: (Seq<char>, ReferenceOr<openapiv3::PathItem>)|
                (entry.0, path_ref_view(entry.1)),
        ),
        components: match document.components {
            Some(components) => Some(components_view(components)),
            None => None,
        },
    }
}

/// The plain form of a schema.
fn schema_from(schema: &openapiv3::Schema) -> (plain: ApiSchema)
    ensures
        plain@ == schema_json(*schema),
        plain@ matches Some(json) ==> json is Object,
{
    match schema_value(schema) {
        Ok(value) => ApiSchema { json: Some(json_from_value(value)) },
        Err(_) => ApiSchema { json: None },
    }
}

/// The plain form of a schema given in place or by reference.
fn schema_ref_from(schema: &ReferenceOr<openapiv3::Schema>) -> (plain: RefOr<ApiSchema>)
    ensures
        plain@ == schema_ref_view(*schema),
        plain@ matches RefOrView::Item(Some(json)) ==> json is Object,
{
    match schema {
        ReferenceOr::Reference { reference } => RefOr::Reference(reference.clone()),
        ReferenceOr::Item(schema) => RefOr::Item(schema_from(schema)),
    }
}

/// A copy of a text that may be missing.
fn text_from(text: &Option<String>) -> (copy: Option<String>)
    ensures
        optional(copy) == optional(*text),
{
    match text {
        Some(text) => Some(text.clone()),
        None => None,
    }
}

/// The plain form of what a parameter has wherever it goes.
fn parameter_data_from(place: ParamPlace, data: &openapiv3::ParameterData) -> (plain: ApiParameter)
    ensures
        plain@ == parameter_data_view(place, *data),
{
    let schema = match &data.format {
        ParameterSchemaOrContent::Schema(schema) => Some(schema_ref_from(schema)),
        ParameterSchemaOrContent::Content(_) => None,
    };
    ApiParameter {
        place,
        name: data.name.clone(),
        description: text_from(&data.description),
        required: data.required,
        schema,
    }
}

/// The plain form of a parameter.
fn parameter_from(parameter: &openapiv3::Parameter) -> (plain: ApiParameter)
    ensures
        plain@ == parameter_view(*parameter),
{
    match parameter {
        openapiv3::Parameter::Query { parameter_data, .. } => parameter_data_from(
            ParamPlace::Query,
            parameter_data,
        ),
        openapiv3::Parameter::Header { parameter_data, .. } => parameter_data_from(
            ParamPlace::Header,
            parameter_data,
        ),
        openapiv3::Parameter::Path { parameter_data, .. } => parameter_data_from(
            ParamPlace::Path,
            parameter_data,
        ),
        openapiv3::Parameter::Cookie { parameter_data, .. } => parameter_data_from(
            ParamPlace::Cookie,
            parameter_data,
        ),
    }
}

/// The plain form of a parameter given in place or by reference.
fn parameter_ref_from(parameter: &ReferenceOr<openapiv3::Parameter>) -> (plain: RefOr<ApiParameter>)
    ensures
        plain@ == parameter_ref_view(*parameter),
{
    match parameter {
        ReferenceOr::Reference { reference } => RefOr::Reference(reference.clone()),
        ReferenceOr::Item(parameter) => RefOr::Item(parameter_from(parameter)),
    }
}

/// The plain form of one media type.
fn media_from(media: &openapiv3::MediaType) -> (plain: ApiMedia)
    ensures
        plain@ == media_view(*media),
{
    let schema = match &media.schema {
        Some(schema) => Some(schema_ref_from(schema)),
        None => None,
    };
    ApiMedia { schema }
}

/// The plain form of the media types of a request body.
fn content_from(source: &IndexMap<String, openapiv3::MediaType>) -> (map: StrMap<ApiMedia>)
    ensures
        map_view(map) == listed_map(
            content_entries(*source).map_values(
                |entry: (Seq<char>, openapiv3::MediaType)| (entry.0, media_view(entry.1)),
            ),
        ),
{
    let list = list_content(source);
    let ghost listed = content_entries(*source).map_values(
        |entry: (Seq<char>, openapiv3::MediaType)| (entry.0, media_view(entry.1)),
    );
    let mut entries: Vec<(String, ApiMedia)> = Vec::new();
    let mut i: usize = 0;
    assert(listed.take(0) =~= Seq::empty());
    assert(entries_view(entries@) =~= listed_map(listed.take(0)));
    while i < list.len()
        invariant
            i <= list@.len(),
            list@.len() == content_entries(*source).len(),
            listed == content_entries(*source).map_values(
                |entry: (Seq<char>, openapiv3::MediaType)| (entry.0, media_view(entry.1)),
            ),
            forall|j: int|
                0 <= j < list@.len() ==> (#[trigger] list@[j]).0@ == content_entries(*source)[j].0
                    && *list@[j].1 == content_entries(*source)[j].1,
            entries_view(entries@) == listed_map(listed.take(i as int)),
        decreases list@.len() - i,
    {
        let key = list[i].0.clone();
        let value = media_from(list[i].1);
        proof {
            lemma_entries_push(entries@, (key, value));
            assert(listed.take(i + 1).drop_last() =~= listed.take(i as int));
            assert(listed[i as int] == (key@, value@));
        }
        entries.push((key, value));
        i += 1;
    }
    assert(listed.take(i as int) =~= listed);
    StrMap { entries }
}

/// The plain form of a request body.
fn body_from(body: &openapiv3::RequestBody) -> (plain: ApiBody)
    ensures
        plain@ == body_view(*body),
{
    ApiBody { content: content_from(&body.content), required: body.required }
}

/// The plain form of a request body given in place or by reference.
fn body_ref_from(body: &ReferenceOr<openapiv3::RequestBody>) -> (plain: RefOr<ApiBody>)
    ensures
        plain@ == body_ref_view(*body),
{
    match body {
        ReferenceOr::Reference { reference } => RefOr::Reference(reference.clone()),
        ReferenceOr::Item(body) => RefOr::Item(body_from(body)),
    }
}

/// The plain form of an operation.
fn operation_from(operation: &openapiv3::Operation) -> (plain: ApiOperation)
    ensures
        plain@ == operation_view(*operation),
{
    let mut parameters: Vec<RefOr<ApiParameter>> = Vec::new();
    let mut i: usize = 0;
    while i < operation.parameters.len()
        invariant
            i <= operation.parameters@.len(),
            parameters@.len() == i,
            forall|j: int|
                0 <= j < i ==> (#[trigger] parameters@[j])@ == parameter_ref_view(
                    operation.parameters@[j],
                ),
        decreases operation.parameters@.len() - i,
    {
        parameters.push(parameter_ref_from(&operation.parameters[i]));
        i += 1;
    }
    let request_body = match &operation.request_body {
        Some(body) => Some(body_ref_from(body)),
        None => None,
    };
    let plain = ApiOperation {
        operation_id: text_from(&operation.operation_id),
        summary: text_from(&operation.summary),
        description: text_from(&operation.description),
        parameters,
        request_body,
    };
    assert(plain@.parameters =~= operation_view(*operation).parameters);
    plain
}

/// The plain form of an operation that may be missing.
fn optional_operation_from(operation: Option<&openapiv3::Operation>) -> (plain: Option<
    ApiOperation,
>)
    ensures
        match operation {
            Some(operation) => optional(plain) == Some(operation_view(*operation)),
            None => plain is None,
        },
{
    match operation {
        Some(operation) => Some(operation_from(operation)),
        None => None,
    }
}

/// The plain form of a path given in place or by reference.
fn path_ref_from(path: &ReferenceOr<openapiv3::PathItem>) -> (plain: RefOr<PerMethod<ApiOperation>>)
    ensures
        plain@ == path_ref_view(*path),
{
    match path {
        ReferenceOr::Reference { reference } => RefOr::Reference(reference.clone()),
        ReferenceOr::Item(item) => {
            let operations = operations_of(item);
            RefOr::Item(
                PerMethod {
                    get: optional_operation_from(operations.get),
                    post: optional_operation_from(operations.post),
                    put: optional_operation_from(operations.put),
                    patch: optional_operation_from(operations.patch),
                    delete: optional_operation_from(operations.delete),
                    head: optional_operation_from(operations.head),
                    options: optional_operation_from(operations.options),
                    trace: optional_operation_from(operations.trace),
                },
            )
        },
    }
}

/// The plain form of the named schemas of a document.
fn schemas_from(source: &IndexMap<String, ReferenceOr<openapiv3::Schema>>) -> (map: StrMap<
    RefOr<ApiSchema>,
>)
    ensures
        map_view(map) == listed_map(
            schema_entries(*source).map_values(
                |entry: (Seq<char>, ReferenceOr<openapiv3::Schema>)|
                    (entry.0, schema_ref_view(entry.1)),
            ),
        ),
        forall|name: Seq<char>| #[trigger]
            map_view(map).contains_key(name) ==> (map_view(map)[name] matches RefOrView::Item(
                Some(json),
            ) ==> json is Object),
{
    let list = list_schemas(source);
    let ghost listed = schema_entries(*source).map_values(
        |entry: (Seq<char>, ReferenceOr<openapiv3::Schema>)|
            (entry.0, schema_ref_view(entry.1)),
    );
    let mut entries: Vec<(String, RefOr<ApiSchema>)> = Vec::new();
    let mut i: usize = 0;
    assert(listed.take(0) =~= Seq::empty());
    assert(entries_view(entries@) =~= listed_map(listed.take(0)));
    while i < list.len()
        invariant
            i <= list@.len(),
            list@.len() == schema_entries(*source).len(),
            listed == schema_entries(*source).map_values(
                |entry: (Seq<char>, ReferenceOr<openapiv3::Schema>)|
                    (entry.0, schema_ref_view(entry.1)),
            ),
            forall|j: int|
                0 <= j < list@.len() ==> (#[trigger] list@[j]).0@ == schema_entries(*source)[j].0
                    && *list@[j].1 == schema_entries(*source)[j].1,
            entries_view(entries@) == listed_map(listed.take(i as int)),
            forall|name: Seq<char>| #[trigger]
                entries_view(entries@).contains_key(name) ==> (entries_view(
                    entries@,
                )[name] matches RefOrView::Item(Some(json)) ==> json is Object),
        decreases list@.len() - i,
    {
        let key = list[i].0.clone();
        let value = schema_ref_from(list[i].1);
        proof {
            lemma_entries_push(entries@, (key, value));
            assert(listed.take(i + 1).drop_last() =~= listed.take(i as int));
            assert(listed[i as int] == (key@, value@));
        }
        entries.push((key, value));
        i += 1;
    }
    assert(listed.take(i as int) =~= listed);
    StrMap { entries }
}

/// The plain form of the named parameters of a document.
fn parameters_from(source: &IndexMap<String, ReferenceOr<openapiv3::Parameter>>) -> (map: StrMap<
    RefOr<ApiParameter>,
>)
    ensures
        map_view(map) == listed_map(
            parameter_entries(*source).map_values(
                |entry: (Seq<char>, ReferenceOr<openapiv3::Parameter>)|
                    (entry.0, parameter_ref_view(entry.1)),
            ),
        ),
{
    let list = list_parameters(source);
    let ghost listed = parameter_entries(*source).map_values(
        |entry: (Seq<char>, ReferenceOr<openapiv3::Parameter>)|
            (entry.0, parameter_ref_view(entry.1)),
    );
    let mut entries: Vec<(String, RefOr<ApiParameter>)> = Vec::new();
    let mut i: usize = 0;
    assert(listed.take(0) =~= Seq::empty());
    assert(entries_view(entries@) =~= listed_map(listed.take(0)));
    while i < list.len()
        invariant
            i <= list@.len(),
            list@.len() == parameter_entries(*source).len(),
            listed == parameter_entries(*source).map_values(
                |entry: (Seq<char>, ReferenceOr<openapiv3::Parameter>)|
                    (entry.0, parameter_ref_view(entry.1)),
            ),
            forall|j: int|
                0 <= j < list@.len() ==> (#[trigger] list@[j]).0@ == parameter_entries(*source)[j].0
                    && *list@[j].1 == parameter_entries(*source)[j].1,
            entries_view(entries@) == listed_map(listed.take(i as int)),
        decreases list@.len() - i,
    {
        let key = list[i].0.clone();
        let value = parameter_ref_from(list[i].1);
        proof {
            lemma_entries_push(entries@, (key, value));
            assert(listed.take(i + 1).drop_last() =~= listed.take(i as int));
            assert(listed[i as int] == (key@, value@));
        }
        entries.push((key, value));
        i += 1;
    }
    assert(listed.take(i as int) =~= listed);
    StrMap { entries }
}

/// The plain form of the named request bodies of a document.
fn bodies_from(source: &IndexMap<String, ReferenceOr<openapiv3::RequestBody>>) -> (map: StrMap<
    RefOr<ApiBody>,
>)
    ensures
        map_view(map) == listed_map(
            body_entries(*source).map_values(
                |entry: (Seq<char>, ReferenceOr<openapiv3::RequestBody>)|
                    (entry.0, body_ref_view(entry.1)),
            ),
        ),
{
    let list = list_bodies(source);
    let ghost listed = body_entries(*source).map_values(
        |entry: (Seq<char>, ReferenceOr<openapiv3::RequestBody>)|
            (entry.0, body_ref_view(entry.1)),
    );
    let mut entries: Vec<(String, RefOr<ApiBody>)> = Vec::new();
    let mut i: usize = 0;
    assert(listed.take(0) =~= Seq::empty());
    assert(entries_view(entries@) =~= listed_map(listed.take(0)));
    while i < list.len()
        invariant
            i <= list@.len(),
            list@.len() == body_entries(*source).len(),
            listed == body_entries(*source).map_values(
                |entry: (Seq<char>, ReferenceOr<openapiv3::RequestBody>)|
                    (entry.0, body_ref_view(entry.1)),
            ),
            forall|j: int|
                0 <= j < list@.len() ==> (#[trigger] list@[j]).0@ == body_entries(*source)[j].0
                    && *list@[j].1 == body_entries(*source)[j].1,
            entries_view(entries@) == listed_map(listed.take(i as int)),
        decreases list@.len() - i,
    {
        let key = list[i].0.clone();
        let value = body_ref_from(list[i].1);
        proof {
            lemma_entries_push(entries@, (key, value));
            assert(listed.take(i + 1).drop_last() =~= listed.take(i as int));
            assert(listed[i as int] == (key@, value@));
        }
        entries.push((key, value));
        i += 1;
    }
    assert(listed.take(i as int) =~= listed);
    StrMap { entries }
}

/// The plain form of the components of a document.
fn components_from(components: &openapiv3::Components) -> (plain: ApiComponents)
    ensures
        plain@ == components_view(*components),
        forall|name: Seq<char>| #[trigger]
            plain@.schemas.contains_key(name) ==> (plain@.schemas[name] matches RefOrView::Item(
                Some(json),
            ) ==> json is Object),
{
    ApiComponents {
        schemas: schemas_from(&components.schemas),
        parameters: parameters_from(&components.parameters),
        request_bodies: bodies_from(&components.request_bodies),
    }
}

impl ApiSpec {
    /// The description that a document holds.
    pub fn from_document(document: &OpenAPI) -> (spec: ApiSpec)
        ensures
            spec@ == document_view(*document),
            object_schemas(inlinable(spec@)),
    {
        let mut servers: Vec<String> = Vec::new();
        let mut i: usize = 0;
        while i < document.servers.len()
            invariant
                i <= document.servers@.len(),
                servers@.len() == i,
                forall|j: int|
                    0 <= j < i ==> (#[trigger] servers@[j])@ == document.servers@[j].url@,
            decreases document.servers@.len() - i,
        {
            servers.push(document.servers[i].url.clone());
            i += 1;
        }
        let list = list_paths(&document.paths.paths);
        let ghost listed = path_entries(document.paths.paths);
        let mut paths: Vec<(String, RefOr<PerMethod<ApiOperation>>)> = Vec::new();
        let mut k: usize = 0;
        while k < list.len()
            invariant
                k <= list@.len(),
                list@.len() == listed.len(),
                paths@.len() == k,
                forall|j: int|
                    0 <= j < list@.len() ==> (#[trigger] list@[j]).0@ == listed[j].0
                        && *list@[j].1 == listed[j].1,
                forall|j: int|
                    0 <= j < k ==> (#[trigger] paths@[j]).0@ == listed[j].0 && paths@[j].1@
                        == path_ref_view(listed[j].1),
            decreases list@.len() - k,
        {
            paths.push((list[k].0.clone(), path_ref_from(list[k].1)));
            k += 1;
        }
        let components = match &document.components {
            Some(components) => Some(components_from(components)),
            None => None,
        };
        let spec = ApiSpec { servers, paths, components };
        assert(spec@.servers =~= document_view(*document).servers);
        assert(spec@.paths =~= document_view(*document).paths);
        spec
    }

    /// The description that a YAML or JSON text holds.
    pub fn from_text(text: &str) -> (read: Result<ApiSpec, serde_yaml::Error>)
        requires
            reads_once(text@),
        ensures
            match read {
                Ok(spec) => parsed_spec(text@) == Some(spec@),
                Err(_) => parsed_spec(text@) is None,
            },
            read matches Ok(spec) ==> object_schemas(inlinable(spec@)),
    {
        match parse_document(text) {
            Ok(document) => Ok(ApiSpec::from_document(&document)),
            Err(error) => Err(error),
        }
    }
}

} // verus!
