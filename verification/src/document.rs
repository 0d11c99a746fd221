//! An API description as plain data: what of an OpenAPI document the tools are made
//! of.

use vstd::prelude::*;

use crate::json::{Json, JsonView};
use crate::str_map::{entries_map, StrMap};

verus! {

/// Something given in place or by reference.
#[derive(Debug, PartialEq)]
pub enum RefOr<T> {
    Reference(String),
    Item(T),
}

/// The view of something given in place or by reference.
#[verifier::ext_equal]
pub ghost enum RefOrView<T> {
    Reference(Seq<char>),
    Item(T),
}

/// A schema, by its JSON form; `None` if it has none.
#[derive(Debug, PartialEq)]
pub struct ApiSchema {
    pub json: Option<Json>,
}

/// Where a parameter of an operation goes in a request.
#[derive(Debug, PartialEq, Eq, Clone, Copy)]
pub enum ParamPlace {
    Query,
    Header,
    Path,
    Cookie,
}

/// A parameter of an operation. `schema` is `None` where the document describes the
/// parameter by media types instead.
#[derive(Debug, PartialEq)]
pub struct ApiParameter {
    pub place: ParamPlace,
    pub name: String,
    pub description: Option<String>,
    pub required: bool,
    pub schema: Option<RefOr<ApiSchema>>,
}

/// One media type of a request body.
#[derive(Debug, PartialEq)]
pub struct ApiMedia {
    pub schema: Option<RefOr<ApiSchema>>,
}

/// The body of an operation's request, by media type.
#[derive(Debug, PartialEq)]
pub struct ApiBody {
    pub content: StrMap<ApiMedia>,
    pub required: bool,
}

/// One operation of the API.
#[derive(Debug, PartialEq)]
pub struct ApiOperation {
    pub operation_id: Option<String>,
    pub summary: Option<String>,
    pub description: Option<String>,
    pub parameters: Vec<RefOr<ApiParameter>>,
    pub request_body: Option<RefOr<ApiBody>>,
}

/// One thing per HTTP method that a path can have operations for.
#[derive(Debug, PartialEq)]
pub struct PerMethod<T> {
    pub get: Option<T>,
    pub post: Option<T>,
    pub put: Option<T>,
    pub patch: Option<T>,
    pub delete: Option<T>,
    pub head: Option<T>,
    pub options: Option<T>,
    pub trace: Option<T>,
}

/// What references can lead to.
#[derive(Debug, PartialEq)]
pub struct ApiComponents {
    pub schemas: StrMap<RefOr<ApiSchema>>,
    pub parameters: StrMap<RefOr<ApiParameter>>,
    pub request_bodies: StrMap<RefOr<ApiBody>>,
}

/// An API description: the URLs of its servers, the operations of each path, and
/// what references can lead to.
#[derive(Debug, PartialEq)]
pub struct ApiSpec {
    pub servers: Vec<String>,
    pub paths: Vec<(String, RefOr<PerMethod<ApiOperation>>)>,
    pub components: Option<ApiComponents>,
}

/// The view of a [`ApiParameter`].
#[verifier::ext_equal]
pub ghost struct ParameterView {
    pub place: ParamPlace,
    pub name: Seq<char>,
    pub description: Option<Seq<char>>,
    pub required: bool,
    pub schema: Option<RefOrView<Option<JsonView>>>,
}

/// The view of a [`ApiBody`].
#[verifier::ext_equal]
pub ghost struct BodyView {
    pub content: Map<Seq<char>, Option<RefOrView<Option<JsonView>>>>,
    pub required: bool,
}

/// The view of an [`ApiOperation`].
#[verifier::ext_equal]
pub ghost struct OperationView {
    pub operation_id: Option<Seq<char>>,
    pub summary: Option<Seq<char>>,
    pub description: Option<Seq<char>>,
    pub parameters: Seq<RefOrView<ParameterView>>,
    pub request_body: Option<RefOrView<BodyView>>,
}

/// The view of [`ApiComponents`].
#[verifier::ext_equal]
pub ghost struct ComponentsView {
    pub schemas: Map<Seq<char>, RefOrView<Option<JsonView>>>,
    pub parameters: Map<Seq<char>, RefOrView<ParameterView>>,
    pub request_bodies: Map<Seq<char>, RefOrView<BodyView>>,
}

/// The view of an [`ApiSpec`].
#[verifier::ext_equal]
pub ghost struct SpecView {
    pub servers: Seq<Seq<char>>,
    pub paths: Seq<(Seq<char>, RefOrView<PerMethod<OperationView>>)>,
    pub components: Option<ComponentsView>,
}

impl<T: View> View for RefOr<T> {
    type V = RefOrView<T::V>;

    open spec fn view(&self) -> RefOrView<T::V> {
        match *self {
            RefOr::Reference(reference) => RefOrView::Reference(reference@),
            RefOr::Item(item) => RefOrView::Item(item@),
        }
    }
}

/// The view of something that may be missing.
pub open spec fn optional<T: View>(thing: Option<T>) -> Option<T::V> {
    match thing {
        Some(thing) => Some(thing@),
        None => None,
    }
}

impl View for ApiSchema {
    type V = Option<JsonView>;

    open spec fn view(&self) -> Option<JsonView> {
        optional(self.json)
    }
}

impl View for ApiParameter {
    type V = ParameterView;

    open spec fn view(&self) -> ParameterView {
        ParameterView {
            place: self.place,
            name: self.name@,
            description: optional(self.description),
            required: self.required,
            schema: optional(self.schema),
        }
    }
}

impl View for ApiMedia {
    type V = Option<RefOrView<Option<JsonView>>>;

    open spec fn view(&self) -> Option<RefOrView<Option<JsonView>>> {
        optional(self.schema)
    }
}

/// The views of what a map holds.
pub open spec fn map_view<T: View>(map: StrMap<T>) -> Map<Seq<char>, T::V> {
    entries_view(map.entries@)
}

/// The views of what a list of entries holds as a map.
pub open spec fn entries_view<T: View>(entries: Seq<(String, T)>) -> Map<Seq<char>, T::V> {
    entries_map(entries).map_values(|thing: T| thing@)
}

/// One more entry is one more insertion.
pub proof fn lemma_entries_push<T: View>(entries: Seq<(String, T)>, entry: (String, T))
    ensures
        entries_view(entries.push(entry)) == entries_view(entries).insert(entry.0@, entry.1@),
{
    assert(entries.push(entry).drop_last() =~= entries);
    assert(entries_view(entries.push(entry)) =~= entries_view(entries).insert(entry.0@, entry.1@));
}

impl View for ApiBody {
    type V = BodyView;

    open spec fn view(&self) -> BodyView {
        BodyView { content: map_view(self.content), required: self.required }
    }
}

impl View for ApiOperation {
    type V = OperationView;

    open spec fn view(&self) -> OperationView {
        OperationView {
            operation_id: optional(self.operation_id),
            summary: optional(self.summary),
            description: optional(self.description),
            parameters: self.parameters@.map_values(|p: RefOr<ApiParameter>| p@),
            request_body: optional(self.request_body),
        }
    }
}

impl<T: View> View for PerMethod<T> {
    type V = PerMethod<T::V>;

    open spec fn view(&self) -> PerMethod<T::V> {
        PerMethod {
            get: optional(self.get),
            post: optional(self.post),
            put: optional(self.put),
            patch: optional(self.patch),
            delete: optional(self.delete),
            head: optional(self.head),
            options: optional(self.options),
            trace: optional(self.trace),
        }
    }
}

impl View for ApiComponents {
    type V = ComponentsView;

    open spec fn view(&self) -> ComponentsView {
        ComponentsView {
            schemas: map_view(self.schemas),
            parameters: map_view(self.parameters),
            request_bodies: map_view(self.request_bodies),
        }
    }
}

impl View for ApiSpec {
    type V = SpecView;

    open spec fn view(&self) -> SpecView {
        SpecView {
            servers: self.servers@.map_values(|url: String| url@),
            paths: self.paths@.map_values(
                |path: (String, RefOr<PerMethod<ApiOperation>>)| (path.0@, path.1@),
            ),
            components: optional(self.components),
        }
    }
}

} // verus!
