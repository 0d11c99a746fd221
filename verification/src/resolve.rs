//! References inside an API description: where they lead, and schemas without them.

use vstd::prelude::*;

use crate::document::{
    ApiBody, ApiParameter, ApiSchema, ApiSpec, BodyView, ParameterView, RefOr, RefOrView, SpecView,
};
use crate::json::{insert_member, lemma_smaller, members_view, Json, JsonView};
use crate::str_map::{entries_map, lemma_entries_finite, StrMap};
use crate::text::{chars_of, matches_at, same_text};

verus! {

/// What stands before the name in a reference to a component of a kind.
pub open spec fn ref_prefix(kind: Seq<char>) -> Seq<char> {
    "#/components/"@ + kind + "/"@
}

/// The name in a reference like `#/components/parameters/Foo` to a component of a
/// kind. A kind has no `/` in it.
pub open spec fn named_component(reference: Seq<char>, kind: Seq<char>) -> Option<Seq<char>> {
    if !kind.contains('/') && ref_prefix(kind).is_prefix_of(reference) {
        Some(reference.skip(ref_prefix(kind).len() as int))
    } else {
        None
    }
}

/// The component name in a reference like `#/components/parameters/Foo`, if the
/// reference leads to a component of the expected kind.
pub fn ref_name<'a>(reference: &'a str, expected_kind: &str) -> (name: Option<&'a str>)
    ensures
        match name {
            Some(name) => named_component(reference@, expected_kind@) == Some(name@),
            None => named_component(reference@, expected_kind@) is None,
        },
{
    let chars = chars_of(reference);
    let kind = chars_of(expected_kind);
    let mut i: usize = 0;
    while i < kind.len()
        invariant
            i <= kind@.len(),
            kind@ == expected_kind@,
            forall|j: int| 0 <= j < i ==> kind@[j] != '/',
        decreases kind@.len() - i,
    {
        if kind[i] == '/' {
            assert(kind@.contains('/'));
            return None;
        }
        i += 1;
    }
    let mut prefix = "#/components/".to_owned();
    prefix.append(expected_kind);
    prefix.append("/");
    let wanted = chars_of(prefix.as_str());
    assert(chars@.skip(0) =~= reference@);
    if matches_at(&chars, 0, &wanted) {
        let name = reference.substring_char(wanted.len(), chars.len());
        assert(name@ =~= reference@.skip(wanted@.len() as int));
        Some(name)
    } else {
        None
    }
}

/// Where something given in place or by reference leads: to itself, or to the named
/// component of its kind. A component that is itself a reference leads nowhere.
pub open spec fn resolved<T>(
    named: Option<Map<Seq<char>, RefOrView<T>>>,
    kind: Seq<char>,
    given: RefOrView<T>,
) -> Option<T> {
    match given {
        RefOrView::Item(item) => Some(item),
        RefOrView::Reference(reference) => match (named_component(reference, kind), named) {
            (Some(name), Some(named)) => if named.contains_key(name) {
                match named[name] {
                    RefOrView::Item(item) => Some(item),
                    RefOrView::Reference(_) => None,
                }
            } else {
                None
            },
            _ => None,
        },
    }
}

/// The named parameters of a description.
pub open spec fn named_parameters(spec: SpecView) -> Option<
    Map<Seq<char>, RefOrView<ParameterView>>,
> {
    match spec.components {
        Some(components) => Some(components.parameters),
        None => None,
    }
}

/// The named request bodies of a description.
pub open spec fn named_bodies(spec: SpecView) -> Option<Map<Seq<char>, RefOrView<BodyView>>> {
    match spec.components {
        Some(components) => Some(components.request_bodies),
        None => None,
    }
}

/// The named schemas of a description.
pub open spec fn named_schemas(spec: SpecView) -> Option<
    Map<Seq<char>, RefOrView<Option<JsonView>>>,
> {
    match spec.components {
        Some(components) => Some(components.schemas),
        None => None,
    }
}

/// The parameter that `given` leads to.
pub open spec fn resolved_parameter(spec: SpecView, given: RefOrView<ParameterView>) -> Option<
    ParameterView,
> {
    resolved(named_parameters(spec), "parameters"@, given)
}

/// The request body that `given` leads to.
pub open spec fn resolved_body(spec: SpecView, given: RefOrView<BodyView>) -> Option<BodyView> {
    resolved(named_bodies(spec), "requestBodies"@, given)
}

/// The schema that `given` leads to.
pub open spec fn resolved_schema(spec: SpecView, given: RefOrView<Option<JsonView>>) -> Option<
    Option<JsonView>,
> {
    resolved(named_schemas(spec), "schemas"@, given)
}

/// The schemas that a reference can be replaced by: the named ones that stand in the
/// description themselves and have a JSON form.
pub open spec fn inlinable(spec: SpecView) -> Map<Seq<char>, JsonView> {
    match spec.components {
        Some(components) => Map::new(
            |name: Seq<char>|
                components.schemas.contains_key(name) && components.schemas[name] is Item
                    && components.schemas[name]->Item_0 is Some,
            |name: Seq<char>| components.schemas[name]->Item_0->Some_0,
        ),
        None => Map::empty(),
    }
}

/// Every schema is a JSON object, as schemas of a document are.
pub open spec fn object_schemas(schemas: Map<Seq<char>, JsonView>) -> bool {
    forall|name: Seq<char>| #[trigger] schemas.contains_key(name) ==> schemas[name] is Object
}

/// The reference that a JSON value is, if it is one: an object whose `$ref` is a
/// string.
pub open spec fn reference_in(value: JsonView) -> Option<Seq<char>> {
    match value {
        JsonView::Object(members) => if members.contains_key("$ref"@) {
            match members["$ref"@] {
                JsonView::String(reference) => Some(reference),
                _ => None,
            }
        } else {
            None
        },
        _ => None,
    }
}

/// The schema that stands for any object.
pub open spec fn any_object() -> JsonView {
    JsonView::Object(Map::empty().insert("type"@, JsonView::String("object"@)))
}

/// `value` with every reference to a schema replaced by that schema, in which the
/// same has been done. A reference to a schema that is being put in place already,
/// one of `visited`, becomes [`any_object`]. A reference that leads to no schema
/// stays.
pub open spec fn inlined(
    schemas: Map<Seq<char>, JsonView>,
    value: JsonView,
    visited: Set<Seq<char>>,
) -> JsonView
    decreases schemas.dom().difference(visited).len(), value,
    when schemas.dom().finite()
{
    match (value, reference_in(value)) {
        (_, Some(reference)) => match named_component(reference, "schemas"@) {
            Some(name) => if visited.contains(name) {
                any_object()
            } else if schemas.contains_key(name) {
                proof {
                    lemma_one_less(schemas.dom(), visited, name);
                }
                inlined(schemas, schemas[name], visited.insert(name))
            } else {
                value
            },
            None => value,
        },
        (JsonView::Object(members), None) => JsonView::Object(
            Map::new(
                |key: Seq<char>| members.contains_key(key),
                |key: Seq<char>|
                    if members.contains_key(key) {
                        inlined(schemas, members[key], visited)
                    } else {
                        JsonView::Null
                    },
            ),
        ),
        (JsonView::Array(items), None) => JsonView::Array(
            Seq::new(
                items.len(),
                |i: int|
                    if 0 <= i < items.len() {
                        inlined(schemas, items[i], visited)
                    } else {
                        JsonView::Null
                    },
            ),
        ),
        _ => value,
    }
}

/// The members of an object, each with its references replaced.
pub open spec fn inlined_members(
    schemas: Map<Seq<char>, JsonView>,
    members: Map<Seq<char>, JsonView>,
    visited: Set<Seq<char>>,
) -> Map<Seq<char>, JsonView> {
    Map::new(
        |key: Seq<char>| members.contains_key(key),
        |key: Seq<char>| inlined(schemas, members[key], visited),
    )
}

/// Visiting one more of finitely many names leaves one less to visit.
pub proof fn lemma_one_less(all: Set<Seq<char>>, visited: Set<Seq<char>>, name: Seq<char>)
    requires
        all.finite(),
        all.contains(name),
        !visited.contains(name),
    ensures
        all.difference(visited.insert(name)).len() < all.difference(visited).len(),
{
    assert(all.difference(visited.insert(name)) =~= all.difference(visited).remove(name));
}

/// The names in a list.
pub open spec fn name_set(names: Seq<String>) -> Set<Seq<char>> {
    Set::new(
        |name: Seq<char>| exists|i: int| 0 <= i < names.len() && (#[trigger] names[i])@ == name,
    )
}

/// Whether a list holds a name.
fn holds_name(names: &Vec<String>, name: &str) -> (holds: bool)
    ensures
        holds == name_set(names@).contains(name@),
{
    let mut i: usize = 0;
    while i < names.len()
        invariant
            i <= names@.len(),
            forall|j: int| 0 <= j < i ==> (#[trigger] names@[j])@ != name@,
        decreases names@.len() - i,
    {
        if same_text(names[i].as_str(), name) {
            return true;
        }
        i += 1;
    }
    false
}

/// One more name in the list is one more name in the set.
proof fn lemma_name_push(names: Seq<String>, name: String)
    ensures
        name_set(names.push(name)) == name_set(names).insert(name@),
{
    let pushed = names.push(name);
    assert forall|n: Seq<char>| name_set(names).insert(name@).contains(n) implies name_set(
        pushed,
    ).contains(n) by {
        if n == name@ {
            assert(pushed[names.len() as int]@ == n);
        } else {
            let i = choose|i: int| 0 <= i < names.len() && (#[trigger] names[i])@ == n;
            assert(pushed[i]@ == n);
        }
    }
    assert forall|n: Seq<char>| name_set(pushed).contains(n) implies name_set(names).insert(
        name@,
    ).contains(n) by {
        let i = choose|i: int| 0 <= i < pushed.len() && (#[trigger] pushed[i])@ == n;
        if i < names.len() {
            assert(names[i]@ == n);
        }
    }
    assert(name_set(pushed) =~= name_set(names).insert(name@));
}

/// A description has finitely many schemas.
pub proof fn lemma_inlinable_finite(spec: ApiSpec)
    ensures
        inlinable(spec@).dom().finite(),
{
    match spec.components {
        Some(components) => {
            lemma_entries_finite(components.schemas.entries@);
            assert(inlinable(spec@).dom().subset_of(
                entries_map(components.schemas.entries@).dom(),
            ));
        },
        None => {},
    }
}

/// Looks up references in the components of a description, and only those that are
/// asked for.
pub struct Resolver<'a> {
    pub spec: &'a ApiSpec,
}

impl<'a> Resolver<'a> {
    /// The resolver of a description.
    pub fn new(spec: &'a ApiSpec) -> (resolver: Self)
        ensures
            resolver.spec == spec,
    {
        Resolver { spec }
    }

    /// The parameter that `given` leads to.
    pub fn resolve_parameter(&self, given: &'a RefOr<ApiParameter>) -> (found: Option<
        &'a ApiParameter,
    >)
        ensures
            match found {
                Some(parameter) => resolved_parameter(self.spec@, given@) == Some(parameter@),
                None => resolved_parameter(self.spec@, given@) is None,
            },
    {
        match given {
            RefOr::Item(item) => Some(item),
            RefOr::Reference(reference) => match (
                ref_name(reference.as_str(), "parameters"),
                &self.spec.components,
            ) {
                (Some(name), Some(components)) => match components.parameters.get(name) {
                    Some(RefOr::Item(item)) => Some(item),
                    _ => None,
                },
                _ => None,
            },
        }
    }

    /// The request body that `given` leads to.
    pub fn resolve_request_body(&self, given: &'a RefOr<ApiBody>) -> (found: Option<&'a ApiBody>)
        ensures
            match found {
                Some(body) => resolved_body(self.spec@, given@) == Some(body@),
                None => resolved_body(self.spec@, given@) is None,
            },
    {
        match given {
            RefOr::Item(item) => Some(item),
            RefOr::Reference(reference) => match (
                ref_name(reference.as_str(), "requestBodies"),
                &self.spec.components,
            ) {
                (Some(name), Some(components)) => match components.request_bodies.get(name) {
                    Some(RefOr::Item(item)) => Some(item),
                    _ => None,
                },
                _ => None,
            },
        }
    }

    /// The schema that `given` leads to.
    pub fn resolve_schema(&self, given: &'a RefOr<ApiSchema>) -> (found: Option<&'a ApiSchema>)
        ensures
            match found {
                Some(schema) => resolved_schema(self.spec@, given@) == Some(schema@),
                None => resolved_schema(self.spec@, given@) is None,
            },
    {
        match given {
            RefOr::Item(item) => Some(item),
            RefOr::Reference(reference) => match (
                ref_name(reference.as_str(), "schemas"),
                &self.spec.components,
            ) {
                (Some(name), Some(components)) => match components.schemas.get(name) {
                    Some(RefOr::Item(item)) => Some(item),
                    _ => None,
                },
                _ => None,
            },
        }
    }

    /// The JSON form of a named schema that a reference can be replaced by.
    fn inlinable_schema(&self, name: &str) -> (found: Option<&'a Json>)
        ensures
            match found {
                Some(schema) => inlinable(self.spec@).contains_key(name@) && inlinable(
                    self.spec@,
                )[name@] == schema@,
                None => !inlinable(self.spec@).contains_key(name@),
            },
    {
        match &self.spec.components {
            Some(components) => match components.schemas.get(name) {
                Some(RefOr::Item(schema)) => match &schema.json {
                    Some(json) => Some(json),
                    None => None,
                },
                _ => None,
            },
            None => None,
        }
    }

    /// Replaces every reference to a schema in `value` by that schema, and so on inside
    /// it. A schema that refers to itself ends in `{"type": "object"}`.
    pub fn inline_refs(&self, value: &mut Json)
        ensures
            final(value)@ == inlined(inlinable(self.spec@), old(value)@, Set::empty()),
    {
        let mut visited: Vec<String> = Vec::new();
        assert(name_set(visited@) =~= Set::empty());
        let result = self.inline_refs_inner(value, &mut visited);
        *value = result;
    }

    /// `value` with its references replaced. `visited` names the schemas that are being
    /// put in place around it, and is left as it was.
    fn inline_refs_inner(&self, value: &Json, visited: &mut Vec<String>) -> (result: Json)
        ensures
            result@ == inlined(inlinable(self.spec@), value@, name_set(old(visited)@)),
            final(visited)@ == old(visited)@,
        decreases inlinable(self.spec@).dom().difference(name_set(old(visited)@)).len(), value,
    {
        let ghost schemas = inlinable(self.spec@);
        let ghost names = name_set(visited@);
        proof {
            lemma_inlinable_finite(*self.spec);
        }
        match value {
            Json::Object(map) => {
                if let Some(Json::String(reference)) = value.get("$ref") {
                    match ref_name(reference.as_str(), "schemas") {
                        Some(name) => {
                            if holds_name(visited, name) {
                                let mut members: StrMap<Json> = StrMap::new();
                                insert_member(&mut members, "type", Json::text("object"));
                                return Json::Object(members);
                            }
                            match self.inlinable_schema(name) {
                                Some(schema) => {
                                    let name = name.to_owned();
                                    proof {
                                        lemma_name_push(visited@, name);
                                        lemma_one_less(schemas.dom(), names, name@);
                                    }
                                    visited.push(name);
                                    let result = self.inline_refs_inner(schema, visited);
                                    let _ = visited.pop();
                                    assert(visited@ =~= old(visited)@);
                                    result
                                },
                                None => value.clone(),
                            }
                        },
                        None => value.clone(),
                    }
                } else {
                    let mut entries: Vec<(String, Json)> = Vec::new();
                    let mut i: usize = 0;
                    while i < map.entries.len()
                        invariant
                            i <= map.entries@.len(),
                            *value == Json::Object(*map),
                            schemas == inlinable(self.spec@),
                            schemas.dom().finite(),
                            names == name_set(visited@),
                            visited@ == old(visited)@,
                            inlined_members(
                                schemas,
                                members_view(map.entries@.take(i as int)),
                                names,
                            ) == members_view(entries@),
                        decreases map.entries@.len() - i,
                    {
                        proof {
                            lemma_smaller(*value, i as int);
                        }
                        let ghost before = entries@;
                        let key = map.entries[i].0.clone();
                        let member = self.inline_refs_inner(&map.entries[i].1, visited);
                        entries.push((key, member));
                        proof {
                            assert(entries@.drop_last() =~= before);
                            assert(map.entries@.take(i + 1).drop_last() =~= map.entries@.take(
                                i as int,
                            ));
                            assert(inlined_members(
                                schemas,
                                members_view(map.entries@.take(i + 1)),
                                names,
                            ) =~= members_view(entries@));
                        }
                        i += 1;
                    }
                    assert(map.entries@.take(i as int) =~= map.entries@);
                    let result = Json::Object(StrMap { entries });
                    assert(reference_in(value@) is None);
                    assert(inlined(schemas, value@, names)->Object_0 =~= inlined_members(
                        schemas,
                        value@->Object_0,
                        names,
                    ));
                    result
                }
            },
            Json::Array(list) => {
                let mut items: Vec<Json> = Vec::new();
                let mut i: usize = 0;
                while i < list.len()
                    invariant
                        i <= list@.len(),
                        *value == Json::Array(*list),
                        schemas == inlinable(self.spec@),
                        schemas.dom().finite(),
                        names == name_set(visited@),
                        visited@ == old(visited)@,
                        items@.len() == i,
                        forall|j: int|
                            0 <= j < i ==> (#[trigger] items@[j])@ == inlined(
                                schemas,
                                list@[j]@,
                                names,
                            ),
                    decreases list@.len() - i,
                {
                    proof {
                        lemma_smaller(*value, i as int);
                    }
                    let item = self.inline_refs_inner(&list[i], visited);
                    items.push(item);
                    i += 1;
                }
                let result = Json::Array(items);
                assert(result@->Array_0 =~= inlined(schemas, value@, names)->Array_0);
                result
            },
            _ => value.clone(),
        }
    }
}

} // verus!
