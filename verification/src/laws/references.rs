//! References and inlining.

use vstd::prelude::*;

use crate::document::{ApiSpec, BodyView, ParameterView, RefOrView};
use crate::extract::{any_string, body_schema, parameter_schema};
use crate::json::JsonView;
use crate::resolve::{
    any_object, inlinable, inlined, lemma_inlinable_finite, lemma_one_less, named_component,
    object_schemas, ref_prefix, reference_in, resolved, resolved_schema,
};

verus! {

/// No reference in `value` leads to a schema. What stands inside a reference is not
/// looked at.
pub open spec fn settled(schemas: Map<Seq<char>, JsonView>, value: JsonView) -> bool
    decreases value,
{
    match (value, reference_in(value)) {
        (_, Some(reference)) => match named_component(reference, "schemas"@) {
            Some(name) => !schemas.contains_key(name),
            None => true,
        },
        (JsonView::Object(members), None) => forall|key: Seq<char>| #[trigger]
            members.contains_key(key) ==> settled(schemas, members[key]),
        (JsonView::Array(items), None) => forall|i: int|
            0 <= i < items.len() ==> settled(schemas, #[trigger] items[i]),
        _ => true,
    }
}

/// A reference is made of its prefix and the name it leads to.
pub proof fn law_reference_names_component(kind: Seq<char>, name: Seq<char>)
    requires
        !kind.contains('/'),
    ensures
        named_component(ref_prefix(kind) + name, kind) == Some(name),
{
    let reference = ref_prefix(kind) + name;
    assert(reference.take(ref_prefix(kind).len() as int) =~= ref_prefix(kind));
    assert(reference.skip(ref_prefix(kind).len() as int) =~= name);
}

/// A reference leads to components of one kind only.
pub proof fn law_reference_has_one_kind(reference: Seq<char>, a: Seq<char>, b: Seq<char>)
    requires
        named_component(reference, a) is Some,
        named_component(reference, b) is Some,
    ensures
        a == b,
{
    reveal_strlit("/");
    let start = "#/components/"@.len() as int;
    assert forall|kind: Seq<char>, i: int|
        named_component(reference, kind) is Some && 0 <= i < kind.len() implies reference[start + i]
        == #[trigger] kind[i] && kind[i] != '/' by {
        assert(ref_prefix(kind)[start + i] == kind[i]);
        assert(reference.take(ref_prefix(kind).len() as int)[start + i] == reference[start + i]);
        assert(kind.contains(kind[i]));
    }
    assert forall|kind: Seq<char>| #[trigger]
        named_component(reference, kind) is Some implies reference[start + kind.len()] == '/' by {
        assert(ref_prefix(kind)[start + kind.len()] == '/');
        assert(reference.take(ref_prefix(kind).len() as int)[start + kind.len()] == reference[start
            + kind.len()]);
    }
    if a.len() < b.len() {
        assert(reference[start + a.len()] == b[a.len() as int]);
    } else if b.len() < a.len() {
        assert(reference[start + b.len()] == a[b.len() as int]);
    }
    assert(a =~= b);
}

/// What replaces an object is an object.
proof fn lemma_inlined_object(
    schemas: Map<Seq<char>, JsonView>,
    value: JsonView,
    visited: Set<Seq<char>>,
)
    requires
        schemas.dom().finite(),
        object_schemas(schemas),
        value is Object,
    ensures
        inlined(schemas, value, visited) is Object,
    decreases schemas.dom().difference(visited).len(),
{
    if let Some(reference) = reference_in(value) {
        if let Some(name) = named_component(reference, "schemas"@) {
            if !visited.contains(name) && schemas.contains_key(name) {
                lemma_one_less(schemas.dom(), visited, name);
                lemma_inlined_object(schemas, schemas[name], visited.insert(name));
            }
        }
    }
}

/// After inlining, no reference leads to a schema.
pub proof fn law_inlining_settles(
    schemas: Map<Seq<char>, JsonView>,
    value: JsonView,
    visited: Set<Seq<char>>,
)
    requires
        schemas.dom().finite(),
        object_schemas(schemas),
    ensures
        settled(schemas, inlined(schemas, value, visited)),
    decreases schemas.dom().difference(visited).len(), value,
{
    let result = inlined(schemas, value, visited);
    match (value, reference_in(value)) {
        (_, Some(reference)) => {
            if let Some(name) = named_component(reference, "schemas"@) {
                if visited.contains(name) {
                    reveal_strlit("$ref");
                    reveal_strlit("type");
                    assert("$ref"@[0] != "type"@[0]);
                    assert(reference_in(any_object()) is None);
                    assert(settled(schemas, JsonView::String("object"@)));
                } else if schemas.contains_key(name) {
                    lemma_one_less(schemas.dom(), visited, name);
                    law_inlining_settles(schemas, schemas[name], visited.insert(name));
                }
            }
        },
        (JsonView::Object(members), None) => {
            assert forall|key: Seq<char>| #[trigger]
                result->Object_0.contains_key(key) implies settled(
                schemas,
                result->Object_0[key],
            ) by {
                assert(decreases_to!(value => value->Object_0[key]));
                law_inlining_settles(schemas, members[key], visited);
            }
            if members.contains_key("$ref"@) {
                let member = members["$ref"@];
                assert(!(member is String));
                if member is Object {
                    lemma_inlined_object(schemas, member, visited);
                }
                assert(!(inlined(schemas, member, visited) is String));
                assert(result->Object_0["$ref"@] == inlined(schemas, member, visited));
            }
            assert(reference_in(result) is None);
        },
        (JsonView::Array(items), None) => {
            assert forall|i: int| 0 <= i < result->Array_0.len() implies settled(
                schemas,
                #[trigger] result->Array_0[i],
            ) by {
                law_inlining_settles(schemas, items[i], visited);
            }
        },
        _ => {},
    }
}

/// A value in which no reference leads to a schema is passed on as it is.
pub proof fn law_settled_stays(schemas: Map<Seq<char>, JsonView>, value: JsonView)
    requires
        schemas.dom().finite(),
        settled(schemas, value),
    ensures
        inlined(schemas, value, Set::empty()) == value,
    decreases value,
{
    let result = inlined(schemas, value, Set::empty());
    match (value, reference_in(value)) {
        (JsonView::Object(members), None) => {
            assert forall|key: Seq<char>| #[trigger] members.contains_key(key) implies result
                ->Object_0[key] == members[key] by {
                assert(decreases_to!(value => value->Object_0[key]));
                law_settled_stays(schemas, members[key]);
            }
            assert(result->Object_0 =~= members);
        },
        (JsonView::Array(items), None) => {
            assert forall|i: int| 0 <= i < items.len() implies result->Array_0[i]
                == #[trigger] items[i] by {
                law_settled_stays(schemas, items[i]);
            }
            assert(result->Array_0 =~= items);
        },
        _ => {},
    }
}

/// Inlining twice is inlining once.
pub proof fn law_inlining_is_idempotent(schemas: Map<Seq<char>, JsonView>, value: JsonView)
    requires
        schemas.dom().finite(),
        object_schemas(schemas),
    ensures
        inlined(schemas, inlined(schemas, value, Set::empty()), Set::empty()) == inlined(
            schemas,
            value,
            Set::empty(),
        ),
{
    law_inlining_settles(schemas, value, Set::empty());
    law_settled_stays(schemas, inlined(schemas, value, Set::empty()));
}

/// What is given in place leads to itself.
pub proof fn law_items_lead_to_themselves<T>(
    named: Option<Map<Seq<char>, RefOrView<T>>>,
    kind: Seq<char>,
    item: T,
)
    ensures
        resolved(named, kind, RefOrView::Item(item)) == Some(item),
{
}

/// A reference leads to the component that it names, where that is no reference
/// itself, and nowhere else.
pub proof fn law_references_lead_to_components<T>(
    named: Map<Seq<char>, RefOrView<T>>,
    kind: Seq<char>,
    name: Seq<char>,
)
    requires
        !kind.contains('/'),
    ensures
        resolved(Some(named), kind, RefOrView::Reference(ref_prefix(kind) + name)) == (
        if named.contains_key(name) && named[name] is Item {
            Some(named[name]->Item_0)
        } else {
            None
        }),
{
    law_reference_names_component(kind, name);
}

/// In the schemas of a tool's parameters and of its request body no reference leads
/// to a schema.
pub proof fn law_tool_schemas_are_settled(
    spec: ApiSpec,
    parameter: ParameterView,
    body: BodyView,
)
    requires
        object_schemas(inlinable(spec@)),
    ensures
        settled(inlinable(spec@), parameter_schema(spec@, parameter)),
        body_schema(spec@, body) matches Some(schema) ==> settled(inlinable(spec@), schema),
{
    lemma_inlinable_finite(spec);
    let schemas = inlinable(spec@);
    assert(settled(schemas, any_string())) by {
        reveal_strlit("$ref");
        reveal_strlit("type");
        assert("$ref"@[0] != "type"@[0]);
        assert(reference_in(any_string()) is None);
        assert(settled(schemas, JsonView::String("string"@)));
    }
    if let Some(given) = parameter.schema {
        if let Some(Some(schema)) = resolved_schema(spec@, given) {
            law_inlining_settles(schemas, schema, Set::empty());
        }
    }
    if body.content.contains_key("application/json"@) {
        if let Some(given) = body.content["application/json"@] {
            if let Some(Some(schema)) = resolved_schema(spec@, given) {
                law_inlining_settles(schemas, schema, Set::empty());
            }
        }
    }
}

} // verus!
