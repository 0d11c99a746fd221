//! Where references lead, and what inlining puts in their place.

use vstd::prelude::*;

use crate::document::{ApiBody, ApiParameter, ApiSchema, RefOr, RefOrView, SpecView};
use crate::json::{Json, JsonView};
use crate::resolve::{
    any_object, inlinable, inlined, lemma_inlinable_finite, named_component, ref_name,
    ref_prefix, reference_in, resolved, Resolver,
};

verus! {

/// The thing that a list of named things has under the name that follows a prefix.
pub open spec fn found_under<T>(
    prefix: Seq<char>,
    named: Map<Seq<char>, RefOrView<T>>,
    reference: Seq<char>,
    thing: T,
) -> bool {
    exists|name: Seq<char>|
        reference == #[trigger] (prefix + name) && named.contains_key(name) && named[name]
            == RefOrView::Item(thing)
}

/// The prefix of references to a kind, written out.
proof fn lemma_prefix(kind: Seq<char>, name: Seq<char>)
    requires
        !kind.contains('/'),
    ensures
        named_component("#/components/"@ + kind + "/"@ + name, kind) == Some(name),
{
    let reference = "#/components/"@ + kind + "/"@ + name;
    assert(reference.take(ref_prefix(kind).len() as int) =~= ref_prefix(kind));
    assert(reference.skip(ref_prefix(kind).len() as int) =~= name);
}

/// A reference is taken apart into `#/components/`, the kind, `/` and the name, and a
/// text that is not made so has no name in it.
pub proof fn law_ref_name_takes_references_apart(
    reference: &str,
    kind: &str,
    found: Option<&str>,
    name: Seq<char>,
)
    requires
        call_ensures(ref_name, (reference, kind), found),
    ensures
        found matches Some(found) ==> reference@ == "#/components/"@ + kind@ + "/"@ + found@
            && !kind@.contains('/'),
        !kind@.contains('/') && reference@ == "#/components/"@ + kind@ + "/"@ + name
            ==> found is Some && found->Some_0@ == name,
{
    if found is Some {
        let prefix = ref_prefix(kind@);
        assert(reference@.take(prefix.len() as int) =~= prefix);
        assert(reference@ =~= prefix + found->Some_0@);
    }
    if !kind@.contains('/') && reference@ == "#/components/"@ + kind@ + "/"@ + name {
        lemma_prefix(kind@, name);
    }
}

/// A reference leads to a thing exactly if that stands under its name.
pub proof fn lemma_found<T>(
    kind: Seq<char>,
    prefix: Seq<char>,
    named: Map<Seq<char>, RefOrView<T>>,
    reference: Seq<char>,
    thing: T,
)
    requires
        !kind.contains('/'),
        prefix == ref_prefix(kind),
    ensures
        resolved(Some(named), kind, RefOrView::Reference(reference)) == Some(thing)
            <==> found_under(prefix, named, reference, thing),
        resolved(
            Option::<Map<Seq<char>, RefOrView<T>>>::None,
            kind,
            RefOrView::Reference(reference),
        ) is None,
{
    if resolved(Some(named), kind, RefOrView::Reference(reference)) == Some(thing) {
        let name = reference.skip(prefix.len() as int);
        assert(reference.take(prefix.len() as int) =~= prefix);
        assert(reference =~= prefix + name);
        assert(found_under(prefix, named, reference, thing));
    }
    if found_under(prefix, named, reference, thing) {
        let name = choose|name: Seq<char>|
            reference == #[trigger] (prefix + name) && named.contains_key(name) && named[name]
                == RefOrView::Item(thing);
        assert(reference.take(prefix.len() as int) =~= prefix);
        assert(reference.skip(prefix.len() as int) =~= name);
    }
}

/// A kind of component has no slash in its name.
pub proof fn lemma_kinds()
    ensures
        !"parameters"@.contains('/'),
        !"requestBodies"@.contains('/'),
        !"schemas"@.contains('/'),
        ref_prefix("parameters"@) == "#/components/parameters/"@,
        ref_prefix("requestBodies"@) == "#/components/requestBodies/"@,
        ref_prefix("schemas"@) == "#/components/schemas/"@,
{
    reveal_strlit("parameters");
    reveal_strlit("requestBodies");
    reveal_strlit("schemas");
    reveal_strlit("#/components/");
    reveal_strlit("/");
    reveal_strlit("#/components/parameters/");
    reveal_strlit("#/components/requestBodies/");
    reveal_strlit("#/components/schemas/");
    assert(ref_prefix("parameters"@) =~= "#/components/parameters/"@);
    assert(ref_prefix("requestBodies"@) =~= "#/components/requestBodies/"@);
    assert(ref_prefix("schemas"@) =~= "#/components/schemas/"@);
}

/// A parameter given in place is found as it is; one given by reference is the one
/// under that name among the parameters, if it stands there itself.
pub proof fn law_parameters_are_found(
    resolver: &Resolver,
    given: &RefOr<ApiParameter>,
    found: Option<&ApiParameter>,
)
    requires
        call_ensures(Resolver::resolve_parameter, (resolver, given), found),
    ensures
        given matches RefOr::Item(item) ==> found is Some && found->Some_0@ == item@,
        given matches RefOr::Reference(reference) ==> {
            match resolver.spec@.components {
                Some(components) => {
                    &&& found matches Some(item) ==> found_under(
                        "#/components/parameters/"@,
                        components.parameters,
                        reference@,
                        item@,
                    )
                    &&& forall|name: Seq<char>| #[trigger]
                        components.parameters.contains_key(name)
                            && components.parameters[name] is Item && reference@
                            == "#/components/parameters/"@ + name ==> found is Some
                },
                None => found is None,
            }
        },
{
    lemma_kinds();
    if let RefOr::Reference(reference) = given {
        if let Some(components) = resolver.spec@.components {
            if let Some(item) = found {
                lemma_found(
                    "parameters"@,
                    "#/components/parameters/"@,
                    components.parameters,
                    reference@,
                    item@,
                );
            }
            assert forall|name: Seq<char>| #[trigger]
                components.parameters.contains_key(name) && components.parameters[name] is Item
                    && reference@ == "#/components/parameters/"@ + name implies found is Some by {
                lemma_found(
                    "parameters"@,
                    "#/components/parameters/"@,
                    components.parameters,
                    reference@,
                    components.parameters[name]->Item_0,
                );
            }
        }
    }
}

/// A request body given in place is found as it is; one given by reference is the one
/// under that name among the request bodies, if it stands there itself.
pub proof fn law_request_bodies_are_found(
    resolver: &Resolver,
    given: &RefOr<ApiBody>,
    found: Option<&ApiBody>,
)
    requires
        call_ensures(Resolver::resolve_request_body, (resolver, given), found),
    ensures
        given matches RefOr::Item(item) ==> found is Some && found->Some_0@ == item@,
        given matches RefOr::Reference(reference) ==> {
            match resolver.spec@.components {
                Some(components) => {
                    &&& found matches Some(item) ==> found_under(
                        "#/components/requestBodies/"@,
                        components.request_bodies,
                        reference@,
                        item@,
                    )
                    &&& forall|name: Seq<char>| #[trigger]
                        components.request_bodies.contains_key(name)
                            && components.request_bodies[name] is Item && reference@
                            == "#/components/requestBodies/"@ + name ==> found is Some
                },
                None => found is None,
            }
        },
{
    lemma_kinds();
    if let RefOr::Reference(reference) = given {
        if let Some(components) = resolver.spec@.components {
            if let Some(item) = found {
                lemma_found(
                    "requestBodies"@,
                    "#/components/requestBodies/"@,
                    components.request_bodies,
                    reference@,
                    item@,
                );
            }
            assert forall|name: Seq<char>| #[trigger]
                components.request_bodies.contains_key(name) && components.request_bodies[name]
                    is Item && reference@ == "#/components/requestBodies/"@
                    + name implies found is Some by {
                lemma_found(
                    "requestBodies"@,
                    "#/components/requestBodies/"@,
                    components.request_bodies,
                    reference@,
                    components.request_bodies[name]->Item_0,
                );
            }
        }
    }
}

/// A schema given in place is found as it is; one given by reference is the one under
/// that name among the schemas, if it stands there itself.
pub proof fn law_schemas_are_found(
    resolver: &Resolver,
    given: &RefOr<ApiSchema>,
    found: Option<&ApiSchema>,
)
    requires
        call_ensures(Resolver::resolve_schema, (resolver, given), found),
    ensures
        given matches RefOr::Item(item) ==> found is Some && found->Some_0@ == item@,
        given matches RefOr::Reference(reference) ==> {
            match resolver.spec@.components {
                Some(components) => {
                    &&& found matches Some(item) ==> found_under(
                        "#/components/schemas/"@,
                        components.schemas,
                        reference@,
                        item@,
                    )
                    &&& forall|name: Seq<char>| #[trigger]
                        components.schemas.contains_key(name) && components.schemas[name] is Item
                            && reference@ == "#/components/schemas/"@ + name ==> found is Some
                },
                None => found is None,
            }
        },
{
    lemma_kinds();
    if let RefOr::Reference(reference) = given {
        if let Some(components) = resolver.spec@.components {
            if let Some(item) = found {
                lemma_found(
                    "schemas"@,
                    "#/components/schemas/"@,
                    components.schemas,
                    reference@,
                    item@,
                );
            }
            assert forall|name: Seq<char>| #[trigger]
                components.schemas.contains_key(name) && components.schemas[name] is Item
                    && reference@ == "#/components/schemas/"@ + name implies found is Some by {
                lemma_found(
                    "schemas"@,
                    "#/components/schemas/"@,
                    components.schemas,
                    reference@,
                    components.schemas[name]->Item_0,
                );
            }
        }
    }
}

/// The schemas that take the places of references are those of the components that
/// stand there themselves and have a JSON form, under their names.
pub proof fn law_inlinable_schemas(spec: SpecView, name: Seq<char>)
    ensures
        inlinable(spec).contains_key(name) <==> spec.components is Some
            && spec.components->Some_0.schemas.contains_key(name)
            && (spec.components->Some_0.schemas[name] matches RefOrView::Item(Some(_))),
        inlinable(spec).contains_key(name) ==> spec.components->Some_0.schemas[name]
            == RefOrView::Item(Some(inlinable(spec)[name])),
{
}

/// Inlining starts with no schema being put in place.
pub proof fn law_inline_refs_starts_anew(resolver: &Resolver, value: &mut Json)
    requires
        call_ensures(Resolver::inline_refs, (resolver, value), ()),
    ensures
        final(value)@ == inlined(inlinable(resolver.spec@), old(value)@, Set::empty()),
{
}

/// An object whose `$ref` is a text.
pub open spec fn refers_to(value: JsonView, reference: Seq<char>) -> bool {
    value is Object && value->Object_0.contains_key("$ref"@) && value->Object_0["$ref"@]
        == JsonView::String(reference)
}

/// No reference.
pub open spec fn is_no_reference(value: JsonView) -> bool {
    forall|reference: Seq<char>| !refers_to(value, reference)
}

/// What is neither a reference, an array nor an object is left as it is.
pub proof fn law_plain_values_stay(
    schemas: Map<Seq<char>, JsonView>,
    value: JsonView,
    visited: Set<Seq<char>>,
)
    requires
        schemas.dom().finite(),
        !(value is Array),
        !(value is Object),
    ensures
        inlined(schemas, value, visited) == value,
{
}

/// Each item of an array is inlined as if it stood alone.
pub proof fn law_items_are_inlined(
    schemas: Map<Seq<char>, JsonView>,
    items: Seq<JsonView>,
    visited: Set<Seq<char>>,
)
    requires
        schemas.dom().finite(),
    ensures
        inlined(schemas, JsonView::Array(items), visited) is Array,
        inlined(schemas, JsonView::Array(items), visited)->Array_0.len() == items.len(),
        forall|i: int|
            0 <= i < items.len() ==> #[trigger] inlined(
                schemas,
                JsonView::Array(items),
                visited,
            )->Array_0[i] == inlined(schemas, items[i], visited),
{
}

/// Each member of an object that is no reference is inlined as if it stood alone.
pub proof fn law_members_are_inlined(
    schemas: Map<Seq<char>, JsonView>,
    members: Map<Seq<char>, JsonView>,
    visited: Set<Seq<char>>,
)
    requires
        schemas.dom().finite(),
        is_no_reference(JsonView::Object(members)),
    ensures
        inlined(schemas, JsonView::Object(members), visited) is Object,
        inlined(schemas, JsonView::Object(members), visited)->Object_0.dom() == members.dom(),
        forall|key: Seq<char>|
            members.contains_key(key) ==> #[trigger] inlined(
                schemas,
                JsonView::Object(members),
                visited,
            )->Object_0[key] == inlined(schemas, members[key], visited),
{
    let value = JsonView::Object(members);
    if let Some(reference) = reference_in(value) {
        assert(refers_to(value, reference));
    }
    assert(inlined(schemas, value, visited)->Object_0.dom() =~= members.dom());
}

/// A reference to a schema, wherever it stands, becomes that schema with its own
/// references inlined, unless that schema is being put in place already: then it
/// becomes `{"type": "object"}`. A reference that leads to no schema stays.
pub proof fn law_references_become_schemas(
    schemas: Map<Seq<char>, JsonView>,
    value: JsonView,
    name: Seq<char>,
    visited: Set<Seq<char>>,
)
    requires
        schemas.dom().finite(),
        refers_to(value, "#/components/schemas/"@ + name),
    ensures
        !visited.contains(name) && schemas.contains_key(name) ==> inlined(schemas, value, visited)
            == inlined(schemas, schemas[name], visited.insert(name)),
        !visited.contains(name) && !schemas.contains_key(name) ==> inlined(schemas, value, visited)
            == value,
        visited.contains(name) ==> {
            let result = inlined(schemas, value, visited);
            &&& result is Object
            &&& result->Object_0.dom() == set!["type"@]
            &&& result->Object_0["type"@] == JsonView::String("object"@)
        },
{
    lemma_kinds();
    lemma_prefix("schemas"@, name);
    assert("#/components/schemas/"@ + name =~= "#/components/"@ + "schemas"@ + "/"@ + name) by {
        assert("#/components/schemas/"@ =~= "#/components/"@ + "schemas"@ + "/"@);
    }
    assert(reference_in(value) == Some("#/components/schemas/"@ + name));
    if visited.contains(name) {
        assert(any_object()->Object_0.dom() =~= set!["type"@]);
    }
}

/// A reference to anything but a schema stays, with all that is in it.
pub proof fn law_other_references_stay(
    schemas: Map<Seq<char>, JsonView>,
    value: JsonView,
    reference: Seq<char>,
    visited: Set<Seq<char>>,
)
    requires
        schemas.dom().finite(),
        refers_to(value, reference),
        !"#/components/schemas/"@.is_prefix_of(reference),
    ensures
        inlined(schemas, value, visited) == value,
{
    lemma_kinds();
    assert(reference_in(value) == Some(reference));
}

/// A step into a JSON value: to an item of an array, or to a member of an object.
pub ghost enum Step {
    Item(int),
    Member(Seq<char>),
}

/// The value that some steps lead to, if they lead past no reference.
pub open spec fn value_at(value: JsonView, steps: Seq<Step>) -> Option<JsonView>
    decreases steps.len(),
{
    if steps.len() == 0 {
        Some(value)
    } else {
        match (steps[0], value) {
            (Step::Item(i), JsonView::Array(items)) => if 0 <= i < items.len() {
                value_at(items[i], steps.skip(1))
            } else {
                None
            },
            (Step::Member(key), JsonView::Object(members)) => if is_no_reference(value)
                && members.contains_key(key) {
                value_at(members[key], steps.skip(1))
            } else {
                None
            },
            _ => None,
        }
    }
}

/// The steps that lead to a value before inlining lead to that value, inlined by itself,
/// after it; at any depth.
pub proof fn law_inlining_reaches_everywhere(
    schemas: Map<Seq<char>, JsonView>,
    value: JsonView,
    visited: Set<Seq<char>>,
    steps: Seq<Step>,
)
    requires
        schemas.dom().finite(),
        value_at(value, steps) is Some,
    ensures
        after_steps(inlined(schemas, value, visited), steps) == Some(
            inlined(schemas, value_at(value, steps)->Some_0, visited),
        ),
    decreases steps.len(),
{
    if steps.len() > 0 {
        match (steps[0], value) {
            (Step::Item(i), JsonView::Array(items)) => {
                law_items_are_inlined(schemas, items, visited);
                law_inlining_reaches_everywhere(schemas, items[i], visited, steps.skip(1));
            },
            (Step::Member(key), JsonView::Object(members)) => {
                law_members_are_inlined(schemas, members, visited);
                law_inlining_reaches_everywhere(schemas, members[key], visited, steps.skip(1));
            },
            _ => {},
        }
    }
}

/// The value that some steps lead to.
pub open spec fn after_steps(value: JsonView, steps: Seq<Step>) -> Option<JsonView>
    decreases steps.len(),
{
    if steps.len() == 0 {
        Some(value)
    } else {
        match (steps[0], value) {
            (Step::Item(i), JsonView::Array(items)) => if 0 <= i < items.len() {
                after_steps(items[i], steps.skip(1))
            } else {
                None
            },
            (Step::Member(key), JsonView::Object(members)) => if members.contains_key(key) {
                after_steps(members[key], steps.skip(1))
            } else {
                None
            },
            _ => None,
        }
    }
}

/// Each item of an array that `inline_refs` is called on becomes what `inline_refs`
/// makes of that item alone.
pub proof fn law_inline_refs_on_items(
    resolver: &Resolver,
    array: &mut Json,
    item: &mut Json,
    i: int,
)
    requires
        call_ensures(Resolver::inline_refs, (resolver, array), ()),
        call_ensures(Resolver::inline_refs, (resolver, item), ()),
        old(array)@ is Array,
        0 <= i < old(array)@->Array_0.len(),
        old(item)@ == old(array)@->Array_0[i],
    ensures
        final(array)@ is Array,
        final(array)@->Array_0.len() == old(array)@->Array_0.len(),
        final(array)@->Array_0[i] == final(item)@,
{
    lemma_inlinable_finite(*resolver.spec);
    law_items_are_inlined(inlinable(resolver.spec@), old(array)@->Array_0, Set::empty());
}

/// Each member of an object that `inline_refs` is called on, and that is no reference,
/// becomes what `inline_refs` makes of that member alone.
pub proof fn law_inline_refs_on_members(
    resolver: &Resolver,
    object: &mut Json,
    member: &mut Json,
    key: Seq<char>,
)
    requires
        call_ensures(Resolver::inline_refs, (resolver, object), ()),
        call_ensures(Resolver::inline_refs, (resolver, member), ()),
        old(object)@ is Object,
        is_no_reference(old(object)@),
        old(object)@->Object_0.contains_key(key),
        old(member)@ == old(object)@->Object_0[key],
    ensures
        final(object)@ is Object,
        final(object)@->Object_0.dom() == old(object)@->Object_0.dom(),
        final(object)@->Object_0[key] == final(member)@,
{
    lemma_inlinable_finite(*resolver.spec);
    law_members_are_inlined(inlinable(resolver.spec@), old(object)@->Object_0, Set::empty());
}

} // verus!
