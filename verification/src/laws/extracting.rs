//! What a tool knows of parameters and request bodies.

use vstd::prelude::*;

use crate::document::{optional, ApiBody, ApiParameter, RefOrView, SpecView};
use crate::extract::{any_string, extract_body_schema, extract_param_info};
use crate::json::{Json, JsonView};
use crate::laws::resolving::{
    found_under, is_no_reference, law_items_are_inlined, law_members_are_inlined, lemma_found,
    lemma_kinds,
};
use crate::resolve::{inlinable, inlined, lemma_inlinable_finite, resolved_schema, Resolver};
use crate::tool::ParamInfo;

verus! {

/// A schema that is given in place or by reference has this JSON form.
pub open spec fn leads_to(
    spec: SpecView,
    given: RefOrView<Option<JsonView>>,
    schema: JsonView,
) -> bool {
    match given {
        RefOrView::Item(json) => json == Some(schema),
        RefOrView::Reference(reference) => spec.components is Some && found_under(
            "#/components/schemas/"@,
            spec.components->Some_0.schemas,
            reference,
            Some(schema),
        ),
    }
}

/// A schema leads to a JSON form exactly if it is resolved to it.
pub proof fn lemma_leads_to(spec: SpecView, given: RefOrView<Option<JsonView>>, schema: JsonView)
    ensures
        leads_to(spec, given, schema) <==> resolved_schema(spec, given) == Some(Some(schema)),
{
    lemma_kinds();
    if let RefOrView::Reference(reference) = given {
        if let Some(components) = spec.components {
            lemma_found(
                "schemas"@,
                "#/components/schemas/"@,
                components.schemas,
                reference,
                Some(schema),
            );
        } else {
            lemma_found(
                "schemas"@,
                "#/components/schemas/"@,
                Map::<Seq<char>, RefOrView<Option<JsonView>>>::empty(),
                reference,
                Some(schema),
            );
        }
    }
}

/// There is no reference anywhere in a value.
pub open spec fn is_free_of_references(value: JsonView) -> bool
    decreases value,
{
    &&& is_no_reference(value)
    &&& match value {
        JsonView::Array(items) => forall|i: int|
            0 <= i < items.len() ==> is_free_of_references(#[trigger] items[i]),
        JsonView::Object(members) => forall|key: Seq<char>| #[trigger]
            members.contains_key(key) ==> is_free_of_references(members[key]),
        _ => true,
    }
}

/// A value without references is passed on as it is.
pub proof fn law_values_without_references_stay(
    schemas: Map<Seq<char>, JsonView>,
    value: JsonView,
    visited: Set<Seq<char>>,
)
    requires
        schemas.dom().finite(),
        is_free_of_references(value),
    ensures
        inlined(schemas, value, visited) == value,
    decreases value,
{
    let result = inlined(schemas, value, visited);
    match value {
        JsonView::Array(items) => {
            law_items_are_inlined(schemas, items, visited);
            assert forall|i: int| 0 <= i < items.len() implies result->Array_0[i]
                == #[trigger] items[i] by {
                assert(is_free_of_references(items[i]));
                law_values_without_references_stay(schemas, items[i], visited);
                assert(result->Array_0[i] == inlined(schemas, items[i], visited));
            }
            assert(result->Array_0 =~= items);
        },
        JsonView::Object(members) => {
            law_members_are_inlined(schemas, members, visited);
            assert forall|key: Seq<char>| #[trigger] members.contains_key(key) implies result
                ->Object_0[key] == members[key] by {
                assert(decreases_to!(value => value->Object_0[key]));
                law_values_without_references_stay(schemas, members[key], visited);
                assert(result->Object_0[key] == inlined(schemas, members[key], visited));
            }
            assert(result->Object_0 =~= members);
        },
        _ => {},
    }
}

/// A tool knows a parameter by its own name, place, description and need, unless it is
/// a cookie: of that it knows nothing.
pub proof fn law_parameters_are_known_as_given(
    param: &ApiParameter,
    resolver: &Resolver,
    info: Option<ParamInfo>,
)
    requires
        call_ensures(extract_param_info, (param, resolver), info),
    ensures
        info is None <==> param.place is Cookie,
        info matches Some(info) ==> {
            &&& info.name@ == param.name@
            &&& info.required == param.required
            &&& param.description matches Some(text) ==> info.description@ == text@
            &&& param.description is None ==> info.description@ == Seq::<char>::empty()
            &&& info.location is Path <==> param.place is Path
            &&& info.location is Query <==> param.place is Query
            &&& info.location is Header <==> param.place is Header
        },
{
    if let Some(info) = info {
        assert(info@.name == info.name@);
    }
}

/// Whatever the place, name or need of a parameter, the schema that a tool knows is the
/// one that the parameter leads to with its references inlined: the schema itself where
/// it has none.
pub proof fn law_parameter_schemas_are_passed_on(
    param: &ApiParameter,
    resolver: &Resolver,
    info: Option<ParamInfo>,
    schema: &mut Json,
)
    requires
        call_ensures(extract_param_info, (param, resolver), info),
        call_ensures(Resolver::inline_refs, (resolver, schema), ()),
        info is Some,
        param.schema is Some,
        leads_to(resolver.spec@, param.schema->Some_0@, old(schema)@),
    ensures
        info->Some_0.schema@ == final(schema)@,
        is_free_of_references(old(schema)@) ==> info->Some_0.schema@ == old(schema)@,
{
    let json = old(schema)@;
    lemma_leads_to(resolver.spec@, param.schema->Some_0@, json);
    lemma_inlinable_finite(*resolver.spec);
    assert(info->Some_0@.schema == info->Some_0.schema@);
    if is_free_of_references(json) {
        law_values_without_references_stay(inlinable(resolver.spec@), json, Set::empty());
    }
}

/// A parameter that leads to no schema is told as any string.
pub proof fn law_parameters_without_schema_are_strings(
    param: &ApiParameter,
    resolver: &Resolver,
    info: Option<ParamInfo>,
)
    requires
        call_ensures(extract_param_info, (param, resolver), info),
        info is Some,
        param.schema matches Some(given) ==> forall|schema: JsonView|
            !leads_to(resolver.spec@, given@, schema),
    ensures
        info->Some_0.schema@ is Object,
        info->Some_0.schema@->Object_0.dom() == set!["type"@],
        info->Some_0.schema@->Object_0["type"@] == JsonView::String("string"@),
{
    assert(info->Some_0@.schema == info->Some_0.schema@);
    if let Some(given) = param.schema {
        if let Some(Some(schema)) = resolved_schema(resolver.spec@, given@) {
            lemma_leads_to(resolver.spec@, given@, schema);
        }
    }
    assert(any_string()->Object_0.dom() =~= set!["type"@]);
}

/// Two parameters with the same schema are told with the same schema.
pub proof fn law_schemas_depend_on_nothing_else(
    a: &ApiParameter,
    b: &ApiParameter,
    resolver: &Resolver,
    info_a: Option<ParamInfo>,
    info_b: Option<ParamInfo>,
)
    requires
        call_ensures(extract_param_info, (a, resolver), info_a),
        call_ensures(extract_param_info, (b, resolver), info_b),
        optional(a.schema) == optional(b.schema),
        info_a is Some,
        info_b is Some,
    ensures
        info_a->Some_0.schema@ == info_b->Some_0.schema@,
{
    assert(info_a->Some_0@.schema == info_a->Some_0.schema@);
    assert(info_b->Some_0@.schema == info_b->Some_0.schema@);
}

/// The schema of a JSON request body is the one that its media type leads to with its
/// references inlined: the schema itself where it has none.
pub proof fn law_body_schemas_are_passed_on(
    body: &ApiBody,
    resolver: &Resolver,
    extracted: (Option<Json>, bool),
    schema: &mut Json,
)
    requires
        call_ensures(extract_body_schema, (body, resolver), extracted),
        call_ensures(Resolver::inline_refs, (resolver, schema), ()),
        body@.content.contains_key("application/json"@),
        body@.content["application/json"@] is Some,
        leads_to(resolver.spec@, body@.content["application/json"@]->Some_0, old(schema)@),
    ensures
        extracted.0 is Some,
        extracted.0->Some_0@ == final(schema)@,
        is_free_of_references(old(schema)@) ==> extracted.0->Some_0@ == old(schema)@,
{
    let json = old(schema)@;
    lemma_leads_to(resolver.spec@, body@.content["application/json"@]->Some_0, json);
    lemma_inlinable_finite(*resolver.spec);
    if is_free_of_references(json) {
        law_values_without_references_stay(inlinable(resolver.spec@), json, Set::empty());
    }
}

/// A body without JSON, or whose JSON leads to no schema, has none; and whether a body
/// has to be there is told as it is given.
pub proof fn law_other_bodies_have_no_schema(
    body: &ApiBody,
    resolver: &Resolver,
    extracted: (Option<Json>, bool),
)
    requires
        call_ensures(extract_body_schema, (body, resolver), extracted),
    ensures
        extracted.1 == body.required,
        extracted.0 is Some ==> {
            &&& body@.content.contains_key("application/json"@)
            &&& body@.content["application/json"@] is Some
            &&& exists|schema: JsonView|
                leads_to(
                    resolver.spec@,
                    body@.content["application/json"@]->Some_0,
                    schema,
                )
        },
{
    if extracted.0 is Some {
        let given = body@.content["application/json"@]->Some_0;
        let schema = resolved_schema(resolver.spec@, given)->Some_0->Some_0;
        lemma_leads_to(resolver.spec@, given, schema);
    }
}

} // verus!
