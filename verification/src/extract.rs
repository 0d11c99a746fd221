//! What a tool needs to know of an operation's parameters and request body.

use vstd::prelude::*;

use crate::document::{
    optional, ApiBody, ApiParameter, BodyView, ParamPlace, ParameterView, SpecView,
};
use crate::json::{insert_member, Json, JsonView};
use crate::resolve::{inlinable, inlined, resolved_schema, Resolver};
use crate::str_map::StrMap;
use crate::tool::{ParamInfo, ParamInfoView, ParamLocation};

verus! {

/// The schema of a parameter of which nothing more is known.
pub open spec fn any_string() -> JsonView {
    JsonView::Object(Map::empty().insert("type"@, JsonView::String("string"@)))
}

/// The place in a request that a tool's argument goes to; a cookie is none.
pub open spec fn location_of(place: ParamPlace) -> Option<ParamLocation> {
    match place {
        ParamPlace::Path => Some(ParamLocation::Path),
        ParamPlace::Query => Some(ParamLocation::Query),
        ParamPlace::Header => Some(ParamLocation::Header),
        ParamPlace::Cookie => None,
    }
}

/// The schema of a parameter with its references replaced, or that of any string
/// where the description leads to no schema.
pub open spec fn parameter_schema(spec: SpecView, parameter: ParameterView) -> JsonView {
    match parameter.schema {
        Some(given) => match resolved_schema(spec, given) {
            Some(Some(schema)) => inlined(inlinable(spec), schema, Set::empty()),
            _ => any_string(),
        },
        None => any_string(),
    }
}

/// What a tool knows of a parameter; nothing of a cookie.
pub open spec fn param_info(spec: SpecView, parameter: ParameterView) -> Option<ParamInfoView> {
    match location_of(parameter.place) {
        Some(location) => Some(
            ParamInfoView {
                name: parameter.name,
                location,
                required: parameter.required,
                description: match parameter.description {
                    Some(description) => description,
                    None => Seq::empty(),
                },
                schema: parameter_schema(spec, parameter),
            },
        ),
        None => None,
    }
}

/// The schema of a JSON request body with its references replaced, if the
/// description leads to one.
pub open spec fn body_schema(spec: SpecView, body: BodyView) -> Option<JsonView> {
    if body.content.contains_key("application/json"@) {
        match body.content["application/json"@] {
            Some(given) => match resolved_schema(spec, given) {
                Some(Some(schema)) => Some(inlined(inlinable(spec), schema, Set::empty())),
                _ => None,
            },
            None => None,
        }
    } else {
        None
    }
}

/// What a tool needs to know of a parameter; `None` for a cookie.
pub fn extract_param_info(param: &ApiParameter, resolver: &Resolver) -> (info: Option<ParamInfo>)
    ensures
        optional(info) == param_info(resolver.spec@, param@),
{
    let location = match param.place {
        ParamPlace::Path => ParamLocation::Path,
        ParamPlace::Query => ParamLocation::Query,
        ParamPlace::Header => ParamLocation::Header,
        ParamPlace::Cookie => {
            return None;
        },
    };
    let mut string_schema: StrMap<Json> = StrMap::new();
    insert_member(&mut string_schema, "type", Json::text("string"));
    let mut schema = Json::Object(string_schema);
    if let Some(given) = &param.schema {
        if let Some(found) = resolver.resolve_schema(given) {
            if let Some(json) = &found.json {
                let mut inline = json.clone();
                resolver.inline_refs(&mut inline);
                schema = inline;
            }
        }
    }
    let description = match &param.description {
        Some(description) => description.clone(),
        None => String::new(),
    };
    Some(
        ParamInfo {
            name: param.name.clone(),
            location,
            required: param.required,
            description,
            schema,
        },
    )
}

/// The schema of a request body, if it is JSON with a known schema, and whether the
/// body has to be there.
pub fn extract_body_schema(body: &ApiBody, resolver: &Resolver) -> (extracted: (Option<Json>, bool))
    ensures
        optional(extracted.0) == body_schema(resolver.spec@, body@),
        extracted.1 == body.required,
{
    if let Some(media) = body.content.get("application/json") {
        if let Some(given) = &media.schema {
            if let Some(found) = resolver.resolve_schema(given) {
                if let Some(json) = &found.json {
                    let mut inline = json.clone();
                    resolver.inline_refs(&mut inline);
                    return (Some(inline), body.required);
                }
            }
        }
    }
    (None, body.required)
}

} // verus!
