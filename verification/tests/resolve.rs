use rig_openapi_tools::document::{ApiParameter, ApiSchema, ApiSpec, ParamPlace, RefOr};
use rig_openapi_tools::json::Json;
use rig_openapi_tools::resolve::{ref_name, Resolver};
use rig_openapi_tools::serde_value::read_json;

fn parse_spec(yaml: &str) -> ApiSpec {
    ApiSpec::from_text(yaml).unwrap()
}

fn json(text: &str) -> Json {
    read_json(text).unwrap()
}

#[test]
fn inline_refs_resolves_nested_schema_ref() {
    let spec = parse_spec(
        r#"
openapi: "3.0.0"
info:
  title: Test
  version: "1.0"
paths: {}
components:
  schemas:
    Category:
      type: object
      properties:
        id:
          type: integer
        name:
          type: string
"#,
    );
    let resolver = Resolver::new(&spec);

    let mut value = json(
        r##"{ "type": "object", "properties": { "category": { "$ref": "#/components/schemas/Category" } } }"##,
    );

    resolver.inline_refs(&mut value);
    let value = value.to_value();

    let category = &value["properties"]["category"];
    assert!(category.get("$ref").is_none(), "ref should be inlined");
    assert_eq!(category["type"], "object");
    assert!(category["properties"]["id"].is_object());
    assert!(category["properties"]["name"].is_object());
}

#[test]
fn inline_refs_resolves_ref_inside_array_items() {
    let spec = parse_spec(
        r#"
openapi: "3.0.0"
info:
  title: Test
  version: "1.0"
paths: {}
components:
  schemas:
    Tag:
      type: object
      properties:
        name:
          type: string
"#,
    );
    let resolver = Resolver::new(&spec);

    let mut value = json(
        r##"{ "type": "object", "properties": { "tags": { "type": "array", "items": { "$ref": "#/components/schemas/Tag" } } } }"##,
    );

    resolver.inline_refs(&mut value);
    let value = value.to_value();

    let items = &value["properties"]["tags"]["items"];
    assert!(items.get("$ref").is_none(), "ref in array items should be inlined");
    assert_eq!(items["type"], "object");
    assert!(items["properties"]["name"].is_object());
}

#[test]
fn inline_refs_handles_circular_reference() {
    let spec = parse_spec(
        r#"
openapi: "3.0.0"
info:
  title: Test
  version: "1.0"
paths: {}
components:
  schemas:
    Node:
      type: object
      properties:
        value:
          type: string
        child:
          $ref: '#/components/schemas/Node'
"#,
    );
    let resolver = Resolver::new(&spec);

    let mut value = json(
        r##"{ "$ref": "#/components/schemas/Node" }"##,
    );

    resolver.inline_refs(&mut value);
    let value = value.to_value();

    // Top-level should be resolved
    assert_eq!(value["type"], "object");
    assert!(value["properties"]["value"].is_object());
    // Circular child should become {"type": "object"}
    let child = &value["properties"]["child"];
    assert!(child.get("$ref").is_none(), "circular ref should be replaced");
    assert_eq!(child["type"], "object");
}

#[test]
fn inline_refs_resolves_deeply_nested_refs() {
    let spec = parse_spec(
        r#"
openapi: "3.0.0"
info:
  title: Test
  version: "1.0"
paths: {}
components:
  schemas:
    Inner:
      type: object
      properties:
        value:
          type: integer
    Middle:
      type: object
      properties:
        inner:
          $ref: '#/components/schemas/Inner'
"#,
    );
    let resolver = Resolver::new(&spec);

    let mut value = json(
        r##"{ "type": "object", "properties": { "middle": { "$ref": "#/components/schemas/Middle" } } }"##,
    );

    resolver.inline_refs(&mut value);
    let value = value.to_value();

    let inner = &value["properties"]["middle"]["properties"]["inner"];
    assert!(inner.get("$ref").is_none(), "transitive ref should be inlined");
    assert_eq!(inner["type"], "object");
    assert!(inner["properties"]["value"].is_object());
}

#[test]
fn inline_refs_no_op_without_refs() {
    let spec = parse_spec(
        r#"
openapi: "3.0.0"
info:
  title: Test
  version: "1.0"
paths: {}
"#,
    );
    let resolver = Resolver::new(&spec);

    let mut value = json(
        r##"{ "type": "object", "properties": { "name": { "type": "string" } } }"##,
    );

    let expected = value.to_value();
    resolver.inline_refs(&mut value);
    let value = value.to_value();

    assert_eq!(value, expected);
}

#[test]
fn inline_refs_unknown_ref_left_as_is() {
    let spec = parse_spec(
        r#"
openapi: "3.0.0"
info:
  title: Test
  version: "1.0"
paths: {}
components:
  schemas: {}
"#,
    );
    let resolver = Resolver::new(&spec);

    let mut value = json(
        r##"{ "type": "object", "properties": { "thing": { "$ref": "#/components/schemas/DoesNotExist" } } }"##,
    );

    resolver.inline_refs(&mut value);
    let value = value.to_value();

    // Unresolvable ref stays as-is
    assert!(value["properties"]["thing"].get("$ref").is_some());
}

const COMPONENTS_SPEC: &str = r##"
openapi: "3.0.0"
info:
  title: Test
  version: "1.0"
paths: {}
components:
  parameters:
    Limit:
      name: limit
      in: query
      schema:
        type: integer
    Alias:
      $ref: '#/components/parameters/Limit'
  requestBodies:
    NewPet:
      required: true
      content:
        application/json:
          schema:
            $ref: '#/components/schemas/Pet'
    Again:
      $ref: '#/components/requestBodies/NewPet'
  schemas:
    Pet:
      type: object
      properties:
        owner:
          $ref: '#/components/schemas/Owner'
    Owner:
      type: object
      properties:
        pets:
          type: array
          items:
            $ref: '#/components/schemas/Pet'
    Link:
      $ref: '#/components/schemas/Pet'
"##;

fn reference<T>(text: &str) -> RefOr<T> {
    RefOr::Reference(text.to_string())
}

#[test]
fn ref_name_splits_at_the_kind() {
    assert_eq!(ref_name("#/components/parameters/Foo", "parameters"), Some("Foo"));
    assert_eq!(ref_name("#/components/schemas/a/b", "schemas"), Some("a/b"));
    assert_eq!(ref_name("#/components/schemas/", "schemas"), Some(""));
    assert_eq!(ref_name("#/components/schemas/Naïve", "schemas"), Some("Naïve"));
    assert_eq!(ref_name("#/components/parameters/Foo", "schemas"), None);
    assert_eq!(ref_name("#/components/schemas", "schemas"), None);
    assert_eq!(ref_name("#/definitions/Foo", "schemas"), None);
    assert_eq!(ref_name("#/components/a/b/Foo", "a/b"), None);
    assert_eq!(ref_name("", "schemas"), None);
}

#[test]
fn resolve_parameter_follows_one_reference() {
    let spec = parse_spec(COMPONENTS_SPEC);
    let resolver = Resolver::new(&spec);

    let limit = reference("#/components/parameters/Limit");
    let found = resolver.resolve_parameter(&limit).unwrap();
    assert_eq!(found.name, "limit");
    assert!(matches!(found.place, ParamPlace::Query));
    assert!(!found.required);

    // A component that is a reference itself leads nowhere.
    let alias = reference("#/components/parameters/Alias");
    assert!(resolver.resolve_parameter(&alias).is_none());
    let missing = reference("#/components/parameters/Missing");
    assert!(resolver.resolve_parameter(&missing).is_none());
    let other_kind = reference("#/components/schemas/Pet");
    assert!(resolver.resolve_parameter(&other_kind).is_none());

    let in_place = RefOr::Item(ApiParameter {
        place: ParamPlace::Header,
        name: "X-Id".to_string(),
        description: None,
        required: true,
        schema: None,
    });
    assert_eq!(resolver.resolve_parameter(&in_place).unwrap().name, "X-Id");
}

#[test]
fn resolve_request_body_follows_one_reference() {
    let spec = parse_spec(COMPONENTS_SPEC);
    let resolver = Resolver::new(&spec);

    let new_pet = reference("#/components/requestBodies/NewPet");
    let found = resolver.resolve_request_body(&new_pet).unwrap();
    assert!(found.required);
    assert!(found.content.contains_key("application/json"));

    let again = reference("#/components/requestBodies/Again");
    assert!(resolver.resolve_request_body(&again).is_none());
    let missing = reference("#/components/requestBodies/Missing");
    assert!(resolver.resolve_request_body(&missing).is_none());
}

#[test]
fn resolve_schema_follows_one_reference() {
    let spec = parse_spec(COMPONENTS_SPEC);
    let resolver = Resolver::new(&spec);

    let pet = reference("#/components/schemas/Pet");
    let found = resolver.resolve_schema(&pet).unwrap();
    assert_eq!(found.json.as_ref().unwrap().to_value()["type"], "object");

    let link = reference("#/components/schemas/Link");
    assert!(resolver.resolve_schema(&link).is_none());

    let in_place = RefOr::Item(ApiSchema { json: Some(json("{\"type\":\"string\"}")) });
    assert_eq!(
        resolver.resolve_schema(&in_place).unwrap().json.as_ref().unwrap().to_json_text(),
        "{\"type\":\"string\"}"
    );
}

#[test]
fn references_lead_nowhere_without_components() {
    let spec = parse_spec(
        r#"
openapi: "3.0.0"
info:
  title: Test
  version: "1.0"
paths: {}
"#,
    );
    let resolver = Resolver::new(&spec);
    assert!(resolver.resolve_parameter(&reference("#/components/parameters/Limit")).is_none());
    assert!(resolver.resolve_request_body(&reference("#/components/requestBodies/B")).is_none());
    assert!(resolver.resolve_schema(&reference("#/components/schemas/Pet")).is_none());
    let mut value = json(r##"{"$ref": "#/components/schemas/Pet"}"##);
    resolver.inline_refs(&mut value);
    assert_eq!(value.to_json_text(), r##"{"$ref":"#/components/schemas/Pet"}"##);
}

#[test]
fn inline_refs_ends_a_circle_of_two() {
    let spec = parse_spec(COMPONENTS_SPEC);
    let resolver = Resolver::new(&spec);

    let mut value = json(
        r##"{"a": {"$ref": "#/components/schemas/Pet"}, "b": {"$ref": "#/components/schemas/Owner"}}"##,
    );
    resolver.inline_refs(&mut value);
    // Each is put in place by itself, and ends where it would come around again.
    assert_eq!(
        value.to_json_text(),
        concat_lines(&[
            r#"{"a":{"properties":{"owner":{"properties":{"pets":{"items":{"type":"object"},"#,
            r#""type":"array"}},"type":"object"}},"type":"object"},"#,
            r#""b":{"properties":{"pets":{"items":{"properties":{"owner":{"type":"object"}},"#,
            r#""type":"object"},"type":"array"}},"type":"object"}}"#,
        ])
    );
    assert!(!value.to_json_text().contains("$ref"));

    // Once nothing leads to a schema any more, nothing changes.
    let before = value.to_json_text();
    resolver.inline_refs(&mut value);
    assert_eq!(value.to_json_text(), before);
}

fn concat_lines(lines: &[&str]) -> String {
    lines.concat()
}

#[test]
fn inline_refs_leaves_other_references_and_what_is_in_them() {
    let spec = parse_spec(COMPONENTS_SPEC);
    let resolver = Resolver::new(&spec);

    for text in [
        r##"{"$ref":"#/components/responses/R","x":{"$ref":"#/components/schemas/Pet"}}"##,
        r##"{"$ref":"#/components/schemas/Link"}"##,
        r##"{"$ref":"other.yaml#/Pet"}"##,
        r##"[null,true,1,"text"]"##,
    ] {
        let mut value = json(text);
        resolver.inline_refs(&mut value);
        assert_eq!(value.to_json_text(), text);
    }

    // A `$ref` that is no string is a member like any other.
    let mut value = json(r##"{"$ref":{"$ref":"#/components/schemas/Nope"},"k":[{"$ref":"#/components/schemas/Pet"}]}"##);
    resolver.inline_refs(&mut value);
    let value = value.to_value();
    assert_eq!(value["$ref"]["$ref"], "#/components/schemas/Nope");
    assert_eq!(value["k"][0]["type"], "object");
}
