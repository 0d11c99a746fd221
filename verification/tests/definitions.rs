use std::collections::HashMap;

use rig_openapi_tools::context::context_entries;
use rig_openapi_tools::document::{
    ApiBody, ApiMedia, ApiParameter, ApiSchema, ApiSpec, ParamPlace, RefOr,
};
use rig_openapi_tools::extract::{extract_body_schema, extract_param_info};
use rig_openapi_tools::json::Json;
use rig_openapi_tools::resolve::Resolver;
use rig_openapi_tools::serde_value::read_json;
use rig_openapi_tools::str_map::StrMap;
use rig_openapi_tools::tool::ParamLocation;
use rig_openapi_tools::toolset::ToolConfig;
use rig_openapi_tools::yaml::surely_reads_once;
use rig_openapi_tools::{BuildError, OpenApiTool, OpenApiToolset};

const API: &str = r##"
openapi: "3.0.0"
info:
  title: Test
  version: "1.0"
servers:
  - url: https://first.example.com//
  - url: https://second.example.com
paths:
  /pets:
    get:
      parameters:
        - $ref: '#/components/parameters/Limit'
        - $ref: '#/components/parameters/Missing'
        - name: filter
          in: query
          required: true
          schema:
            $ref: '#/components/schemas/Filter'
        - name: token
          in: cookie
          schema:
            type: string
        - name: raw
          in: query
          content:
            text/plain: {}
      responses: {}
    post:
      operationId: addPet
      description: Adds a pet
      requestBody:
        $ref: '#/components/requestBodies/Pet'
      responses: {}
  /linked:
    $ref: '#/paths/~1pets'
  /pets/{id}/photos:
    delete:
      summary: Forget the photos
      description: Not used
      requestBody:
        content:
          text/plain:
            schema:
              type: string
      responses: {}
    put:
      requestBody:
        required: true
        content:
          application/json:
            schema:
              $ref: '#/components/schemas/Missing'
      responses: {}
components:
  parameters:
    Limit:
      name: limit
      in: query
      description: How many
      schema:
        type: integer
        minimum: 1
  requestBodies:
    Pet:
      required: true
      content:
        application/json:
          schema:
            $ref: '#/components/schemas/Pet'
  schemas:
    Filter:
      type: object
      properties:
        like:
          $ref: '#/components/schemas/Pet'
    Pet:
      type: object
      properties:
        parent:
          $ref: '#/components/schemas/Pet'
"##;

fn tools() -> Vec<OpenApiTool> {
    OpenApiToolset::from_spec_str(API).unwrap().into_tools()
}

fn text(text: &str) -> String {
    text.to_string()
}

#[test]
fn one_tool_per_operation_in_order() {
    let names: Vec<String> = tools().iter().map(|tool| tool.name()).collect();
    // A path that is a reference has no tools.
    assert_eq!(names, vec!["get_pets", "addPet", "put_pets_{id}_photos", "delete_pets_{id}_photos"]);
}

#[test]
fn every_method_makes_a_tool() {
    let spec = r#"{"openapi":"3.0.0","info":{"title":"T","version":"1"},"paths":{"/ping":{"head":{"operationId":"pingHead","responses":{"200":{"description":"OK"}}}}}}"#;
    let toolset = OpenApiToolset::from_spec_str(spec).unwrap();
    assert_eq!(toolset.len(), 1);
    assert_eq!(toolset.tools[0].operation_id, "pingHead");

    let spec = r#"{"openapi":"3.0.0","info":{"title":"T","version":"1"},"paths":{"/p":{"trace":{"responses":{}},"options":{"responses":{}},"head":{"responses":{}},"get":{"responses":{}},"patch":{"responses":{}},"delete":{"responses":{}},"put":{"responses":{}},"post":{"responses":{}}}}}"#;
    let names: Vec<String> =
        OpenApiToolset::from_spec_str(spec).unwrap().tools.iter().map(|tool| tool.name()).collect();
    assert_eq!(
        names,
        vec!["get_p", "post_p", "put_p", "patch_p", "delete_p", "head_p", "options_p", "trace_p"]
    );
}

#[test]
fn options_change_nothing_that_is_known_of_operations() {
    let plain = tools();
    let set = OpenApiToolset::builder(API)
        .base_url("http://x")
        .hidden_context("limit", "1")
        .bearer_token("t")
        .api_key_query("k", "v")
        .basic_auth("u", "p")
        .build()
        .unwrap()
        .into_tools();
    assert_eq!(plain.len(), set.len());
    for k in 0..plain.len() {
        assert_eq!(plain[k].method, set[k].method);
        assert_eq!(plain[k].path_template, set[k].path_template);
        assert_eq!(plain[k].operation_id, set[k].operation_id);
        assert_eq!(plain[k].description, set[k].description);
        assert_eq!(plain[k].parameters, set[k].parameters);
        assert_eq!(plain[k].request_body_schema, set[k].request_body_schema);
        assert_eq!(plain[k].request_body_required, set[k].request_body_required);
    }
}

#[test]
fn descriptions_come_from_summary_description_or_path() {
    let descriptions: Vec<String> =
        tools().iter().map(|tool| tool.definition().description).collect();
    assert_eq!(
        descriptions,
        vec!["GET /pets", "Adds a pet", "PUT /pets/{id}/photos", "Forget the photos"]
    );
}

#[test]
fn schema_of_the_arguments() {
    let shown = tools()[0].build_parameters_schema().to_json_text();
    let pet = r#"{"properties":{"parent":{"type":"object"}},"type":"object"}"#;
    assert_eq!(
        shown,
        format!(
            "{{\"properties\":{{\"filter\":{{\"properties\":{{\"like\":{}}},\"type\":\"object\"}},\
             \"limit\":{{\"description\":\"How many\",\"minimum\":1,\"type\":\"integer\"}},\
             \"raw\":{{\"type\":\"string\"}}}},\"required\":[\"filter\"],\"type\":\"object\"}}",
            pet
        )
    );
}

#[test]
fn schema_of_a_request_body() {
    let tools = tools();
    let shown = tools[1].build_parameters_schema().to_json_text();
    // The reference in place of the schema is followed first, and those in it after that.
    let pet = r#"{"properties":{"parent":{"type":"object"}},"type":"object"}"#;
    assert_eq!(
        shown,
        format!(
            "{{\"properties\":{{\"body\":{{\"properties\":{{\"parent\":{}}},\"type\":\"object\"}}}},\
             \"required\":[\"body\"],\"type\":\"object\"}}",
            pet
        )
    );
    let empty = r#"{"properties":{},"required":[],"type":"object"}"#;
    // No JSON, and a schema that is not there.
    assert_eq!(tools[3].build_parameters_schema().to_json_text(), empty);
    assert!(tools[2].request_body_required);
    assert_eq!(tools[2].build_parameters_schema().to_json_text(), empty);
}

#[test]
fn base_url_is_that_of_the_first_server_without_slashes() {
    assert_eq!(tools()[0].base_url, "https://first.example.com");
    let toolset = OpenApiToolset::builder(API).base_url("http://x//").build().unwrap();
    assert_eq!(toolset.tools[3].base_url, "http://x");
    let toolset = OpenApiToolset::builder(API).base_url("//").build().unwrap();
    assert_eq!(toolset.tools[0].base_url, "");
}

#[test]
fn base_url_without_servers_is_localhost() {
    let spec = "{\"openapi\":\"3.0.0\",\"info\":{\"title\":\"T\",\"version\":\"1\"},\
                \"paths\":{\"/a\":{\"get\":{\"responses\":{}}}}}";
    let tools = OpenApiToolset::from_spec_str(spec).unwrap().into_tools();
    assert_eq!(tools[0].base_url, "http://localhost");
    assert_eq!(tools[0].name(), "get_a");
    assert_eq!(tools[0].path_template, "/a");
}

const ORDER_DECIDES: &str = r#"
openapi: "3.0.0"
info: { title: T, version: "1" }
paths:
  /a:
    get:
      parameters:
        - { name: q, in: query, schema: 5, content: {} }
      responses: {}
"#;

#[test]
fn texts_that_are_sure_to_be_read_at_the_first_try() {
    assert!(surely_reads_once(API));
    assert!(surely_reads_once("see: www.info.example, really ! .NET"));
    assert!(surely_reads_once("a: 1.5\nb: [true, null, -3, {200: x}]"));
    assert!(surely_reads_once("a: {schema: 1}\nb: {content: 1}"));
    for text in [
        "a: 1\na: 2",
        "{\"x\": {\"b\": 1, \"b\": 1}}",
        "minimum: .nan",
        "minimum: -.INF",
        "[.inf]",
        "[[{a: .inf}]]",
        "{.nan: 1}",
        "a: !!float \"\\x2Enan\"",
        "a: !custom 1",
        "a: {schema: 1, x: 2, content: 3}",
        "[{operationId: a, operationRef: b}]",
        ORDER_DECIDES,
        "[",
    ] {
        assert!(!surely_reads_once(text), "{}", text);
    }
}

#[test]
fn texts_are_tried() {
    let tools = OpenApiToolset::try_from_spec_str(API).unwrap().unwrap();
    assert_eq!(tools.len(), 4);
    let tools = OpenApiToolset::builder(API).base_url("http://x").try_build().unwrap().unwrap();
    assert_eq!(tools.tools[0].base_url, "http://x");
    assert!(matches!(OpenApiToolset::try_from_spec_str("[]"), Some(Err(BuildError::Spec(_)))));
    let repeated = "{\"openapi\":\"3.0.0\",\"info\":{\"title\":\"T\",\"version\":\"1\"},\
                    \"paths\":{\"/a\":{\"get\":{\"responses\":{}},\"get\":{\"responses\":{}}}}}";
    assert!(OpenApiToolset::try_from_spec_str(repeated).is_none());
    assert!(OpenApiToolset::try_from_spec_str(ORDER_DECIDES).is_none());
    assert!(OpenApiToolset::builder(repeated).try_build().is_none());
}

#[test]
fn all_tools_share_the_configuration() {
    let spec = ApiSpec::from_text(API).unwrap();
    let mut hidden_context: StrMap<String> = StrMap::new();
    hidden_context.insert(text("limit"), text("5"));
    let config = ToolConfig {
        base_url: None,
        client: reqwest::Client::new(),
        fields: Vec::new(),
        hidden_context,
        static_query_params: vec![(text("k"), text("v"))],
        basic_auth: Some((text("u"), text("p"))),
    };
    let toolset = OpenApiToolset::from_spec(&spec, &config);
    assert_eq!(toolset.len(), 4);
    for tool in &toolset.tools {
        assert_eq!(tool.hidden_params.get("limit"), Some(&text("5")));
        assert_eq!(tool.static_query_params, vec![(text("k"), text("v"))]);
        assert_eq!(tool.basic_auth, Some((text("u"), text("p"))));
    }
    assert!(OpenApiToolset::build_inner(API, &config).is_ok());
    assert!(OpenApiToolset::build_inner("[", &config).is_err());
}

#[test]
fn of_two_parameters_with_one_name_the_later_is_shown() {
    let mut tool = tools().remove(0);
    let mut twice = tool.parameters[0].clone();
    twice.required = true;
    twice.description = text("");
    tool.parameters.push(twice);
    let shown = tool.build_parameters_schema().to_value();
    assert!(shown["properties"]["limit"].get("description").is_none());
    assert_eq!(shown["required"].as_array().unwrap().len(), 2);
}

#[test]
fn cookies_are_no_parameters_of_a_tool() {
    let spec = ApiSpec::from_text(API).unwrap();
    let resolver = Resolver::new(&spec);
    let mut param = ApiParameter {
        place: ParamPlace::Cookie,
        name: text("c"),
        description: Some(text("d")),
        required: true,
        schema: None,
    };
    assert!(extract_param_info(&param, &resolver).is_none());
    let places = [
        (ParamPlace::Path, ParamLocation::Path),
        (ParamPlace::Query, ParamLocation::Query),
        (ParamPlace::Header, ParamLocation::Header),
    ];
    for (place, location) in places {
        param.place = place;
        let info = extract_param_info(&param, &resolver).unwrap();
        assert_eq!(info.location, location);
        assert_eq!(info.name, "c");
        assert_eq!(info.description, "d");
        assert!(info.required);
        assert_eq!(info.schema.to_json_text(), "{\"type\":\"string\"}");
    }
}

#[test]
fn schemas_that_lead_nowhere_are_those_of_any_string() {
    let spec = ApiSpec::from_text(API).unwrap();
    let resolver = Resolver::new(&spec);
    let schemas = vec![
        None,
        Some(RefOr::Reference(text("#/components/schemas/Missing"))),
        Some(RefOr::Item(ApiSchema { json: None })),
    ];
    for schema in schemas {
        let param = ApiParameter {
            place: ParamPlace::Query,
            name: text("q"),
            description: None,
            required: false,
            schema,
        };
        let info = extract_param_info(&param, &resolver).unwrap();
        assert_eq!(info.schema.to_json_text(), "{\"type\":\"string\"}");
        assert_eq!(info.description, "");
    }
}

#[test]
fn body_schemas_are_those_of_json() {
    let spec = ApiSpec::from_text(API).unwrap();
    let resolver = Resolver::new(&spec);
    let mut content: StrMap<ApiMedia> = StrMap::new();
    content.insert(text("text/plain"), ApiMedia { schema: None });
    let mut body = ApiBody { content, required: true };
    assert_eq!(extract_body_schema(&body, &resolver), (None, true));
    body.content.insert(text("application/json"), ApiMedia { schema: None });
    body.required = false;
    assert_eq!(extract_body_schema(&body, &resolver), (None, false));
    let schema = RefOr::Reference(text("#/components/schemas/Pet"));
    body.content.insert(text("application/json"), ApiMedia { schema: Some(schema) });
    let (schema, required) = extract_body_schema(&body, &resolver);
    assert!(!required);
    assert_eq!(
        schema.unwrap().to_json_text(),
        r#"{"properties":{"parent":{"properties":{"parent":{"type":"object"}},"type":"object"}},"type":"object"}"#
    );
}

#[test]
fn preamble_has_a_line_per_entry() {
    let entries = vec![(text("username"), text("alice")), (text("role"), text("admin"))];
    assert_eq!(
        OpenApiToolset::preamble_of(&entries),
        "The following context is available. Use these values when calling tools:\n\
         - username = alice\n- role = admin"
    );
    assert_eq!(OpenApiToolset::preamble_of(&Vec::new()), "");
    let context = HashMap::from([(text("user_id"), text("123"))]);
    assert_eq!(
        OpenApiToolset::context_preamble(&context),
        "The following context is available. Use these values when calling tools:\n\
         - user_id = 123"
    );
    let context = HashMap::from([(text("a"), text("1")), (text("b"), text("2"))]);
    let preamble = OpenApiToolset::context_preamble(&context);
    assert!(preamble.contains("\n- a = 1"));
    assert!(preamble.contains("\n- b = 2"));
    assert_eq!(preamble.lines().count(), 3);
}

#[test]
fn context_entries_are_those_of_the_map() {
    let context = HashMap::from([(text("a"), text("1")), (text("b"), text("2"))]);
    let mut entries = context_entries(&context);
    entries.sort();
    assert_eq!(entries, vec![(text("a"), text("1")), (text("b"), text("2"))]);
    assert!(context_entries(&HashMap::new()).is_empty());
}

#[test]
fn of_two_members_with_one_name_the_later_one_is_in_the_value() {
    let members = StrMap {
        entries: vec![
            (text("a"), Json::Null),
            (text("b"), Json::Bool(false)),
            (text("a"), Json::Bool(true)),
        ],
    };
    let json = Json::Object(members);
    assert_eq!(json.to_json_text(), "{\"a\":true,\"b\":false}");
    assert_eq!(json.get("a"), Some(&Json::Bool(true)));
}

#[test]
fn a_hidden_required_body_is_not_shown() {
    let toolset = OpenApiToolset::builder(API).hidden_context("body", "{}").build().unwrap();
    assert_eq!(
        toolset.tools[1].build_parameters_schema().to_json_text(),
        r#"{"properties":{},"required":[],"type":"object"}"#
    );
}

#[test]
fn json_survives_being_taken_apart_and_put_together() {
    let source = r#"{"a":[null,true,-1,2.5,18446744073709551615,"t\n"],"b":{"c":{}}}"#;
    let json = read_json(source).unwrap();
    assert_eq!(json.to_json_text(), source);
    assert_eq!(json.clone().to_value(), serde_json::from_str::<serde_json::Value>(source).unwrap());
    assert_eq!(json.get("b").unwrap().to_json_text(), "{\"c\":{}}");
    assert_eq!(json.get("c"), None);
    assert_eq!(Json::text("x").get("x"), None);
    // Of two members with one name the later one stays.
    assert_eq!(read_json("{\"a\":1,\"a\":2}").unwrap().to_json_text(), "{\"a\":2}");
    assert!(read_json("{\"a\":}").is_err());
}
