use std::collections::HashMap;

use rig_openapi_tools::tool::ToolDefinition;
use rig_openapi_tools::OpenApiToolset;
use serde_json::Value;

/// The properties of a tool's arguments.
fn properties_of(definition: &ToolDefinition) -> Option<serde_json::Map<String, Value>> {
    definition.parameters.to_value()["properties"].as_object().cloned()
}

/// What is required of a tool's arguments.
fn required_of(definition: &ToolDefinition) -> Option<Vec<Value>> {
    definition.parameters.to_value()["required"].as_array().cloned()
}

const MINIMAL_SPEC: &str = r#"
openapi: "3.0.0"
info:
  title: Test
  version: "1.0"
servers:
  - url: https://api.example.com
paths:
  /users/{id}:
    get:
      operationId: getUser
      summary: Get a user by id
      parameters:
        - name: id
          in: path
          required: true
          schema:
            type: string
          description: The user id
      responses:
        "200":
          description: OK
"#;

const MULTI_METHOD_SPEC: &str = r#"
openapi: "3.0.0"
info:
  title: Test
  version: "1.0"
servers:
  - url: https://api.example.com
paths:
  /users:
    get:
      operationId: listUsers
      summary: List all users
      parameters:
        - name: limit
          in: query
          required: false
          schema:
            type: integer
          description: Max results
      responses:
        "200":
          description: OK
    post:
      operationId: createUser
      summary: Create a user
      requestBody:
        required: true
        content:
          application/json:
            schema:
              type: object
              properties:
                name:
                  type: string
                email:
                  type: string
              required:
                - name
      responses:
        "201":
          description: Created
  /users/{id}:
    get:
      operationId: getUser
      summary: Get a user
      parameters:
        - name: id
          in: path
          required: true
          schema:
            type: string
      responses:
        "200":
          description: OK
    delete:
      operationId: deleteUser
      summary: Delete a user
      parameters:
        - name: id
          in: path
          required: true
          schema:
            type: string
      responses:
        "204":
          description: Deleted
"#;

const REF_SPEC: &str = r#"
openapi: "3.0.0"
info:
  title: Test
  version: "1.0"
servers:
  - url: https://api.example.com
paths:
  /items/{id}:
    get:
      operationId: getItem
      summary: Get an item
      parameters:
        - $ref: '#/components/parameters/ItemId'
      responses:
        "200":
          description: OK
components:
  parameters:
    ItemId:
      name: id
      in: path
      required: true
      schema:
        type: string
      description: The item id
"#;

#[test]
fn parse_minimal_spec() {
    let toolset = OpenApiToolset::from_spec_str(MINIMAL_SPEC).unwrap();
    assert_eq!(toolset.len(), 1);
}

#[test]
fn parse_multi_method_spec() {
    let toolset = OpenApiToolset::from_spec_str(MULTI_METHOD_SPEC).unwrap();
    assert_eq!(toolset.len(), 4);
}

#[test]
fn tool_names_match_operation_ids() {
    let toolset = OpenApiToolset::from_spec_str(MULTI_METHOD_SPEC).unwrap();
    let tools = toolset.into_tools();
    let names: Vec<String> = tools.iter().map(|t| t.name()).collect();
    assert!(names.contains(&"listUsers".to_string()));
    assert!(names.contains(&"createUser".to_string()));
    assert!(names.contains(&"getUser".to_string()));
    assert!(names.contains(&"deleteUser".to_string()));
}

#[test]
fn fallback_operation_id_when_missing() {
    let spec = r#"
openapi: "3.0.0"
info:
  title: Test
  version: "1.0"
paths:
  /health:
    get:
      summary: Health check
      responses:
        "200":
          description: OK
"#;
    let toolset = OpenApiToolset::from_spec_str(spec).unwrap();
    let tools = toolset.into_tools();
    assert_eq!(tools[0].name(), "get_health");
}

#[test]
fn base_url_from_spec() {
    let toolset = OpenApiToolset::from_spec_str(MINIMAL_SPEC).unwrap();
    let tools = toolset.into_tools();
    assert_eq!(tools.len(), 1);
}

#[test]
fn builder_base_url_override() {
    let toolset = OpenApiToolset::builder(MINIMAL_SPEC)
        .base_url("https://override.com")
        .build()
        .unwrap();
    assert_eq!(toolset.len(), 1);
}

#[test]
fn builder_bearer_token() {
    let toolset = OpenApiToolset::builder(MINIMAL_SPEC)
        .bearer_token("test-token-123")
        .build()
        .unwrap();
    assert_eq!(toolset.len(), 1);
}

#[test]
fn builder_custom_client() {
    let client = reqwest::Client::builder()
        .timeout(std::time::Duration::from_secs(30))
        .build()
        .unwrap();
    let toolset = OpenApiToolset::builder(MINIMAL_SPEC)
        .client(client)
        .build()
        .unwrap();
    assert_eq!(toolset.len(), 1);
}

#[test]
fn builder_all_options() {
    let toolset = OpenApiToolset::builder(MINIMAL_SPEC)
        .base_url("https://custom.api.com")
        .bearer_token("sk-123")
        .build()
        .unwrap();
    assert_eq!(toolset.len(), 1);
}

#[test]
fn base_url_defaults_to_localhost() {
    let spec = r#"
openapi: "3.0.0"
info:
  title: Test
  version: "1.0"
paths:
  /ping:
    get:
      operationId: ping
      summary: Ping
      responses:
        "200":
          description: OK
"#;
    let toolset = OpenApiToolset::from_spec_str(spec).unwrap();
    assert_eq!(toolset.len(), 1);
}

#[test]
fn empty_spec_produces_no_tools() {
    let spec = r#"
openapi: "3.0.0"
info:
  title: Test
  version: "1.0"
paths: {}
"#;
    let toolset = OpenApiToolset::from_spec_str(spec).unwrap();
    assert!(toolset.is_empty());
}

#[test]
fn invalid_yaml_returns_error() {
    let result = OpenApiToolset::from_spec_str("not: [valid: yaml: {{");
    assert!(result.is_err());
}

#[test]
fn tool_definition_has_correct_fields() {
    let toolset = OpenApiToolset::from_spec_str(MINIMAL_SPEC).unwrap();
    let tools = toolset.into_tools();
    let def = tools[0].definition();

    assert_eq!(def.name, "getUser");
    assert_eq!(def.description, "Get a user by id");
}

#[test]
fn tool_definition_path_param_schema() {
    let toolset = OpenApiToolset::from_spec_str(MINIMAL_SPEC).unwrap();
    let tools = toolset.into_tools();
    let def = tools[0].definition();

    let props = properties_of(&def).unwrap();
    assert!(props.contains_key("id"));

    let required = required_of(&def).unwrap();
    assert!(required.contains(&Value::String("id".into())));
}

#[test]
fn tool_definition_query_param_not_required() {
    let toolset = OpenApiToolset::from_spec_str(MULTI_METHOD_SPEC).unwrap();
    let tools = toolset.into_tools();
    let list_tool = tools.iter().find(|t| t.name() == "listUsers").unwrap();
    let def = list_tool.definition();

    let props = properties_of(&def).unwrap();
    assert!(props.contains_key("limit"));

    let required = required_of(&def).unwrap();
    assert!(!required.contains(&Value::String("limit".into())));
}

#[test]
fn tool_definition_request_body_schema() {
    let toolset = OpenApiToolset::from_spec_str(MULTI_METHOD_SPEC).unwrap();
    let tools = toolset.into_tools();
    let create_tool = tools.iter().find(|t| t.name() == "createUser").unwrap();
    let def = create_tool.definition();

    let props = properties_of(&def).unwrap();
    assert!(props.contains_key("body"));

    let required = required_of(&def).unwrap();
    assert!(required.contains(&Value::String("body".into())));
}

#[test]
fn ref_parameters_are_resolved() {
    let toolset = OpenApiToolset::from_spec_str(REF_SPEC).unwrap();
    let tools = toolset.into_tools();
    assert_eq!(tools.len(), 1);

    let def = tools[0].definition();
    let props = properties_of(&def).unwrap();
    assert!(props.contains_key("id"));
}

#[test]
fn tool_definition_header_param() {
    let spec = r#"
openapi: "3.0.0"
info:
  title: Test
  version: "1.0"
paths:
  /data:
    get:
      operationId: getData
      summary: Get data
      parameters:
        - name: X-Request-Id
          in: header
          required: false
          schema:
            type: string
          description: Correlation ID
      responses:
        "200":
          description: OK
"#;
    let toolset = OpenApiToolset::from_spec_str(spec).unwrap();
    let tools = toolset.into_tools();
    let def = tools[0].definition();

    let props = properties_of(&def).unwrap();
    assert!(props.contains_key("X-Request-Id"));
}

#[test]
fn tool_call_with_invalid_json_returns_error() {
    let toolset = OpenApiToolset::from_spec_str(MINIMAL_SPEC).unwrap();
    let tools = toolset.into_tools();
    let result = tools[0].call_request("not json");
    assert!(result.is_err());
}

#[test]
fn hidden_context_excluded_from_schema() {
    let toolset = OpenApiToolset::builder(MINIMAL_SPEC)
        .hidden_context("id", "123")
        .build()
        .unwrap();
    let tools = toolset.into_tools();
    let def = tools[0].definition();

    let props = properties_of(&def).unwrap();
    assert!(
        !props.contains_key("id"),
        "hidden param should not appear in schema"
    );

    let required = required_of(&def).unwrap();
    assert!(!required.contains(&Value::String("id".into())));
}

#[test]
fn tools_with_context_excludes_from_schema() {
    let toolset = OpenApiToolset::from_spec_str(MINIMAL_SPEC).unwrap();

    // Without context, "id" is visible
    let tools = toolset.tools_with_context(&HashMap::new());
    let def = tools[0].definition();
    let props = properties_of(&def).unwrap();
    assert!(props.contains_key("id"));

    // With context, "id" is hidden
    let ctx = HashMap::from([("id".to_string(), "42".to_string())]);
    let tools = toolset.tools_with_context(&ctx);
    let def = tools[0].definition();
    let props = properties_of(&def).unwrap();
    assert!(!props.contains_key("id"));
}

#[test]
fn toolset_reusable_across_contexts() {
    let toolset = OpenApiToolset::from_spec_str(MULTI_METHOD_SPEC).unwrap();

    let ctx1 = HashMap::from([("id".to_string(), "1".to_string())]);
    let ctx2 = HashMap::from([("id".to_string(), "2".to_string())]);

    let tools1 = toolset.tools_with_context(&ctx1);
    let tools2 = toolset.tools_with_context(&ctx2);

    assert_eq!(tools1.len(), 4);
    assert_eq!(tools2.len(), 4);
}

#[test]
fn context_preamble_generation() {
    let ctx = HashMap::from([("user_id".to_string(), "123".to_string())]);
    let preamble = OpenApiToolset::context_preamble(&ctx);
    assert!(preamble.contains("user_id = 123"));
    assert!(preamble.contains("Use these values"));
}

#[test]
fn context_preamble_empty() {
    let preamble = OpenApiToolset::context_preamble(&HashMap::new());
    assert!(preamble.is_empty());
}

#[test]
fn builder_api_key_header() {
    let toolset = OpenApiToolset::builder(MINIMAL_SPEC)
        .api_key_header("X-API-Key", "abc123")
        .build()
        .unwrap();
    assert_eq!(toolset.len(), 1);
}

#[test]
fn builder_api_key_query() {
    let toolset = OpenApiToolset::builder(MINIMAL_SPEC)
        .api_key_query("api_key", "abc123")
        .build()
        .unwrap();
    assert_eq!(toolset.len(), 1);
}

#[test]
fn builder_basic_auth() {
    let toolset = OpenApiToolset::builder(MINIMAL_SPEC)
        .basic_auth("user", "pass")
        .build()
        .unwrap();
    assert_eq!(toolset.len(), 1);
}

#[test]
fn builder_multiple_auth() {
    let toolset = OpenApiToolset::builder(MINIMAL_SPEC)
        .bearer_token("sk-123")
        .api_key_header("X-Tenant-Id", "tenant-abc")
        .build()
        .unwrap();
    assert_eq!(toolset.len(), 1);
}

#[test]
fn api_key_query_params_stored_on_tools() {
    let toolset = OpenApiToolset::builder(MINIMAL_SPEC)
        .api_key_query("api_key", "secret123")
        .build()
        .unwrap();
    let tool = &toolset.tools[0];
    assert!(tool
        .static_query_params
        .contains(&("api_key".to_string(), "secret123".to_string())));
}

#[test]
fn multiple_api_key_queries_stack() {
    let toolset = OpenApiToolset::builder(MINIMAL_SPEC)
        .api_key_query("api_key", "key1")
        .api_key_query("version", "v2")
        .build()
        .unwrap();
    let tool = &toolset.tools[0];
    assert_eq!(tool.static_query_params.len(), 2);
    assert!(tool
        .static_query_params
        .contains(&("api_key".to_string(), "key1".to_string())));
    assert!(tool
        .static_query_params
        .contains(&("version".to_string(), "v2".to_string())));
}

#[test]
fn basic_auth_credentials_stored_on_tools() {
    let toolset = OpenApiToolset::builder(MINIMAL_SPEC)
        .basic_auth("alice", "s3cr3t")
        .build()
        .unwrap();
    let tool = &toolset.tools[0];
    assert_eq!(
        tool.basic_auth,
        Some(("alice".to_string(), "s3cr3t".to_string()))
    );
}

#[test]
fn basic_auth_not_set_by_default() {
    let toolset = OpenApiToolset::from_spec_str(MINIMAL_SPEC).unwrap();
    let tool = &toolset.tools[0];
    assert!(tool.basic_auth.is_none());
}

#[test]
fn api_key_query_not_set_by_default() {
    let toolset = OpenApiToolset::from_spec_str(MINIMAL_SPEC).unwrap();
    let tool = &toolset.tools[0];
    assert!(tool.static_query_params.is_empty());
}
