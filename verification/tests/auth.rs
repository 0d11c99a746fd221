use rig_openapi_tools::{BuildError, OpenApiToolset, OpenApiToolsetBuilder};

fn spec_with_base_url(base_url: &str) -> String {
    format!(
        r#"openapi: "3.0.0"
info:
  title: Test
  version: "1.0"
servers:
  - url: {}
paths:
  /hello:
    get:
      operationId: sayHello
      summary: Hello
      responses:
        "200":
          description: OK
"#,
        base_url
    )
}

/// The request that a call without arguments of the only tool makes.
fn request_of(builder: OpenApiToolsetBuilder) -> reqwest::Request {
    let tools = builder.build().unwrap().into_tools();
    tools[0].call_request("{}").unwrap().build().unwrap()
}

/// What is printed of the client of the only tool, its default header fields included.
fn client_of(builder: OpenApiToolsetBuilder) -> String {
    let tools = builder.build().unwrap().into_tools();
    format!("{:?}", tools[0].client)
}

#[test]
fn api_key_query_param_appended() {
    let spec = spec_with_base_url("http://127.0.0.1:8080");
    let request = request_of(OpenApiToolset::builder(&spec).api_key_query("api_key", "mykey"));
    assert_eq!(request.method(), "GET");
    assert_eq!(request.url().path(), "/hello");
    assert_eq!(request.url().query(), Some("api_key=mykey"));
}

#[test]
fn basic_auth_sent_as_authorization_header() {
    let spec = spec_with_base_url("http://127.0.0.1:8080");
    let request = request_of(OpenApiToolset::builder(&spec).basic_auth("user", "pass"));
    assert_eq!(request.method(), "GET");
    assert_eq!(request.url().path(), "/hello");
    // base64("user:pass") = "dXNlcjpwYXNz"
    assert_eq!(request.headers()["authorization"], "Basic dXNlcjpwYXNz");
}

#[test]
fn bearer_token_sent_as_authorization_header() {
    let spec = spec_with_base_url("http://127.0.0.1:8080");
    let request = request_of(OpenApiToolset::builder(&spec).bearer_token("mytoken"));
    assert_eq!(request.method(), "GET");
    assert_eq!(request.url().path(), "/hello");
    assert_eq!(request.headers()["authorization"], "Bearer mytoken");
    assert!(request.headers()["authorization"].is_sensitive());
}

#[test]
fn api_key_header_sent_correctly() {
    let spec = spec_with_base_url("http://127.0.0.1:8080");
    let request = request_of(OpenApiToolset::builder(&spec).api_key_header("X-API-Key", "mykey"));
    assert_eq!(request.method(), "GET");
    assert_eq!(request.url().path(), "/hello");
    assert_eq!(request.headers()["x-api-key"], "mykey");
    assert!(request.headers()["x-api-key"].is_sensitive());
}

#[test]
fn header_fields_of_different_names_stack() {
    let spec = spec_with_base_url("http://127.0.0.1:8080");
    let builder = || {
        OpenApiToolset::builder(&spec)
            .bearer_token("first")
            .api_key_header("X-Tenant-Id", "tenant-abc")
            .bearer_token("second")
    };
    let request = request_of(builder());
    assert_eq!(request.headers().len(), 2);
    assert_eq!(request.headers()["authorization"], "Bearer second");
    assert_eq!(request.headers()["x-tenant-id"], "tenant-abc");
    // A client that is built has them as its defaults too.
    let client = client_of(builder());
    assert_eq!(client.matches("\"authorization\": Sensitive").count(), 1);
    assert_eq!(client.matches("\"x-tenant-id\": Sensitive").count(), 1);
    assert!(client.contains("\"accept\": \"*/*\""), "{}", client);
}

#[test]
fn an_accept_field_takes_the_place_of_the_usual_one() {
    let spec = spec_with_base_url("http://127.0.0.1:8080");
    let client = client_of(OpenApiToolset::builder(&spec).api_key_header("Accept", "text/plain"));
    assert!(client.contains("\"accept\": Sensitive"), "{}", client);
    assert!(!client.contains("*/*"));
}

#[test]
fn header_fields_are_sent_with_a_given_client_too() {
    let spec = spec_with_base_url("http://127.0.0.1:8080");
    let builder = || {
        OpenApiToolset::builder(&spec)
            .api_key_header("X-API-Key", "abc")
            .client(reqwest::Client::new())
            .bearer_token("mytoken")
    };
    let request = request_of(builder());
    assert_eq!(request.headers()["x-api-key"], "abc");
    assert_eq!(request.headers()["authorization"], "Bearer mytoken");
    // The client itself is used as it was given.
    assert_eq!(client_of(builder()), format!("{:?}", reqwest::Client::new()));
}

#[test]
fn a_header_argument_does_not_take_the_place_of_a_field() {
    let spec = r#"
openapi: "3.0.0"
info: { title: T, version: "1" }
servers: [{ url: "http://localhost" }]
paths:
  /a:
    get:
      parameters:
        - { name: X-API-Key, in: header, schema: { type: string } }
      responses: {}
"#;
    let tools =
        OpenApiToolset::builder(spec).api_key_header("x-api-key", "set").build().unwrap().into_tools();
    let request =
        tools[0].call_request(r#"{"X-API-Key": "given"}"#).unwrap().build().unwrap();
    let values: Vec<String> = request
        .headers()
        .get_all("x-api-key")
        .iter()
        .map(|value| value.to_str().unwrap().to_string())
        .collect();
    assert_eq!(values, vec!["set", "given"]);
}

#[test]
fn plain_client_has_no_field_but_accept() {
    let spec = spec_with_base_url("http://127.0.0.1:8080");
    let tools = OpenApiToolset::from_spec_str(&spec).unwrap().into_tools();
    let client = format!("{:?}", tools[0].client);
    assert!(client.contains("default_headers: {\"accept\": \"*/*\"}"), "{}", client);
    assert_eq!(client, client_of(OpenApiToolset::builder(&spec)));
}

#[test]
fn all_credentials_at_once() {
    let spec = spec_with_base_url("http://127.0.0.1:8080/");
    let request = request_of(
        OpenApiToolset::builder(&spec)
            .api_key_query("a", "1")
            .basic_auth("alice", "")
            .api_key_query("b", "x y")
            .api_key_query("a", "2"),
    );
    assert_eq!(request.url().as_str(), "http://127.0.0.1:8080/hello?a=1&b=x+y&a=2");
    assert_eq!(request.headers()["authorization"], "Basic YWxpY2U6");
    assert!(request.headers()["authorization"].is_sensitive());
}

#[test]
fn header_room_ends() {
    let mut builder = OpenApiToolset::builder("");
    assert!(builder.header_room());
    let mut set: usize = 0;
    while builder.header_room() {
        builder = builder.api_key_header(&format!("x-{}", set), "v");
        set += 1;
    }
    assert_eq!(set, 6552);
}

#[test]
fn a_text_that_is_no_description_is_an_error() {
    for text in ["not: [valid: yaml: {{", "", "openapi: \"3.0.0\"", "[]"] {
        assert!(matches!(OpenApiToolset::from_spec_str(text), Err(BuildError::Spec(_))));
        let built = OpenApiToolset::builder(text).client(reqwest::Client::new()).build();
        assert!(matches!(built, Err(BuildError::Spec(_))));
    }
}
