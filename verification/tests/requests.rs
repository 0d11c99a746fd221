use std::collections::HashMap;

use rig_openapi_tools::json::Json;
use rig_openapi_tools::serde_value::read_json;
use rig_openapi_tools::tool::{CallError, HttpMethod, RequestPlan};
use rig_openapi_tools::{OpenApiTool, OpenApiToolset};

const API: &str = r#"
openapi: "3.0.0"
info:
  title: Test
  version: "1.0"
servers:
  - url: https://api.example.com/v1/
paths:
  /shops/{shop}/items/{item}:
    get:
      operationId: getItem
      parameters:
        - { name: shop, in: path, required: true, schema: { type: string } }
        - { name: item, in: path, required: true, schema: { type: integer } }
        - { name: lang, in: query, schema: { type: string } }
        - { name: limit, in: query, schema: { type: integer } }
        - { name: X-Trace, in: header, schema: { type: string } }
        - { name: session, in: cookie, schema: { type: string } }
      responses: {}
    post:
      operationId: addItem
      requestBody:
        content:
          application/json:
            schema: { type: object }
      responses: {}
    put:
      operationId: setItem
      responses: {}
    patch:
      operationId: changeItem
      responses: {}
    delete:
      operationId: dropItem
      responses: {}
    head:
      operationId: probeItem
      responses: {}
    options:
      operationId: askItem
      responses: {}
    trace:
      operationId: traceItem
      responses: {}
"#;

fn tools() -> Vec<OpenApiTool> {
    OpenApiToolset::from_spec_str(API).unwrap().into_tools()
}

fn plan(tool: &OpenApiTool, args: &str) -> RequestPlan {
    tool.plan_request(&read_json(args).unwrap())
}

fn pair(name: &str, value: &str) -> (String, String) {
    (name.to_string(), value.to_string())
}

#[test]
fn arguments_go_where_their_parameters_are() {
    let plan = plan(
        &tools()[0],
        r#"{"shop": "a b", "item": 7, "limit": 10, "lang": "de", "X-Trace": true, "session": "s", "more": 1}"#,
    );
    assert_eq!(plan.method, HttpMethod::Get);
    assert_eq!(plan.url, "https://api.example.com/v1/shops/a b/items/7");
    assert_eq!(plan.query, vec![pair("lang", "de"), pair("limit", "10")]);
    assert_eq!(plan.headers, vec![pair("X-Trace", "true")]);
    assert_eq!(plan.basic_auth, None);
    assert_eq!(plan.body, None);
}

#[test]
fn missing_path_arguments_leave_nothing() {
    let plan = plan(&tools()[0], "{}");
    assert_eq!(plan.url, "https://api.example.com/v1/shops//items/");
    assert!(plan.query.is_empty());
    assert!(plan.headers.is_empty());
}

#[test]
fn arguments_that_are_no_object_count_as_none() {
    for args in ["[1, 2]", "null", "\"text\"", "3", "true"] {
        assert_eq!(plan(&tools()[0], args), plan(&tools()[0], "{}"));
    }
}

#[test]
fn arguments_without_a_parameter_change_nothing() {
    let tool = &tools()[0];
    assert_eq!(
        plan(tool, r#"{"item": 7, "unknown": [1], "Item": 8}"#),
        plan(tool, r#"{"item": 7}"#)
    );
}

#[test]
fn calls_with_the_same_known_arguments_are_the_same() {
    let tool = &tools()[0];
    assert_eq!(
        plan(tool, r#"{"x": 1, "item": 7, "lang": "de"}"#),
        plan(tool, r#"{"lang": "de", "item": 7, "y": {"item": 8}}"#)
    );
}

#[test]
fn arguments_that_are_no_strings_are_written_as_json() {
    let plan = plan(
        &tools()[0],
        r#"{"lang": {"b": [1, null], "a": "x"}, "limit": null, "item": 1.5, "X-Trace": ""}"#,
    );
    assert_eq!(plan.query, vec![pair("lang", r#"{"a":"x","b":[1,null]}"#), pair("limit", "null")]);
    assert_eq!(plan.headers, vec![pair("X-Trace", "")]);
    assert_eq!(plan.url, "https://api.example.com/v1/shops//items/1.5");
}

#[test]
fn hidden_parameters_are_filled_in_where_arguments_lack_them() {
    let toolset = OpenApiToolset::builder(API)
        .hidden_context("lang", "en")
        .hidden_context("shop", "main")
        .hidden_context("nowhere", "x")
        .build()
        .unwrap();
    let tool = &toolset.tools[0];
    let filled = plan(tool, r#"{"item": "i"}"#);
    assert_eq!(filled.url, "https://api.example.com/v1/shops/main/items/i");
    assert_eq!(filled.query, vec![pair("lang", "en")]);

    // What a call is given wins.
    let given = plan(tool, r#"{"item": "i", "shop": "other", "lang": null}"#);
    assert_eq!(given.url, "https://api.example.com/v1/shops/other/items/i");
    assert_eq!(given.query, vec![pair("lang", "null")]);
}

#[test]
fn context_of_a_request_wins_over_the_fixed_one_and_leaves_the_set() {
    let toolset = OpenApiToolset::builder(API)
        .hidden_context("shop", "main")
        .hidden_context("lang", "en")
        .build()
        .unwrap();
    let context = HashMap::from([pair("lang", "fr"), pair("X-Trace", "t")]);
    let with = toolset.tools_with_context(&context);
    let plan_with = plan(&with[0], "{}");
    assert_eq!(plan_with.url, "https://api.example.com/v1/shops/main/items/");
    assert_eq!(plan_with.query, vec![pair("lang", "fr")]);
    assert_eq!(plan_with.headers, vec![pair("X-Trace", "t")]);

    let without = toolset.tools_with_context(&HashMap::new());
    let plan_without = plan(&without[0], "{}");
    assert_eq!(plan_without.query, vec![pair("lang", "en")]);
    assert_eq!(plan_without, plan(&toolset.tools[0], "{}"));
    assert_eq!(with.len(), toolset.len());
}

#[test]
fn a_path_without_path_parameters_is_called_as_it_stands() {
    let plan = plan(&tools()[2], r#"{"shop": "s", "item": 1}"#);
    assert_eq!(plan.url, "https://api.example.com/v1/shops/{shop}/items/{item}");
}

#[test]
fn a_body_is_sent_as_it_is_given() {
    let tools = tools();
    let body = plan(&tools[1], r#"{"body": {"n": 1, "a": [true]}}"#).body;
    assert_eq!(body.unwrap().to_json_text(), r#"{"a":[true],"n":1}"#);
    assert_eq!(plan(&tools[1], "{}").body, None);
    // A body that is no JSON object is sent too, and so is one for any operation.
    assert_eq!(plan(&tools[4], r#"{"body": null}"#).body, Some(Json::Null));
}

#[test]
fn a_hidden_body_is_filled_in() {
    let context = HashMap::from([pair("body", "text")]);
    let toolset = OpenApiToolset::from_spec_str(API).unwrap();
    let tools = toolset.tools_with_context(&context);
    assert_eq!(plan(&tools[1], "{}").body, Some(Json::String("text".to_string())));
    // The model does not see it.
    let shown = tools[1].definition().parameters.to_json_text();
    assert_eq!(shown, r#"{"properties":{},"required":[],"type":"object"}"#);
    let shown = toolset.tools[1].definition().parameters.to_value();
    assert!(shown["properties"].get("body").is_some());
}

#[test]
fn a_request_is_built_for_every_method() {
    let names = ["GET", "POST", "PUT", "PATCH", "DELETE", "HEAD", "OPTIONS", "TRACE"];
    let tools = tools();
    assert_eq!(tools.len(), names.len());
    for i in 0..names.len() {
        let request = tools[i].call_request("{}").unwrap().build().unwrap();
        assert_eq!(request.method(), names[i]);
        assert_eq!(tools[i].method.as_str(), names[i]);
        assert_eq!(tools[i].method.as_lower_str(), names[i].to_lowercase());
        assert_eq!(request.url().query(), None);
        assert!(request.body().is_none());
        assert!(request.headers().is_empty());
    }
}

#[test]
fn a_request_has_query_fields_and_body() {
    let mut tools = tools();
    let mut tool = tools.remove(0);
    tool.static_query_params.push(pair("key", "k&1"));
    tool.basic_auth = Some(pair("user", "pass"));
    let request = tool
        .call_request(r#"{"shop": "s", "item": 2, "lang": "ä", "X-Trace": "id", "body": {"x": [1]}}"#)
        .unwrap()
        .build()
        .unwrap();
    assert_eq!(
        request.url().as_str(),
        "https://api.example.com/v1/shops/s/items/2?lang=%C3%A4&key=k%261"
    );
    assert_eq!(request.headers()["x-trace"], "id");
    assert_eq!(request.headers()["authorization"], "Basic dXNlcjpwYXNz");
    assert_eq!(request.headers()["content-type"], "application/json");
    assert_eq!(request.headers().len(), 3);
    assert_eq!(request.body().unwrap().as_bytes(), Some(r#"{"x":[1]}"#.as_bytes()));
}

#[test]
fn only_header_parameters_count_as_header_fields() {
    let mut tool = tools().remove(0);
    assert!(tool.few_headers());
    let query = tool.parameters[2].clone();
    let header = tool.parameters[4].clone();
    for _ in 0..7000 {
        tool.parameters.push(query.clone());
    }
    assert!(tool.few_headers());
    assert!(tool.call_request("{}").is_ok());
    for i in 0..6550 {
        let mut more = header.clone();
        more.name = format!("x-{}", i);
        tool.parameters.push(more);
    }
    assert!(tool.few_headers());
    tool.parameters.push(header);
    assert!(!tool.few_headers());
}

#[test]
fn a_plan_can_be_handed_to_any_client() {
    let plan = RequestPlan {
        method: HttpMethod::Patch,
        url: "http://localhost/x?a=1".to_string(),
        query: vec![pair("b", "2")],
        fields: Vec::new(),
        headers: vec![pair("X-A", "1"), pair("x-a", "2")],
        basic_auth: None,
        body: Some(Json::Bool(false)),
    };
    let request = plan.assemble(&reqwest::Client::new()).build().unwrap();
    assert_eq!(request.method(), "PATCH");
    assert_eq!(request.url().as_str(), "http://localhost/x?a=1&b=2");
    assert_eq!(request.headers().get_all("x-a").iter().count(), 2);
    assert_eq!(request.body().unwrap().as_bytes(), Some("false".as_bytes()));
}

#[test]
fn a_url_that_is_none_fails_when_the_request_is_built() {
    let toolset = OpenApiToolset::builder(API).base_url("not a url").build().unwrap();
    let request = toolset.tools[0].call_request("{}").unwrap();
    assert!(request.build().is_err());
}

#[test]
fn arguments_that_are_no_json_are_an_error() {
    for args in ["not json", "", "{", "{'a': 1}", "{} x"] {
        assert!(matches!(tools()[0].call_request(args), Err(CallError::Json(_))));
    }
}

#[test]
fn an_answer_is_written_as_json() {
    let answer: serde_json::Value = serde_json::from_str("{ \"b\": [1, null],\n \"a\": \"ü\" }").unwrap();
    assert_eq!(OpenApiTool::call_result(answer).unwrap(), "{\"a\":\"ü\",\"b\":[1,null]}");
    assert_eq!(OpenApiTool::call_result(serde_json::Value::Null).unwrap(), "null");
}

#[test]
fn a_placeholder_is_replaced_wherever_it_stands() {
    let mut tools = tools();
    let mut tool = tools.remove(0);
    tool.path_template = "/{item}/{item}x/{Item}/{shop}".to_string();
    // Parameters are filled in one after the other, also in what was filled in.
    let plan = plan(&tool, r#"{"shop": "{item}", "item": "1"}"#);
    assert_eq!(plan.url, "https://api.example.com/v1/1/1x/{Item}/1");
}
