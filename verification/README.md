# rig-openapi-tools

Point at an OpenAPI 3.0 description, in YAML or JSON, and get a tool for every
operation, of any HTTP method, that a language model can call: what the model is told
of it, and the HTTP request that a call makes. Path, query and header parameters, JSON
request bodies and `$ref` are supported. The library is written in Verus: each function
has a contract, and the contracts are proved.

```rust
let toolset = OpenApiToolset::builder(&text)
    .base_url("https://api.example.com")
    .bearer_token("sk-your-token")
    .hidden_context("tenant", "acme")
    .build()?;

// One set serves any number of requests, each with its own context.
let tools = toolset.tools_with_context(&context);
let definition = tools[0].definition();
let request = tools[0].call_request(r#"{"id": 7}"#)?;
```

## Layout

- `src/openapi.rs` reads a text with `serde_yaml` and `openapiv3`; `src/document.rs` is
  the plain description that the rest works on. `openapiv3` panics on a few malformed
  texts; `src/yaml.rs` tells texts on which it is sure not to, and
  `OpenApiToolset::try_from_spec_str` and `OpenApiToolsetBuilder::try_build` read only
  those.
- `src/resolve.rs` follows references and puts schemas in their place.
- `src/extract.rs`, `src/tool.rs` and `src/toolset.rs` make tools of operations, and
  requests of calls; `src/builder.rs` holds the options.
- `src/http.rs` and `src/serde_value.rs` say what is trusted of `reqwest` and
  `serde_json`.
- `src/laws/` holds what is proved of the library as a whole.
- `app/` reads files, sends requests, and offers the tools to `rig` agents.

## Context

Hidden context is filled into calls where the model gives no such argument, and the
model is not told of it. Hidden context named `body` stands for the request body.
Visible context is text for the model's preamble, from
`OpenApiToolset::context_preamble`:

```
The following context is available. Use these values when calling tools:
- username = alice
- role = admin
```
