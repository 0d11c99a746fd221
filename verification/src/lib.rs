//! Turns an OpenAPI 3.0 description, in YAML or JSON, into tools that a language
//! model can call: one for each operation.
//!
//! [`OpenApiToolset`] reads a description and holds its tools. A tool says what a
//! model is told of it ([`OpenApiTool::definition`]) and which request a call makes
//! ([`OpenApiTool::call_request`]). Sending the request is left to the caller.
//!
//! The contracts speak of plain views: a description as [`document::SpecView`], JSON
//! as [`json::JsonView`], a tool as [`tool::ToolView`], a request as
//! [`tool::PlanView`]. What crosses the whole library is in [`laws`].

pub mod builder;
pub mod context;
pub mod document;
pub mod extract;
pub mod http;
pub mod json;
pub mod laws;
pub mod openapi;
pub mod resolve;
pub mod serde_value;
pub mod str_map;
pub mod text;
pub mod tool;
pub mod toolset;
pub mod yaml;

pub use crate::builder::OpenApiToolsetBuilder;
pub use crate::tool::OpenApiTool;
pub use crate::toolset::{BuildError, OpenApiToolset};
