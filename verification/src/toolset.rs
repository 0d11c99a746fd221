//! The tools of an API description.

use vstd::prelude::*;

use std::collections::HashMap;

use crate::context::{context_entries, enumerates, extend_texts};
use crate::document::{
    map_view, optional, ApiOperation, ApiSpec, OperationView, ParameterView, PerMethod, RefOr,
    RefOrView, SpecView,
};
use crate::extract::{body_schema, extract_body_schema, extract_param_info, param_info};
use crate::http::{
    build_client, client_fields, copy_fields, default_fields, fields_view, header_fields,
    no_fields, pairs_view, FieldView, HeaderField,
};
use crate::json::{Json, JsonView};
use crate::openapi::parsed_spec;
use crate::resolve::{resolved_body, resolved_parameter, Resolver};
use crate::str_map::StrMap;
use crate::text::{replace_all, replaced, trim_end, trim_start, trimmed_end, trimmed_start};
use crate::tool::{
    copy_pairs, copy_texts, lower_method_name, method_name, optional_pair, params_view, HttpMethod,
    OpenApiTool, ParamInfo, ParamInfoView, ToolView,
};
use crate::yaml::{is_sure_text, reads_once, surely_reads_once};

verus! {

/// What all tools of a set have in common.
pub struct ToolConfig {
    pub base_url: Option<String>,
    pub client: reqwest::Client,
    pub fields: Vec<HeaderField>,
    pub hidden_context: StrMap<String>,
    pub static_query_params: Vec<(String, String)>,
    pub basic_auth: Option<(String, String)>,
}

/// The view of a [`ToolConfig`].
#[verifier::ext_equal]
pub ghost struct ConfigView {
    pub base_url: Option<Seq<char>>,
    pub client: reqwest::Client,
    pub fields: Seq<FieldView>,
    pub hidden_context: Map<Seq<char>, Seq<char>>,
    pub static_query_params: Seq<(Seq<char>, Seq<char>)>,
    pub basic_auth: Option<(Seq<char>, Seq<char>)>,
}

impl View for ToolConfig {
    type V = ConfigView;

    open spec fn view(&self) -> ConfigView {
        ConfigView {
            base_url: optional(self.base_url),
            client: self.client,
            fields: fields_view(self.fields@),
            hidden_context: map_view(self.hidden_context),
            static_query_params: pairs_view(self.static_query_params@),
            basic_auth: optional_pair(self.basic_auth),
        }
    }
}

/// The URL that the paths of an API are relative to: the configured one, or else that
/// of the first server, or else `http://localhost`; without slashes at its end.
pub open spec fn chosen_base_url(spec: SpecView, configured: Option<Seq<char>>) -> Seq<char> {
    let url = match configured {
        Some(url) => url,
        None => if spec.servers.len() > 0 {
            spec.servers[0]
        } else {
            "http://localhost"@
        },
    };
    trimmed_end(url, '/')
}

/// The name of an operation: its id, or else one made of the method and the path.
pub open spec fn operation_name(
    method: HttpMethod,
    path: Seq<char>,
    operation: OperationView,
) -> Seq<char> {
    match operation.operation_id {
        Some(id) => id,
        None => lower_method_name(method) + "_"@ + trimmed_start(replaced(path, "/"@, "_"@), '_'),
    }
}

/// What an operation is described by: its summary, or else its description, or else
/// the method and the path.
pub open spec fn operation_description(
    method: HttpMethod,
    path: Seq<char>,
    operation: OperationView,
) -> Seq<char> {
    match (operation.summary, operation.description) {
        (Some(summary), _) => summary,
        (None, Some(description)) => description,
        (None, None) => method_name(method) + " "@ + path,
    }
}

/// What a tool knows of the parameters of an operation. Cookies, and references that
/// lead to no parameter, are left out.
pub open spec fn operation_params(
    spec: SpecView,
    parameters: Seq<RefOrView<ParameterView>>,
) -> Seq<ParamInfoView>
    decreases parameters.len(),
{
    if parameters.len() == 0 {
        Seq::empty()
    } else {
        let before = operation_params(spec, parameters.drop_last());
        match resolved_parameter(spec, parameters.last()) {
            Some(parameter) => match param_info(spec, parameter) {
                Some(info) => before.push(info),
                None => before,
            },
            None => before,
        }
    }
}

/// The schema of an operation's request body, and whether the body has to be there.
pub open spec fn operation_body(spec: SpecView, operation: OperationView) -> (
    Option<JsonView>,
    bool,
) {
    match operation.request_body {
        Some(given) => match resolved_body(spec, given) {
            Some(body) => (body_schema(spec, body), body.required),
            None => (None, false),
        },
        None => (None, false),
    }
}

/// The tool of an operation.
pub open spec fn tool_of(
    spec: SpecView,
    config: ConfigView,
    path: Seq<char>,
    method: HttpMethod,
    operation: OperationView,
) -> ToolView {
    ToolView {
        client: config.client,
        fields: config.fields,
        base_url: chosen_base_url(spec, config.base_url),
        method,
        path_template: path,
        operation_id: operation_name(method, path, operation),
        description: operation_description(method, path, operation),
        parameters: operation_params(spec, operation.parameters),
        request_body_schema: operation_body(spec, operation).0,
        request_body_required: operation_body(spec, operation).1,
        hidden_params: config.hidden_context,
        static_query_params: config.static_query_params,
        basic_auth: config.basic_auth,
    }
}

/// The tool of an operation, if there is one.
pub open spec fn tool_if_any(
    spec: SpecView,
    config: ConfigView,
    path: Seq<char>,
    method: HttpMethod,
    operation: Option<OperationView>,
) -> Seq<ToolView> {
    match operation {
        Some(operation) => seq![tool_of(spec, config, path, method, operation)],
        None => Seq::empty(),
    }
}

/// The methods that a path can have operations for, in the order of the tools.
pub open spec fn methods() -> Seq<HttpMethod> {
    seq![
        HttpMethod::Get,
        HttpMethod::Post,
        HttpMethod::Put,
        HttpMethod::Patch,
        HttpMethod::Delete,
        HttpMethod::Head,
        HttpMethod::Options,
        HttpMethod::Trace,
    ]
}

/// The operation of a path for a method.
pub open spec fn operation_for(
    item: PerMethod<OperationView>,
    method: HttpMethod,
) -> Option<OperationView> {
    match method {
        HttpMethod::Get => item.get,
        HttpMethod::Post => item.post,
        HttpMethod::Put => item.put,
        HttpMethod::Patch => item.patch,
        HttpMethod::Delete => item.delete,
        HttpMethod::Head => item.head,
        HttpMethod::Options => item.options,
        HttpMethod::Trace => item.trace,
    }
}

/// The tools of a path for some methods, in order.
pub open spec fn method_tools(
    spec: SpecView,
    config: ConfigView,
    path: Seq<char>,
    item: PerMethod<OperationView>,
    methods: Seq<HttpMethod>,
) -> Seq<ToolView>
    decreases methods.len(),
{
    if methods.len() == 0 {
        Seq::empty()
    } else {
        method_tools(spec, config, path, item, methods.drop_last()) + tool_if_any(
            spec,
            config,
            path,
            methods.last(),
            operation_for(item, methods.last()),
        )
    }
}

/// The tools of a path, in the order of the methods. A path that is a reference has
/// none.
pub open spec fn path_tools(
    spec: SpecView,
    config: ConfigView,
    path: (Seq<char>, RefOrView<PerMethod<OperationView>>),
) -> Seq<ToolView> {
    match path.1 {
        RefOrView::Item(item) => method_tools(spec, config, path.0, item, methods()),
        RefOrView::Reference(_) => Seq::empty(),
    }
}

/// The tools of some paths, in order.
pub open spec fn tools_of(
    spec: SpecView,
    config: ConfigView,
    paths: Seq<(Seq<char>, RefOrView<PerMethod<OperationView>>)>,
) -> Seq<ToolView>
    decreases paths.len(),
{
    if paths.len() == 0 {
        Seq::empty()
    } else {
        tools_of(spec, config, paths.drop_last()) + path_tools(spec, config, paths.last())
    }
}

/// The tools of a description.
pub open spec fn spec_tools(spec: SpecView, config: ConfigView) -> Seq<ToolView> {
    tools_of(spec, config, spec.paths)
}

/// The views of a list of tools.
pub open spec fn tools_view(tools: Seq<OpenApiTool>) -> Seq<ToolView> {
    tools.map_values(|tool: OpenApiTool| tool@)
}

/// A set of tools made of an API description, one for each operation. It is made
/// once and can be used for any number of requests.
pub struct OpenApiToolset {
    pub tools: Vec<OpenApiTool>,
}

impl View for OpenApiToolset {
    type V = Seq<ToolView>;

    open spec fn view(&self) -> Seq<ToolView> {
        tools_view(self.tools@)
    }
}

/// The URL that the paths of an API are relative to.
fn choose_base_url(spec: &ApiSpec, configured: &Option<String>) -> (url: String)
    ensures
        url@ == chosen_base_url(spec@, optional(*configured)),
{
    match configured {
        Some(url) => trim_end(url.as_str(), '/'),
        None => if spec.servers.len() > 0 {
            trim_end(spec.servers[0].as_str(), '/')
        } else {
            trim_end("http://localhost", '/')
        },
    }
}

/// The name of an operation.
fn name_operation(method: HttpMethod, path: &str, operation: &ApiOperation) -> (name: String)
    ensures
        name@ == operation_name(method, path@, operation@),
{
    match &operation.operation_id {
        Some(id) => id.clone(),
        None => {
            proof {
                reveal_strlit("/");
            }
            let slug = replace_all(path, "/", "_");
            let slug = trim_start(slug.as_str(), '_');
            method.as_lower_str().to_owned().concat("_").concat(slug.as_str())
        },
    }
}

/// What an operation is described by.
fn describe_operation(method: HttpMethod, path: &str, operation: &ApiOperation) -> (description:
    String)
    ensures
        description@ == operation_description(method, path@, operation@),
{
    match (&operation.summary, &operation.description) {
        (Some(summary), _) => summary.clone(),
        (None, Some(description)) => description.clone(),
        (None, None) => method.as_str().to_owned().concat(" ").concat(path),
    }
}

/// What a tool needs to know of the parameters of an operation.
fn collect_params(resolver: &Resolver, operation: &ApiOperation) -> (params: Vec<ParamInfo>)
    ensures
        params_view(params@) == operation_params(resolver.spec@, operation@.parameters),
{
    let ghost given = operation@.parameters;
    let mut params: Vec<ParamInfo> = Vec::new();
    let mut i: usize = 0;
    assert(given.take(0) =~= Seq::empty());
    assert(params_view(params@) =~= Seq::empty());
    while i < operation.parameters.len()
        invariant
            i <= operation.parameters@.len(),
            given == operation@.parameters,
            params_view(params@) == operation_params(resolver.spec@, given.take(i as int)),
        decreases operation.parameters@.len() - i,
    {
        assert(given.take(i + 1).drop_last() =~= given.take(i as int));
        assert(given.take(i + 1).last() == operation.parameters@[i as int]@);
        if let Some(parameter) = resolver.resolve_parameter(&operation.parameters[i]) {
            if let Some(info) = extract_param_info(parameter, resolver) {
                let ghost before = params@;
                params.push(info);
                assert(params_view(params@) =~= params_view(before).push(info@));
            }
        }
        i += 1;
    }
    assert(given.take(i as int) =~= given);
    params
}

/// The schema of an operation's request body, and whether the body has to be there.
fn collect_body(resolver: &Resolver, operation: &ApiOperation) -> (body: (Option<Json>, bool))
    ensures
        (optional(body.0), body.1) == operation_body(resolver.spec@, operation@),
{
    if let Some(given) = &operation.request_body {
        if let Some(body) = resolver.resolve_request_body(given) {
            return extract_body_schema(body, resolver);
        }
    }
    (None, false)
}

/// Adds the tool of an operation, if there is one.
fn add_tool(
    tools: &mut Vec<OpenApiTool>,
    spec: &ApiSpec,
    config: &ToolConfig,
    path: &str,
    method: HttpMethod,
    operation: &Option<ApiOperation>,
)
    ensures
        tools_view(final(tools)@) == tools_view(old(tools)@) + tool_if_any(
            spec@,
            config@,
            path@,
            method,
            optional(*operation),
        ),
{
    if let Some(operation) = operation {
        let resolver = Resolver::new(spec);
        let (request_body_schema, request_body_required) = collect_body(&resolver, operation);
        let basic_auth = match &config.basic_auth {
            Some(pair) => Some((pair.0.clone(), pair.1.clone())),
            None => None,
        };
        let tool = OpenApiTool {
            client: config.client.clone(),
            fields: copy_fields(&config.fields),
            base_url: choose_base_url(spec, &config.base_url),
            method,
            path_template: path.to_owned(),
            operation_id: name_operation(method, path, operation),
            description: describe_operation(method, path, operation),
            parameters: collect_params(&resolver, operation),
            request_body_schema,
            request_body_required,
            hidden_params: copy_texts(&config.hidden_context),
            static_query_params: copy_pairs(&config.static_query_params),
            basic_auth,
        };
        tools.push(tool);
        assert(tools_view(tools@) =~= tools_view(old(tools)@) + seq![tool@]);
    } else {
        assert(tools_view(tools@) =~= tools_view(old(tools)@) + Seq::empty());
    }
}

/// The operation of a path for a method.
fn operation_of(item: &PerMethod<ApiOperation>, method: HttpMethod) -> (operation: &Option<
    ApiOperation,
>)
    ensures
        optional(*operation) == operation_for(item@, method),
{
    match method {
        HttpMethod::Get => &item.get,
        HttpMethod::Post => &item.post,
        HttpMethod::Put => &item.put,
        HttpMethod::Patch => &item.patch,
        HttpMethod::Delete => &item.delete,
        HttpMethod::Head => &item.head,
        HttpMethod::Options => &item.options,
        HttpMethod::Trace => &item.trace,
    }
}

/// Adds the tools of a path, in the order of the methods.
fn add_path_tools(
    tools: &mut Vec<OpenApiTool>,
    spec: &ApiSpec,
    config: &ToolConfig,
    path: &str,
    item: &PerMethod<ApiOperation>,
)
    ensures
        tools_view(final(tools)@) == tools_view(old(tools)@) + method_tools(
            spec@,
            config@,
            path@,
            item@,
            methods(),
        ),
{
    let list = [
        HttpMethod::Get,
        HttpMethod::Post,
        HttpMethod::Put,
        HttpMethod::Patch,
        HttpMethod::Delete,
        HttpMethod::Head,
        HttpMethod::Options,
        HttpMethod::Trace,
    ];
    assert(list@ =~= methods());
    let ghost before = tools_view(tools@);
    let mut i: usize = 0;
    assert(list@.take(0) =~= Seq::empty());
    assert(before =~= before + method_tools(spec@, config@, path@, item@, list@.take(0)));
    while i < list.len()
        invariant
            i <= list@.len(),
            list@ == methods(),
            tools_view(tools@) == before + method_tools(
                spec@,
                config@,
                path@,
                item@,
                list@.take(i as int),
            ),
        decreases list@.len() - i,
    {
        assert(list@.take(i + 1).drop_last() =~= list@.take(i as int));
        let method = list[i];
        add_tool(tools, spec, config, path, method, operation_of(item, method));
        assert(tools_view(tools@) =~= before + method_tools(
            spec@,
            config@,
            path@,
            item@,
            list@.take(i + 1),
        ));
        i += 1;
    }
    assert(list@.take(i as int) =~= methods());
}

impl OpenApiToolset {
    /// The tools of a description.
    pub fn from_spec(spec: &ApiSpec, config: &ToolConfig) -> (toolset: Self)
        ensures
            toolset@ == spec_tools(spec@, config@),
    {
        let ghost paths = spec@.paths;
        let mut tools: Vec<OpenApiTool> = Vec::new();
        let mut i: usize = 0;
        assert(paths.take(0) =~= Seq::empty());
        assert(tools_view(tools@) =~= Seq::empty());
        while i < spec.paths.len()
            invariant
                i <= spec.paths@.len(),
                paths == spec@.paths,
                tools_view(tools@) == tools_of(spec@, config@, paths.take(i as int)),
            decreases spec.paths@.len() - i,
        {
            assert(paths.take(i + 1).drop_last() =~= paths.take(i as int));
            assert(paths.take(i + 1).last() == (
                spec.paths@[i as int].0@,
                spec.paths@[i as int].1@,
            ));
            let path = spec.paths[i].0.as_str();
            let ghost before = tools@;
            match &spec.paths[i].1 {
                RefOr::Item(item) => {
                    add_path_tools(&mut tools, spec, config, path, item);
                },
                RefOr::Reference(_) => {},
            }
            assert(tools_view(tools@) =~= tools_view(before) + path_tools(
                spec@,
                config@,
                paths[i as int],
            ));
            i += 1;
        }
        assert(paths.take(i as int) =~= paths);
        OpenApiToolset { tools }
    }
}

/// Why there is no toolset.
#[derive(Debug)]
pub enum BuildError {
    /// The text is not an OpenAPI document.
    Spec(serde_yaml::Error),
    /// There is no HTTP client.
    Client(reqwest::Error),
}

/// The configuration of a set for which nothing was set but the client.
pub open spec fn plain_config(client: reqwest::Client) -> ConfigView {
    ConfigView {
        base_url: None,
        client,
        fields: Seq::empty(),
        hidden_context: Map::empty(),
        static_query_params: Seq::empty(),
        basic_auth: None,
    }
}

/// What is built from a text alone: the tools of the description that it holds, with
/// a client that adds no header fields of its own.
pub open spec fn is_plain_toolset(
    spec_str: Seq<char>,
    built: Result<OpenApiToolset, BuildError>,
) -> bool {
    match built {
        Ok(toolset) => parsed_spec(spec_str) is Some && exists|client: reqwest::Client|
            client_fields(client) == default_fields(Map::empty()) && toolset@
                == #[trigger] spec_tools(parsed_spec(spec_str)->Some_0, plain_config(client)),
        Err(BuildError::Spec(_)) => parsed_spec(spec_str) is None,
        Err(BuildError::Client(_)) => true,
    }
}

/// A tool with more hidden parameters; a new value for a hidden parameter takes the
/// place of the old one.
pub open spec fn with_context(tool: ToolView, context: Map<Seq<char>, Seq<char>>) -> ToolView {
    ToolView { hidden_params: tool.hidden_params.union_prefer_right(context), ..tool }
}

/// The lines that tell a model of the context.
pub open spec fn context_lines(entries: Seq<(Seq<char>, Seq<char>)>) -> Seq<char>
    decreases entries.len(),
{
    if entries.len() == 0 {
        Seq::empty()
    } else {
        context_lines(entries.drop_last()) + "\n- "@ + entries.last().0 + " = "@ + entries.last().1
    }
}

/// What tells a model of the context: nothing, if there is none.
pub open spec fn preamble(entries: Seq<(Seq<char>, Seq<char>)>) -> Seq<char> {
    if entries.len() == 0 {
        Seq::empty()
    } else {
        "The following context is available. Use these values when calling tools:"@
            + context_lines(entries)
    }
}

impl OpenApiToolset {
    /// The tools of the description that a YAML or JSON text holds.
    pub fn build_inner(spec_str: &str, config: &ToolConfig) -> (built: Result<Self, BuildError>)
        requires
            reads_once(spec_str@),
        ensures
            match built {
                Ok(toolset) => parsed_spec(spec_str@) is Some && toolset@ == spec_tools(
                    parsed_spec(spec_str@)->Some_0,
                    config@,
                ),
                Err(error) => parsed_spec(spec_str@) is None && error is Spec,
            },
    {
        match ApiSpec::from_text(spec_str) {
            Ok(spec) => Ok(OpenApiToolset::from_spec(&spec, config)),
            Err(error) => Err(BuildError::Spec(error)),
        }
    }

    /// The tools of the description that a YAML or JSON text holds, with a client of
    /// their own and nothing else set. Whether there is a client depends on the machine.
    pub fn from_spec_str(spec_str: &str) -> (built: Result<Self, BuildError>)
        requires
            reads_once(spec_str@),
        ensures
            is_plain_toolset(spec_str@, built),
    {
        let fields = no_fields();
        assert(header_fields(fields) =~= Map::empty());
        match build_client(fields) {
            Ok(client) => {
                let config = ToolConfig {
                    base_url: None,
                    client,
                    fields: Vec::new(),
                    hidden_context: StrMap::new(),
                    static_query_params: Vec::new(),
                    basic_auth: None,
                };
                assert(config@ =~= plain_config(client));
                OpenApiToolset::build_inner(spec_str, &config)
            },
            Err(error) => Err(BuildError::Client(error)),
        }
    }

    /// Does what [`OpenApiToolset::from_spec_str`] does, for a text that is sure to be
    /// read at the first try.
    pub fn try_from_spec_str(spec_str: &str) -> (tried: Option<Result<Self, BuildError>>)
        ensures
            tried is Some <==> is_sure_text(spec_str@),
            tried matches Some(built) ==> is_plain_toolset(spec_str@, built),
    {
        if surely_reads_once(spec_str) {
            Some(OpenApiToolset::from_spec_str(spec_str))
        } else {
            None
        }
    }

    /// How many tools there are.
    pub fn len(&self) -> (len: usize)
        ensures
            len == self@.len(),
    {
        self.tools.len()
    }

    /// Whether there are no tools.
    pub fn is_empty(&self) -> (empty: bool)
        ensures
            empty == (self@.len() == 0),
    {
        self.tools.is_empty()
    }

    /// The tools.
    pub fn into_tools(self) -> (tools: Vec<OpenApiTool>)
        ensures
            tools_view(tools@) == self@,
    {
        self.tools
    }

    /// The tools with the context of one request as hidden parameters. The model does
    /// not see them, and every call has them. The set itself stays as it is.
    pub fn tools_with_context(&self, context: &HashMap<String, String>) -> (tools: Vec<OpenApiTool>)
        ensures
            tools_view(tools@) == self@.map_values(
                |tool: ToolView| with_context(tool, context.deep_view()),
            ),
    {
        let entries = context_entries(context);
        let mut tools: Vec<OpenApiTool> = Vec::new();
        let mut i: usize = 0;
        while i < self.tools.len()
            invariant
                i <= self.tools@.len(),
                enumerates(pairs_view(entries@), context.deep_view()),
                tools@.len() == i,
                forall|j: int|
                    0 <= j < i ==> (#[trigger] tools@[j])@ == with_context(
                        self.tools@[j]@,
                        context.deep_view(),
                    ),
            decreases self.tools@.len() - i,
        {
            let mut tool = self.tools[i].clone();
            extend_texts(&mut tool.hidden_params, &entries);
            tools.push(tool);
            i += 1;
        }
        assert(tools_view(tools@) =~= self@.map_values(
            |tool: ToolView| with_context(tool, context.deep_view()),
        ));
        tools
    }

    /// A snippet for a model's preamble that lists the context, so that the model can
    /// use it when it calls tools. The entries stand in no particular order.
    pub fn context_preamble(context: &HashMap<String, String>) -> (text: String)
        ensures
            exists|entries: Seq<(Seq<char>, Seq<char>)>| #[trigger]
                enumerates(entries, context.deep_view()) && text@ == preamble(entries),
    {
        OpenApiToolset::preamble_of(&context_entries(context))
    }

    /// The snippet for entries in a given order.
    pub fn preamble_of(entries: &Vec<(String, String)>) -> (text: String)
        ensures
            text@ == preamble(pairs_view(entries@)),
    {
        let ghost listed = pairs_view(entries@);
        if entries.is_empty() {
            return String::new();
        }
        let mut text =
            "The following context is available. Use these values when calling tools:".to_owned();
        let ghost title = text@;
        let mut i: usize = 0;
        assert(text@ =~= title + context_lines(listed.take(0)));
        while i < entries.len()
            invariant
                i <= entries@.len(),
                listed == pairs_view(entries@),
                text@ == title + context_lines(listed.take(i as int)),
            decreases entries@.len() - i,
        {
            assert(listed.take(i + 1).drop_last() =~= listed.take(i as int));
            text.append("\n- ");
            text.append(entries[i].0.as_str());
            text.append(" = ");
            text.append(entries[i].1.as_str());
            assert(text@ =~= title + context_lines(listed.take(i + 1)));
            i += 1;
        }
        assert(listed.take(i as int) =~= listed);
        text
    }
}

} // verus!
