//! One operation of an API as a tool.

use vstd::prelude::*;

use crate::document::{entries_view, lemma_entries_push, map_view, optional};
use crate::http::{
    add_basic_auth, add_field, add_header, add_json, add_query, copy_fields, fields_view,
    header_names, pairs_view, start_delete, start_get, start_head, start_options, start_patch,
    start_post, start_put, start_trace, started, with_basic_auth, with_field, with_header,
    with_json, with_query, FieldView, HeaderField, MAX_HEADER_NAMES,
};
use crate::json::{
    insert_member, items_view, lemma_items_push, members_view, Json, JsonView,
};
use crate::serde_value::{
    json_text, parsed_json, read_json, value_json, write_value, written_json,
};
use crate::str_map::StrMap;
use crate::text::{replace_all, replaced};

verus! {

/// The HTTP methods of operations.
#[derive(Debug, Clone, Copy, PartialEq, Eq)]
pub enum HttpMethod {
    Get,
    Post,
    Put,
    Patch,
    Delete,
    Head,
    Options,
    Trace,
}

/// The name of a method.
pub open spec fn method_name(method: HttpMethod) -> Seq<char> {
    match method {
        HttpMethod::Get => "GET"@,
        HttpMethod::Post => "POST"@,
        HttpMethod::Put => "PUT"@,
        HttpMethod::Patch => "PATCH"@,
        HttpMethod::Delete => "DELETE"@,
        HttpMethod::Head => "HEAD"@,
        HttpMethod::Options => "OPTIONS"@,
        HttpMethod::Trace => "TRACE"@,
    }
}

impl HttpMethod {
    /// The name of the method.
    pub fn as_str(self) -> (name: &'static str)
        ensures
            name@ == method_name(self),
    {
        match self {
            HttpMethod::Get => "GET",
            HttpMethod::Post => "POST",
            HttpMethod::Put => "PUT",
            HttpMethod::Patch => "PATCH",
            HttpMethod::Delete => "DELETE",
            HttpMethod::Head => "HEAD",
            HttpMethod::Options => "OPTIONS",
            HttpMethod::Trace => "TRACE",
        }
    }
}

/// The name of a method in lower case.
pub open spec fn lower_method_name(method: HttpMethod) -> Seq<char> {
    match method {
        HttpMethod::Get => "get"@,
        HttpMethod::Post => "post"@,
        HttpMethod::Put => "put"@,
        HttpMethod::Patch => "patch"@,
        HttpMethod::Delete => "delete"@,
        HttpMethod::Head => "head"@,
        HttpMethod::Options => "options"@,
        HttpMethod::Trace => "trace"@,
    }
}

impl HttpMethod {
    /// The name of the method in lower case.
    pub fn as_lower_str(self) -> (name: &'static str)
        ensures
            name@ == lower_method_name(self),
    {
        match self {
            HttpMethod::Get => "get",
            HttpMethod::Post => "post",
            HttpMethod::Put => "put",
            HttpMethod::Patch => "patch",
            HttpMethod::Delete => "delete",
            HttpMethod::Head => "head",
            HttpMethod::Options => "options",
            HttpMethod::Trace => "trace",
        }
    }
}

/// Where an argument of a tool goes in the request.
#[derive(Debug, Clone, Copy, PartialEq, Eq, Structural)]
pub enum ParamLocation {
    Path,
    Query,
    Header,
}

/// What a tool knows of one of its parameters.
#[derive(Debug, PartialEq)]
pub struct ParamInfo {
    pub name: String,
    pub location: ParamLocation,
    pub required: bool,
    pub description: String,
    pub schema: Json,
}

/// The view of a [`ParamInfo`].
#[verifier::ext_equal]
pub ghost struct ParamInfoView {
    pub name: Seq<char>,
    pub location: ParamLocation,
    pub required: bool,
    pub description: Seq<char>,
    pub schema: JsonView,
}

impl View for ParamInfo {
    type V = ParamInfoView;

    open spec fn view(&self) -> ParamInfoView {
        ParamInfoView {
            name: self.name@,
            location: self.location,
            required: self.required,
            description: self.description@,
            schema: self.schema@,
        }
    }
}

/// One operation of an API, ready to be called.
pub struct OpenApiTool {
    pub client: reqwest::Client,
    pub fields: Vec<HeaderField>,
    pub base_url: String,
    pub method: HttpMethod,
    pub path_template: String,
    pub operation_id: String,
    pub description: String,
    pub parameters: Vec<ParamInfo>,
    pub request_body_schema: Option<Json>,
    pub request_body_required: bool,
    pub hidden_params: StrMap<String>,
    pub static_query_params: Vec<(String, String)>,
    pub basic_auth: Option<(String, String)>,
}

/// The view of an [`OpenApiTool`].
#[verifier::ext_equal]
pub ghost struct ToolView {
    pub client: reqwest::Client,
    pub fields: Seq<FieldView>,
    pub base_url: Seq<char>,
    pub method: HttpMethod,
    pub path_template: Seq<char>,
    pub operation_id: Seq<char>,
    pub description: Seq<char>,
    pub parameters: Seq<ParamInfoView>,
    pub request_body_schema: Option<JsonView>,
    pub request_body_required: bool,
    pub hidden_params: Map<Seq<char>, Seq<char>>,
    pub static_query_params: Seq<(Seq<char>, Seq<char>)>,
    pub basic_auth: Option<(Seq<char>, Seq<char>)>,
}

/// The view of a pair of texts that may be missing.
pub open spec fn optional_pair(pair: Option<(String, String)>) -> Option<(Seq<char>, Seq<char>)> {
    match pair {
        Some(pair) => Some((pair.0@, pair.1@)),
        None => None,
    }
}

/// The views of a list of parameters.
pub open spec fn params_view(params: Seq<ParamInfo>) -> Seq<ParamInfoView> {
    params.map_values(|p: ParamInfo| p@)
}

impl View for OpenApiTool {
    type V = ToolView;

    open spec fn view(&self) -> ToolView {
        ToolView {
            client: self.client,
            fields: fields_view(self.fields@),
            base_url: self.base_url@,
            method: self.method,
            path_template: self.path_template@,
            operation_id: self.operation_id@,
            description: self.description@,
            parameters: params_view(self.parameters@),
            request_body_schema: optional(self.request_body_schema),
            request_body_required: self.request_body_required,
            hidden_params: map_view(self.hidden_params),
            static_query_params: pairs_view(self.static_query_params@),
            basic_auth: optional_pair(self.basic_auth),
        }
    }
}

/// The schema of a parameter as the model sees it: with the description, if there is
/// one and the schema is an object.
pub open spec fn shown_schema(param: ParamInfoView) -> JsonView {
    match param.schema {
        JsonView::Object(members) => if param.description.len() > 0 {
            JsonView::Object(members.insert("description"@, JsonView::String(param.description)))
        } else {
            param.schema
        },
        _ => param.schema,
    }
}

/// The schemas of the parameters that are not hidden, by name. Of two parameters with
/// one name the later one is shown.
pub open spec fn shown_params(
    hidden: Map<Seq<char>, Seq<char>>,
    params: Seq<ParamInfoView>,
) -> Map<Seq<char>, JsonView>
    decreases params.len(),
{
    if params.len() == 0 {
        Map::empty()
    } else {
        let before = shown_params(hidden, params.drop_last());
        if hidden.contains_key(params.last().name) {
            before
        } else {
            before.insert(params.last().name, shown_schema(params.last()))
        }
    }
}

/// The names of the required parameters that are not hidden, in order.
pub open spec fn required_params(
    hidden: Map<Seq<char>, Seq<char>>,
    params: Seq<ParamInfoView>,
) -> Seq<JsonView>
    decreases params.len(),
{
    if params.len() == 0 {
        Seq::empty()
    } else {
        let before = required_params(hidden, params.drop_last());
        if params.last().required && !hidden.contains_key(params.last().name) {
            before.push(JsonView::String(params.last().name))
        } else {
            before
        }
    }
}

/// The schema of a tool's request body as the model sees it: none, if `body` is hidden.
pub open spec fn shown_body(tool: ToolView) -> Option<JsonView> {
    if tool.hidden_params.contains_key("body"@) {
        None
    } else {
        tool.request_body_schema
    }
}

/// The properties of a tool's arguments: its visible parameters, and `body` if the
/// operation has a JSON body and that is not hidden.
pub open spec fn shown_properties(tool: ToolView) -> Map<Seq<char>, JsonView> {
    let params = shown_params(tool.hidden_params, tool.parameters);
    match shown_body(tool) {
        Some(schema) => params.insert("body"@, schema),
        None => params,
    }
}

/// What has to be among a tool's arguments.
pub open spec fn required_properties(tool: ToolView) -> Seq<JsonView> {
    let params = required_params(tool.hidden_params, tool.parameters);
    if shown_body(tool) is Some && tool.request_body_required {
        params.push(JsonView::String("body"@))
    } else {
        params
    }
}

/// The schema of a tool's arguments.
pub open spec fn parameters_schema(tool: ToolView) -> JsonView {
    JsonView::Object(
        Map::empty().insert("type"@, JsonView::String("object"@)).insert(
            "properties"@,
            JsonView::Object(shown_properties(tool)),
        ).insert("required"@, JsonView::Array(required_properties(tool))),
    )
}

/// A copy of a list of pairs.
pub fn copy_pairs(pairs: &Vec<(String, String)>) -> (copy: Vec<(String, String)>)
    ensures
        pairs_view(copy@) == pairs_view(pairs@),
{
    let mut copy: Vec<(String, String)> = Vec::new();
    let mut i: usize = 0;
    while i < pairs.len()
        invariant
            i <= pairs@.len(),
            pairs_view(copy@) == pairs_view(pairs@).take(i as int),
        decreases pairs@.len() - i,
    {
        let ghost before = copy@;
        let pair = (pairs[i].0.clone(), pairs[i].1.clone());
        copy.push(pair);
        assert(pairs_view(copy@) =~= pairs_view(before).push((pair.0@, pair.1@)));
        assert(pairs_view(pairs@).take(i + 1) =~= pairs_view(pairs@).take(i as int).push(
            (pair.0@, pair.1@),
        ));
        i += 1;
    }
    assert(pairs_view(pairs@).take(i as int) =~= pairs_view(pairs@));
    copy
}

impl OpenApiTool {
    /// The JSON schema of the tool's arguments. Hidden parameters are not in it.
    pub fn build_parameters_schema(&self) -> (schema: Json)
        ensures
            schema@ == parameters_schema(self@),
    {
        let ghost hidden = map_view(self.hidden_params);
        let ghost params = params_view(self.parameters@);
        let mut properties: StrMap<Json> = StrMap::new();
        let mut required: Vec<Json> = Vec::new();
        let mut i: usize = 0;
        assert(members_view(properties.entries@) =~= shown_params(hidden, params.take(0)));
        assert(items_view(required@) =~= required_params(hidden, params.take(0)));
        while i < self.parameters.len()
            invariant
                i <= self.parameters@.len(),
                hidden == map_view(self.hidden_params),
                params == params_view(self.parameters@),
                members_view(properties.entries@) == shown_params(hidden, params.take(i as int)),
                items_view(required@) == required_params(hidden, params.take(i as int)),
            decreases self.parameters@.len() - i,
        {
            let p = &self.parameters[i];
            assert(params.take(i + 1).drop_last() =~= params.take(i as int));
            assert(params.take(i + 1).last() == p@);
            i += 1;
            if self.hidden_params.contains_key(p.name.as_str()) {
                continue ;
            }
            let mut schema = p.schema.clone();
            if let Json::Object(mut members) = schema {
                if !p.description.as_str().is_empty() {
                    insert_member(&mut members, "description", Json::text(p.description.as_str()));
                }
                schema = Json::Object(members);
            }
            insert_member(&mut properties, p.name.as_str(), schema);
            if p.required {
                let name = Json::text(p.name.as_str());
                proof {
                    lemma_items_push(required@, name);
                }
                required.push(name);
            }
        }
        assert(params.take(i as int) =~= params);
        if let Some(body_schema) = &self.request_body_schema {
            if !self.hidden_params.contains_key("body") {
                insert_member(&mut properties, "body", body_schema.clone());
                if self.request_body_required {
                    let name = Json::text("body");
                    proof {
                        lemma_items_push(required@, name);
                    }
                    required.push(name);
                }
            }
        }
        let mut schema: StrMap<Json> = StrMap::new();
        insert_member(&mut schema, "type", Json::text("object"));
        insert_member(&mut schema, "properties", Json::Object(properties));
        insert_member(&mut schema, "required", Json::Array(required));
        Json::Object(schema)
    }
}

/// What a tool is called with: the arguments, and every hidden parameter that they
/// lack. Arguments that are no object count as none.
pub open spec fn call_args(hidden: Map<Seq<char>, Seq<char>>, args: JsonView) -> Map<
    Seq<char>,
    JsonView,
> {
    let given = match args {
        JsonView::Object(members) => members,
        _ => Map::empty(),
    };
    hidden.map_values(|value: Seq<char>| JsonView::String(value)).union_prefer_right(given)
}

/// The text of an argument: a string as it is, anything else as JSON.
pub open spec fn arg_text(arg: JsonView) -> Seq<char> {
    match arg {
        JsonView::String(text) => text,
        other => json_text(other),
    }
}

/// The text that a path parameter is replaced by: nothing, if there is no argument.
pub open spec fn path_text(args: Map<Seq<char>, JsonView>, name: Seq<char>) -> Seq<char> {
    if args.contains_key(name) {
        arg_text(args[name])
    } else {
        Seq::empty()
    }
}

/// A path with `{name}` replaced for each path parameter, one after the other.
pub open spec fn filled_path(
    template: Seq<char>,
    params: Seq<ParamInfoView>,
    args: Map<Seq<char>, JsonView>,
) -> Seq<char>
    decreases params.len(),
{
    if params.len() == 0 {
        template
    } else {
        let before = filled_path(template, params.drop_last(), args);
        let param = params.last();
        if param.location is Path {
            replaced(before, "{"@ + param.name + "}"@, path_text(args, param.name))
        } else {
            before
        }
    }
}

/// The arguments for the parameters of one place, by name and in order.
pub open spec fn args_at(
    location: ParamLocation,
    params: Seq<ParamInfoView>,
    args: Map<Seq<char>, JsonView>,
) -> Seq<(Seq<char>, Seq<char>)>
    decreases params.len(),
{
    if params.len() == 0 {
        Seq::empty()
    } else {
        let before = args_at(location, params.drop_last(), args);
        let param = params.last();
        if param.location == location && args.contains_key(param.name) {
            before.push((param.name, arg_text(args[param.name])))
        } else {
            before
        }
    }
}

/// All of a request but the client that makes it.
#[derive(Debug, PartialEq)]
pub struct RequestPlan {
    pub method: HttpMethod,
    pub url: String,
    pub query: Vec<(String, String)>,
    pub fields: Vec<HeaderField>,
    pub headers: Vec<(String, String)>,
    pub basic_auth: Option<(String, String)>,
    pub body: Option<Json>,
}

/// The view of a [`RequestPlan`].
#[verifier::ext_equal]
pub ghost struct PlanView {
    pub method: HttpMethod,
    pub url: Seq<char>,
    pub query: Seq<(Seq<char>, Seq<char>)>,
    pub fields: Seq<FieldView>,
    pub headers: Seq<(Seq<char>, Seq<char>)>,
    pub basic_auth: Option<(Seq<char>, Seq<char>)>,
    pub body: Option<JsonView>,
}

impl View for RequestPlan {
    type V = PlanView;

    open spec fn view(&self) -> PlanView {
        PlanView {
            method: self.method,
            url: self.url@,
            query: pairs_view(self.query@),
            fields: fields_view(self.fields@),
            headers: pairs_view(self.headers@),
            basic_auth: optional_pair(self.basic_auth),
            body: optional(self.body),
        }
    }
}

/// The request that a tool makes when it is called.
pub open spec fn planned(tool: ToolView, args: JsonView) -> PlanView {
    let all = call_args(tool.hidden_params, args);
    PlanView {
        method: tool.method,
        url: tool.base_url + filled_path(tool.path_template, tool.parameters, all),
        query: args_at(ParamLocation::Query, tool.parameters, all) + tool.static_query_params,
        fields: tool.fields,
        headers: args_at(ParamLocation::Header, tool.parameters, all),
        basic_auth: tool.basic_auth,
        body: if all.contains_key("body"@) {
            Some(all["body"@])
        } else {
            None
        },
    }
}

/// The text of an argument: a string as it is, anything else as JSON.
fn text_of_arg(arg: &Json) -> (text: String)
    ensures
        text@ == arg_text(arg@),
{
    match arg {
        Json::String(text) => text.clone(),
        other => other.to_json_text(),
    }
}

impl OpenApiTool {
    /// The argument that a call has under a name: given, or else hidden.
    fn call_arg(&self, args: &Json, name: &str) -> (arg: Option<Json>)
        ensures
            optional(arg) == (if call_args(self@.hidden_params, args@).contains_key(name@) {
                Some(call_args(self@.hidden_params, args@)[name@])
            } else {
                None
            }),
    {
        match args.get(name) {
            Some(arg) => Some(arg.clone()),
            None => match self.hidden_params.get(name) {
                Some(value) => Some(Json::text(value.as_str())),
                None => None,
            },
        }
    }

    /// The path of a call, with the path parameters filled in.
    fn fill_path(&self, args: &Json) -> (path: String)
        ensures
            path@ == filled_path(
                self.path_template@,
                self@.parameters,
                call_args(self@.hidden_params, args@),
            ),
    {
        let ghost all = call_args(self@.hidden_params, args@);
        let ghost params = self@.parameters;
        let mut path = self.path_template.clone();
        let mut i: usize = 0;
        assert(params.take(0) =~= Seq::empty());
        while i < self.parameters.len()
            invariant
                i <= self.parameters@.len(),
                params == self@.parameters,
                all == call_args(self@.hidden_params, args@),
                path@ == filled_path(self.path_template@, params.take(i as int), all),
            decreases self.parameters@.len() - i,
        {
            let p = &self.parameters[i];
            assert(params.take(i + 1).drop_last() =~= params.take(i as int));
            assert(params.take(i + 1).last() == p@);
            if let ParamLocation::Path = p.location {
                let text = match self.call_arg(args, p.name.as_str()) {
                    Some(arg) => text_of_arg(&arg),
                    None => String::new(),
                };
                let mut placeholder = "{".to_owned();
                placeholder.append(p.name.as_str());
                placeholder.append("}");
                proof {
                    reveal_strlit("{");
                }
                path = replace_all(path.as_str(), placeholder.as_str(), text.as_str());
            }
            i += 1;
        }
        assert(params.take(i as int) =~= params);
        path
    }

    /// The arguments of a call for the parameters of one place.
    fn collect_args(&self, location: ParamLocation, args: &Json) -> (pairs: Vec<(String, String)>)
        ensures
            pairs_view(pairs@) == args_at(
                location,
                self@.parameters,
                call_args(self@.hidden_params, args@),
            ),
    {
        let ghost all = call_args(self@.hidden_params, args@);
        let ghost params = self@.parameters;
        let mut pairs: Vec<(String, String)> = Vec::new();
        let mut i: usize = 0;
        assert(params.take(0) =~= Seq::empty());
        assert(pairs_view(pairs@) =~= Seq::empty());
        while i < self.parameters.len()
            invariant
                i <= self.parameters@.len(),
                params == self@.parameters,
                all == call_args(self@.hidden_params, args@),
                pairs_view(pairs@) == args_at(location, params.take(i as int), all),
            decreases self.parameters@.len() - i,
        {
            let p = &self.parameters[i];
            assert(params.take(i + 1).drop_last() =~= params.take(i as int));
            assert(params.take(i + 1).last() == p@);
            if p.location == location {
                if let Some(arg) = self.call_arg(args, p.name.as_str()) {
                    let ghost before = pairs@;
                    let pair = (p.name.clone(), text_of_arg(&arg));
                    pairs.push(pair);
                    assert(pairs_view(pairs@) =~= pairs_view(before).push((pair.0@, pair.1@)));
                }
            }
            i += 1;
        }
        assert(params.take(i as int) =~= params);
        pairs
    }

    /// The request that a call with these arguments makes. Hidden parameters are filled
    /// in where the arguments lack them.
    pub fn plan_request(&self, args: &Json) -> (plan: RequestPlan)
        ensures
            plan@ == planned(self@, args@),
    {
        let path = self.fill_path(args);
        let url = self.base_url.clone().concat(path.as_str());
        let mut query = self.collect_args(ParamLocation::Query, args);
        let mut fixed = copy_pairs(&self.static_query_params);
        let ghost before = query@;
        let ghost added = fixed@;
        query.append(&mut fixed);
        assert(pairs_view(query@) =~= pairs_view(before) + pairs_view(added));
        let headers = self.collect_args(ParamLocation::Header, args);
        let basic_auth = match &self.basic_auth {
            Some(pair) => Some((pair.0.clone(), pair.1.clone())),
            None => None,
        };
        let body = self.call_arg(args, "body");
        let fields = copy_fields(&self.fields);
        RequestPlan { method: self.method, url, query, fields, headers, basic_auth, body }
    }
}

/// A request with header fields added that were checked before, one after the other.
pub open spec fn with_fields(
    request: reqwest::RequestBuilder,
    fields: Seq<FieldView>,
) -> reqwest::RequestBuilder
    decreases fields.len(),
{
    if fields.len() == 0 {
        request
    } else {
        with_field(
            with_fields(request, fields.drop_last()),
            fields.last().0,
            fields.last().1,
        )
    }
}

/// A request with header fields added, one after the other.
pub open spec fn with_headers(
    request: reqwest::RequestBuilder,
    headers: Seq<(Seq<char>, Seq<char>)>,
) -> reqwest::RequestBuilder
    decreases headers.len(),
{
    if headers.len() == 0 {
        request
    } else {
        with_header(
            with_headers(request, headers.drop_last()),
            headers.last().0,
            headers.last().1,
        )
    }
}

/// The request that a client makes of a plan.
pub open spec fn assembled(client: reqwest::Client, plan: PlanView) -> reqwest::RequestBuilder {
    let request = started(client, method_name(plan.method), plan.url);
    let request = if plan.query.len() > 0 {
        with_query(request, plan.query)
    } else {
        request
    };
    let request = with_fields(request, plan.fields);
    let request = with_headers(request, plan.headers);
    let request = match plan.basic_auth {
        Some(pair) => with_basic_auth(request, pair.0, pair.1),
        None => request,
    };
    match plan.body {
        Some(body) => with_json(request, body),
        None => request,
    }
}

/// How many parameters go to one place.
pub open spec fn count_at(location: ParamLocation, params: Seq<ParamInfoView>) -> nat
    decreases params.len(),
{
    if params.len() == 0 {
        0
    } else {
        count_at(location, params.drop_last()) + if params.last().location == location {
            1nat
        } else {
            0nat
        }
    }
}

/// A request has room for all header fields and header parameters of a tool.
pub open spec fn has_few_headers(tool: ToolView) -> bool {
    tool.fields.len() + count_at(ParamLocation::Header, tool.parameters) + 2 <= MAX_HEADER_NAMES
}

/// No more arguments go to one place than parameters do.
proof fn lemma_args_at_len(
    location: ParamLocation,
    params: Seq<ParamInfoView>,
    args: Map<Seq<char>, JsonView>,
)
    ensures
        args_at(location, params, args).len() <= count_at(location, params),
    decreases params.len(),
{
    if params.len() > 0 {
        lemma_args_at_len(location, params.drop_last(), args);
    }
}

impl RequestPlan {
    /// The request that a client makes of the plan.
    pub fn assemble(&self, client: &reqwest::Client) -> (request: reqwest::RequestBuilder)
        requires
            self.fields@.len() + self.headers@.len() + 2 <= MAX_HEADER_NAMES,
        ensures
            request == assembled(*client, self@),
    {
        let mut request = match self.method {
            HttpMethod::Get => start_get(client, self.url.as_str()),
            HttpMethod::Post => start_post(client, self.url.as_str()),
            HttpMethod::Put => start_put(client, self.url.as_str()),
            HttpMethod::Patch => start_patch(client, self.url.as_str()),
            HttpMethod::Delete => start_delete(client, self.url.as_str()),
            HttpMethod::Head => start_head(client, self.url.as_str()),
            HttpMethod::Options => start_options(client, self.url.as_str()),
            HttpMethod::Trace => start_trace(client, self.url.as_str()),
        };
        if !self.query.is_empty() {
            request = add_query(request, &self.query);
        }
        let ghost queried = request;
        let ghost fields = fields_view(self.fields@);
        let mut k: usize = 0;
        assert(fields.take(0) =~= Seq::empty());
        while k < self.fields.len()
            invariant
                k <= self.fields@.len(),
                self.fields@.len() + 2 <= MAX_HEADER_NAMES,
                fields == fields_view(self.fields@),
                request == with_fields(queried, fields.take(k as int)),
                header_names(request) <= 1 + k,
            decreases self.fields@.len() - k,
        {
            assert(fields.take(k + 1).drop_last() =~= fields.take(k as int));
            request = add_field(request, &self.fields[k].name, &self.fields[k].value);
            k += 1;
        }
        assert(fields.take(k as int) =~= fields);
        let ghost marked = request;
        let ghost headers = pairs_view(self.headers@);
        let mut i: usize = 0;
        assert(headers.take(0) =~= Seq::empty());
        while i < self.headers.len()
            invariant
                i <= self.headers@.len(),
                self.fields@.len() + self.headers@.len() + 2 <= MAX_HEADER_NAMES,
                headers == pairs_view(self.headers@),
                request == with_headers(marked, headers.take(i as int)),
                header_names(request) <= 1 + self.fields@.len() + i,
            decreases self.headers@.len() - i,
        {
            assert(headers.take(i + 1).drop_last() =~= headers.take(i as int));
            request = add_header(request, self.headers[i].0.as_str(), self.headers[i].1.as_str());
            i += 1;
        }
        assert(headers.take(i as int) =~= headers);
        if let Some(pair) = &self.basic_auth {
            request = add_basic_auth(request, pair.0.as_str(), pair.1.as_str());
        }
        if let Some(body) = &self.body {
            request = add_json(request, &body.to_value());
        }
        request
    }
}

/// What a model is told of a tool.
#[derive(Debug, PartialEq)]
pub struct ToolDefinition {
    pub name: String,
    pub description: String,
    pub parameters: Json,
}

/// Why a call cannot be made or answered.
#[derive(Debug)]
pub enum CallError {
    /// The arguments are not JSON, or the answer has no JSON text.
    Json(serde_json::Error),
}

impl OpenApiTool {
    /// The name of the tool.
    pub fn name(&self) -> (name: String)
        ensures
            name@ == self@.operation_id,
    {
        self.operation_id.clone()
    }

    /// What a model is told of the tool.
    pub fn definition(&self) -> (definition: ToolDefinition)
        ensures
            definition.name@ == self@.operation_id,
            definition.description@ == self@.description,
            definition.parameters@ == parameters_schema(self@),
    {
        ToolDefinition {
            name: self.operation_id.clone(),
            description: self.description.clone(),
            parameters: self.build_parameters_schema(),
        }
    }

    /// Whether a request has room for all header fields and header parameters.
    pub fn few_headers(&self) -> (few: bool)
        ensures
            few == has_few_headers(self@),
    {
        let ghost params = self@.parameters;
        let mut count: usize = 0;
        let mut i: usize = 0;
        assert(params.take(0) =~= Seq::empty());
        while i < self.parameters.len()
            invariant
                i <= self.parameters@.len(),
                params == self@.parameters,
                count <= i,
                count == count_at(ParamLocation::Header, params.take(i as int)),
            decreases self.parameters@.len() - i,
        {
            assert(params.take(i + 1).drop_last() =~= params.take(i as int));
            assert(params.take(i + 1).last() == self.parameters@[i as int]@);
            if self.parameters[i].location == ParamLocation::Header {
                count += 1;
            }
            i += 1;
        }
        assert(params.take(i as int) =~= params);
        count <= MAX_HEADER_NAMES - 2 && self.fields.len() <= MAX_HEADER_NAMES - 2 - count
    }

    /// The request that a call with these arguments makes.
    pub fn request(&self, args: &Json) -> (request: reqwest::RequestBuilder)
        requires
            has_few_headers(self@),
        ensures
            request == assembled(self@.client, planned(self@, args@)),
    {
        let plan = self.plan_request(args);
        proof {
            lemma_args_at_len(
                ParamLocation::Header,
                self@.parameters,
                call_args(self@.hidden_params, args@),
            );
            assert(plan.headers@.len() == plan@.headers.len());
            assert(plan.fields@.len() == plan@.fields.len());
        }
        plan.assemble(&self.client)
    }

    /// The request that a call makes, from the JSON text of its arguments.
    pub fn call_request(&self, args: &str) -> (request: Result<reqwest::RequestBuilder, CallError>)
        requires
            has_few_headers(self@),
        ensures
            match request {
                Ok(request) => parsed_json(args@) is Some && request == assembled(
                    self@.client,
                    planned(self@, parsed_json(args@)->Some_0),
                ),
                Err(_) => parsed_json(args@) is None,
            },
    {
        match read_json(args) {
            Ok(args) => Ok(self.request(&args)),
            Err(error) => Err(CallError::Json(error)),
        }
    }

    /// The text that a call answers with, from the JSON that the API answered with.
    pub fn call_result(answer: serde_json::Value) -> (text: Result<String, CallError>)
        ensures
            match text {
                Ok(text) => written_json(value_json(answer)) == Some(text@),
                Err(_) => written_json(value_json(answer)) is None,
            },
    {
        match write_value(&answer) {
            Ok(text) => Ok(text),
            Err(error) => Err(CallError::Json(error)),
        }
    }
}

impl Clone for OpenApiTool {
    fn clone(&self) -> (copy: OpenApiTool)
        ensures
            copy@ == self@,
    {
        let mut parameters: Vec<ParamInfo> = Vec::new();
        let mut i: usize = 0;
        while i < self.parameters.len()
            invariant
                i <= self.parameters@.len(),
                parameters@.len() == i,
                forall|j: int|
                    0 <= j < i ==> (#[trigger] parameters@[j])@ == self.parameters@[j]@,
            decreases self.parameters@.len() - i,
        {
            parameters.push(self.parameters[i].clone());
            i += 1;
        }
        assert(params_view(parameters@) =~= params_view(self.parameters@));
        let request_body_schema = match &self.request_body_schema {
            Some(schema) => Some(schema.clone()),
            None => None,
        };
        let basic_auth = match &self.basic_auth {
            Some(pair) => Some((pair.0.clone(), pair.1.clone())),
            None => None,
        };
        OpenApiTool {
            client: self.client.clone(),
            fields: copy_fields(&self.fields),
            base_url: self.base_url.clone(),
            method: self.method,
            path_template: self.path_template.clone(),
            operation_id: self.operation_id.clone(),
            description: self.description.clone(),
            parameters,
            request_body_schema,
            request_body_required: self.request_body_required,
            hidden_params: copy_texts(&self.hidden_params),
            static_query_params: copy_pairs(&self.static_query_params),
            basic_auth,
        }
    }
}

impl Clone for ParamInfo {
    fn clone(&self) -> (copy: ParamInfo)
        ensures
            copy@ == self@,
    {
        ParamInfo {
            name: self.name.clone(),
            location: self.location,
            required: self.required,
            description: self.description.clone(),
            schema: self.schema.clone(),
        }
    }
}

/// A copy of a map of texts.
pub fn copy_texts(map: &StrMap<String>) -> (copy: StrMap<String>)
    ensures
        map_view(copy) == map_view(*map),
{
    let mut entries: Vec<(String, String)> = Vec::new();
    let mut i: usize = 0;
    assert(map.entries@.take(0) =~= entries@);
    while i < map.entries.len()
        invariant
            i <= map.entries@.len(),
            entries_view(entries@) == entries_view(map.entries@.take(i as int)),
        decreases map.entries@.len() - i,
    {
        let entry = (map.entries[i].0.clone(), map.entries[i].1.clone());
        proof {
            lemma_entries_push(entries@, entry);
            lemma_entries_push(map.entries@.take(i as int), map.entries@[i as int]);
            assert(map.entries@.take(i + 1) =~= map.entries@.take(i as int).push(
                map.entries@[i as int],
            ));
        }
        entries.push(entry);
        i += 1;
    }
    assert(map.entries@.take(i as int) =~= map.entries@);
    StrMap { entries }
}

} // verus!
