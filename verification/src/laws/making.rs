//! How the tools of a description are made.

use vstd::prelude::*;

use crate::document::{
    ApiSpec, BodyView, OperationView, ParameterView, PerMethod, RefOrView, SpecView,
};
use crate::extract::{any_string, param_info};
use crate::http::{field_name, field_value, fields_view, pairs_view};
use crate::json::JsonView;
use crate::laws::context::lemma_trimmed_end;
use crate::laws::extracting::{leads_to, lemma_leads_to};
use crate::laws::resolving::{found_under, lemma_found, lemma_kinds};
use crate::laws::texts::lemma_start_run;
use crate::resolve::{inlinable, inlined, resolved_body, resolved_parameter, resolved_schema};
use crate::text::{replaced, trimmed_end, trimmed_start};
use crate::tool::{params_view, HttpMethod, OpenApiTool, ParamInfo, ToolView};
use crate::toolset::{
    method_tools, methods, operation_body, operation_params, path_tools, tool_if_any, tool_of,
    tools_of, tools_view, ConfigView, OpenApiToolset, ToolConfig,
};

verus! {

/// A parameter that is given in place or by reference is this one.
pub open spec fn leads_to_parameter(
    spec: SpecView,
    given: RefOrView<ParameterView>,
    parameter: ParameterView,
) -> bool {
    match given {
        RefOrView::Item(item) => item == parameter,
        RefOrView::Reference(reference) => spec.components is Some && found_under(
            "#/components/parameters/"@,
            spec.components->Some_0.parameters,
            reference,
            parameter,
        ),
    }
}

/// A request body that is given in place or by reference is this one.
pub open spec fn leads_to_body(
    spec: SpecView,
    given: RefOrView<BodyView>,
    body: BodyView,
) -> bool {
    match given {
        RefOrView::Item(item) => item == body,
        RefOrView::Reference(reference) => spec.components is Some && found_under(
            "#/components/requestBodies/"@,
            spec.components->Some_0.request_bodies,
            reference,
            body,
        ),
    }
}

/// A parameter is resolved to the one that it leads to.
proof fn lemma_leads_to_parameter(
    spec: SpecView,
    given: RefOrView<ParameterView>,
    parameter: ParameterView,
)
    ensures
        leads_to_parameter(spec, given, parameter) <==> resolved_parameter(spec, given) == Some(
            parameter,
        ),
{
    lemma_kinds();
    if let RefOrView::Reference(reference) = given {
        let named = match spec.components {
            Some(components) => components.parameters,
            None => Map::empty(),
        };
        lemma_found("parameters"@, "#/components/parameters/"@, named, reference, parameter);
    }
}

/// A request body is resolved to the one that it leads to.
proof fn lemma_leads_to_body(spec: SpecView, given: RefOrView<BodyView>, body: BodyView)
    ensures
        leads_to_body(spec, given, body) <==> resolved_body(spec, given) == Some(body),
{
    lemma_kinds();
    if let RefOrView::Reference(reference) = given {
        let named = match spec.components {
            Some(components) => components.request_bodies,
            None => Map::empty(),
        };
        lemma_found("requestBodies"@, "#/components/requestBodies/"@, named, reference, body);
    }
}

/// A schema is told for what was given: with its references inlined.
pub open spec fn is_told_for(
    spec: SpecView,
    given: RefOrView<Option<JsonView>>,
    told: JsonView,
) -> bool {
    exists|schema: JsonView|
        #[trigger] leads_to(spec, given, schema) && told == inlined(
            inlinable(spec),
            schema,
            Set::empty(),
        )
}

/// What was given leads to a schema.
pub open spec fn has_schema(spec: SpecView, given: Option<RefOrView<Option<JsonView>>>) -> bool {
    match given {
        Some(given) => exists|schema: JsonView| leads_to(spec, given, schema),
        None => false,
    }
}

/// A tool knows a parameter by what the description says of it.
pub open spec fn knows(spec: SpecView, parameter: ParameterView, info: ParamInfo) -> bool {
    &&& info.name@ == parameter.name
    &&& info.required == parameter.required
    &&& parameter.description matches Some(text) ==> info.description@ == text
    &&& parameter.description is None ==> info.description@ == Seq::<char>::empty()
    &&& info.location is Path <==> parameter.place is Path
    &&& info.location is Query <==> parameter.place is Query
    &&& info.location is Header <==> parameter.place is Header
    &&& has_schema(spec, parameter.schema) ==> is_told_for(
        spec,
        parameter.schema->Some_0,
        info.schema@,
    )
    &&& !has_schema(spec, parameter.schema) ==> info.schema@ is Object
        && info.schema@->Object_0.dom() == set!["type"@] && info.schema@->Object_0["type"@]
        == JsonView::String("string"@)
}

/// What a resolved schema says of the schemas that it leads to.
proof fn lemma_schema(spec: SpecView, given: RefOrView<Option<JsonView>>)
    ensures
        has_schema(spec, Some(given)) <==> resolved_schema(spec, given) is Some && resolved_schema(
            spec,
            given,
        )->Some_0 is Some,
        resolved_schema(spec, given) matches Some(Some(schema)) ==> is_told_for(
            spec,
            given,
            inlined(inlinable(spec), schema, Set::empty()),
        ),
{
    let found = resolved_schema(spec, given);
    if found is Some && found->Some_0 is Some {
        let schema = found->Some_0->Some_0;
        lemma_leads_to(spec, given, schema);
        assert(leads_to(spec, given, schema));
        assert(has_schema(spec, Some(given)));
    }
    if has_schema(spec, Some(given)) {
        assert(exists|schema: JsonView| leads_to(spec, given, schema));
        let schema = choose|schema: JsonView| leads_to(spec, given, schema);
        assert(leads_to(spec, given, schema));
        lemma_leads_to(spec, given, schema);
        assert(found == Some(Some(schema)));
    }
}

/// What is extracted from a parameter is what is known of it.
proof fn lemma_knows(spec: SpecView, parameter: ParameterView, info: ParamInfo)
    requires
        param_info(spec, parameter) == Some(info@),
    ensures
        knows(spec, parameter, info),
        !(parameter.place is Cookie),
{
    assert(info@.name == info.name@);
    assert(info@.schema == info.schema@);
    if let Some(given) = parameter.schema {
        lemma_schema(spec, given);
    }
    assert(any_string()->Object_0.dom() =~= set!["type"@]);
}

/// What was given is a parameter that is no cookie.
pub open spec fn is_param(spec: SpecView, given: RefOrView<ParameterView>) -> bool {
    exists|parameter: ParameterView| #[trigger]
        leads_to_parameter(spec, given, parameter) && !(parameter.place is Cookie)
}

/// What was given is known as this.
pub open spec fn is_known_as(
    spec: SpecView,
    given: RefOrView<ParameterView>,
    info: ParamInfo,
) -> bool {
    exists|parameter: ParameterView| #[trigger]
        leads_to_parameter(spec, given, parameter) && knows(spec, parameter, info)
}

/// The parameters of a list that are no cookies.
pub open spec fn plain_params(
    spec: SpecView,
    given: Seq<RefOrView<ParameterView>>,
) -> Seq<RefOrView<ParameterView>> {
    given.filter(|param: RefOrView<ParameterView>| is_param(spec, param))
}

/// Whether what was given is a parameter that is no cookie is seen from what it is
/// resolved to.
proof fn lemma_is_param(spec: SpecView, given: RefOrView<ParameterView>)
    ensures
        is_param(spec, given) <==> (resolved_parameter(spec, given) matches Some(parameter) && !(
        parameter.place is Cookie)),
{
    if let Some(parameter) = resolved_parameter(spec, given) {
        lemma_leads_to_parameter(spec, given, parameter);
    }
    if is_param(spec, given) {
        let parameter = choose|parameter: ParameterView| #[trigger]
            leads_to_parameter(spec, given, parameter) && !(parameter.place is Cookie);
        lemma_leads_to_parameter(spec, given, parameter);
    }
}

/// The known parameters, one by one.
proof fn lemma_params(
    spec: SpecView,
    given: Seq<RefOrView<ParameterView>>,
    infos: Seq<ParamInfo>,
)
    requires
        params_view(infos) == operation_params(spec, given),
    ensures
        infos.len() == plain_params(spec, given).len(),
        forall|i: int|
            0 <= i < infos.len() ==> is_known_as(
                spec,
                plain_params(spec, given)[i],
                #[trigger] infos[i],
            ),
    decreases given.len(),
{
    reveal(Seq::filter);
    let view = params_view(infos);
    assert(view.len() == infos.len());
    if given.len() > 0 {
        lemma_is_param(spec, given.last());
        let front = given.drop_last();
        if is_param(spec, given.last()) {
            let parameter = resolved_parameter(spec, given.last())->Some_0;
            lemma_leads_to_parameter(spec, given.last(), parameter);
            let info = param_info(spec, parameter)->Some_0;
            assert(view == operation_params(spec, front).push(info));
            assert(view.last() == infos.last()@);
            assert(view.drop_last() =~= operation_params(spec, front));
            assert(params_view(infos.drop_last()) =~= view.drop_last());
            lemma_knows(spec, parameter, infos.last());
            assert(is_known_as(spec, given.last(), infos.last()));
            lemma_params(spec, front, infos.drop_last());
            assert forall|i: int| 0 <= i < infos.len() implies is_known_as(
                spec,
                plain_params(spec, given)[i],
                #[trigger] infos[i],
            ) by {
                if i < infos.len() - 1 {
                    assert(infos.drop_last()[i] == infos[i]);
                }
            }
        } else {
            lemma_params(spec, front, infos);
        }
    }
}

/// The tool has the body that its operation describes: a schema if the body is JSON that
/// leads to one, and the need for the body as it is given.
pub open spec fn knows_body(
    spec: SpecView,
    given: Option<RefOrView<BodyView>>,
    tool: OpenApiTool,
) -> bool {
    &&& forall|body: BodyView|
        given is Some && #[trigger] leads_to_body(spec, given->Some_0, body) ==> {
            &&& tool.request_body_required == body.required
            &&& tool.request_body_schema is Some <==> body.content.contains_key(
                "application/json"@,
            ) && has_schema(spec, body.content["application/json"@])
            &&& tool.request_body_schema matches Some(schema) ==> is_told_for(
                spec,
                body.content["application/json"@]->Some_0,
                schema@,
            )
        }
    &&& (given is None || forall|body: BodyView| !leads_to_body(spec, given->Some_0, body))
        ==> tool.request_body_schema is None && !tool.request_body_required
}

/// A base URL is a URL without the slashes at its end.
pub open spec fn is_without_slashes(url: Seq<char>, base: Seq<char>) -> bool {
    &&& base.is_prefix_of(url)
    &&& forall|i: int| base.len() <= i < url.len() ==> url[i] == '/'
    &&& base.len() > 0 ==> base.last() != '/'
}

/// The base URL is the one that was set, or else that of the first server, or else that
/// of this machine.
pub open spec fn is_base_url(
    spec: SpecView,
    configured: Option<Seq<char>>,
    base: Seq<char>,
) -> bool {
    match configured {
        Some(url) => is_without_slashes(url, base),
        None => if spec.servers.len() > 0 {
            is_without_slashes(spec.servers[0], base)
        } else {
            base == "http://localhost"@
        },
    }
}

/// The name of a method in capital letters.
pub open spec fn capital_name(method: HttpMethod) -> Seq<char> {
    match method {
        HttpMethod::Get => "GET"@,
        HttpMethod::Post => "POST"@,
        HttpMethod::Put => "PUT"@,
        HttpMethod::Patch => "PATCH"@,
        HttpMethod::Delete => "DELETE"@,
        HttpMethod::Head => "HEAD"@,
        HttpMethod::Options => "OPTIONS"@,
        HttpMethod::Trace => "TRACE"@,
    }
}

/// The name of a method in small letters.
pub open spec fn small_name(method: HttpMethod) -> Seq<char> {
    match method {
        HttpMethod::Get => "get"@,
        HttpMethod::Post => "post"@,
        HttpMethod::Put => "put"@,
        HttpMethod::Patch => "patch"@,
        HttpMethod::Delete => "delete"@,
        HttpMethod::Head => "head"@,
        HttpMethod::Options => "options"@,
        HttpMethod::Trace => "trace"@,
    }
}

/// A path with an underscore for every slash.
pub open spec fn underscored(path: Seq<char>) -> Seq<char> {
    path.map_values(
        |c: char|
            if c == '/' {
                '_'
            } else {
                c
            },
    )
}

/// A slug is a path with underscores for slashes, without those at its start.
pub open spec fn is_slug(path: Seq<char>, slug: Seq<char>) -> bool {
    &&& slug.len() <= path.len()
    &&& slug == underscored(path).skip(path.len() - slug.len())
    &&& forall|i: int| 0 <= i < path.len() - slug.len() ==> underscored(path)[i] == '_'
    &&& slug.len() > 0 ==> slug.first() != '_'
}

/// An operation without an id is named by its method and its path.
pub open spec fn is_named(
    method: HttpMethod,
    path: Seq<char>,
    operation: OperationView,
    name: Seq<char>,
) -> bool {
    match operation.operation_id {
        Some(id) => name == id,
        None => exists|slug: Seq<char>| #[trigger]
            is_slug(path, slug) && name == small_name(method) + "_"@ + slug,
    }
}

/// An operation is described by its summary, or else its description, or else its
/// method and its path.
pub open spec fn is_described(
    method: HttpMethod,
    path: Seq<char>,
    operation: OperationView,
    description: Seq<char>,
) -> bool {
    &&& operation.summary matches Some(summary) ==> description == summary
    &&& operation.summary is None && operation.description is Some ==> description
        == operation.description->Some_0
    &&& operation.summary is None && operation.description is None ==> description
        == capital_name(method) + " "@ + path
}

/// A tool makes the calls of an operation.
pub open spec fn is_made_of(
    spec: SpecView,
    place: (Seq<char>, HttpMethod, OperationView),
    tool: OpenApiTool,
) -> bool {
    &&& tool.path_template@ == place.0
    &&& tool.method == place.1
    &&& is_named(place.1, place.0, place.2, tool.operation_id@)
    &&& is_described(place.1, place.0, place.2, tool.description@)
    &&& tool.parameters@.len() == plain_params(spec, place.2.parameters).len()
    &&& forall|i: int|
        0 <= i < tool.parameters@.len() ==> is_known_as(
            spec,
            plain_params(spec, place.2.parameters)[i],
            #[trigger] tool.parameters@[i],
        )
    &&& knows_body(spec, place.2.request_body, tool)
}

/// A tool has what its set has in common.
pub open spec fn has_in_common(config: ConfigView, tool: OpenApiTool) -> bool {
    &&& tool.client == config.client
    &&& tool.fields@.len() == config.fields.len()
    &&& forall|i: int|
        0 <= i < tool.fields@.len() ==> field_name((#[trigger] tool.fields@[i]).name)
            == config.fields[i].0 && field_value(tool.fields@[i].value) == config.fields[i].1
    &&& forall|name: Seq<char>| #[trigger]
        tool.hidden_params@.contains_key(name) <==> config.hidden_context.contains_key(name)
    &&& forall|name: Seq<char>| #[trigger]
        tool.hidden_params@.contains_key(name) ==> tool.hidden_params@[name]@
            == config.hidden_context[name]
    &&& tool.static_query_params@.len() == config.static_query_params.len()
    &&& forall|i: int|
        0 <= i < tool.static_query_params@.len() ==> (#[trigger] tool.static_query_params@[i]).0@
            == config.static_query_params[i].0 && tool.static_query_params@[i].1@
            == config.static_query_params[i].1
    &&& tool.basic_auth is Some <==> config.basic_auth is Some
    &&& tool.basic_auth matches Some(pair) ==> pair.0@ == config.basic_auth->Some_0.0 && pair.1@
        == config.basic_auth->Some_0.1
}

/// Slashes are replaced one by one.
proof fn lemma_underscored(path: Seq<char>)
    ensures
        replaced(path, "/"@, "_"@) == underscored(path),
    decreases path.len(),
{
    reveal_strlit("/");
    reveal_strlit("_");
    if path.len() > 0 {
        lemma_underscored(path.skip(1));
        assert(path.take(1) =~= seq![path[0]]);
        if path[0] == '/' {
            assert(path.take(1) =~= "/"@);
        } else {
            assert(path.take(1)[0] != "/"@[0]);
        }
        let rest = underscored(path.skip(1));
        assert(replaced(path, "/"@, "_"@).len() == rest.len() + 1);
        assert(replaced(path, "/"@, "_"@) =~= underscored(path));
    } else {
        assert(replaced(path, "/"@, "_"@) =~= underscored(path));
    }
}

/// The body that is collected is the one that is known.
proof fn lemma_body(spec: SpecView, operation: OperationView, tool: OpenApiTool)
    requires
        tool@.request_body_schema == operation_body(spec, operation).0,
        tool@.request_body_required == operation_body(spec, operation).1,
    ensures
        knows_body(spec, operation.request_body, tool),
{
    let given = operation.request_body;
    assert(tool@.request_body_schema is Some <==> tool.request_body_schema is Some);
    assert(tool@.request_body_required == tool.request_body_required);
    if given is Some {
        assert forall|body: BodyView| #[trigger]
            leads_to_body(spec, given->Some_0, body) implies resolved_body(spec, given->Some_0)
            == Some(body) by {
            lemma_leads_to_body(spec, given->Some_0, body);
        }
        if let Some(body) = resolved_body(spec, given->Some_0) {
            lemma_leads_to_body(spec, given->Some_0, body);
            if body.content.contains_key("application/json"@) {
                if let Some(media) = body.content["application/json"@] {
                    lemma_schema(spec, media);
                }
            }
        }
    }
}

/// The tool of an operation is made of it, and has what is common.
proof fn lemma_made(
    spec: SpecView,
    config: ConfigView,
    path: Seq<char>,
    method: HttpMethod,
    operation: OperationView,
    tool: OpenApiTool,
)
    requires
        tool@ == tool_of(spec, config, path, method, operation),
    ensures
        is_made_of(spec, (path, method, operation), tool),
        has_in_common(config, tool),
        is_base_url(spec, config.base_url, tool.base_url@),
{
    let url = match config.base_url {
        Some(url) => url,
        None => if spec.servers.len() > 0 {
            spec.servers[0]
        } else {
            "http://localhost"@
        },
    };
    lemma_trimmed_end(url, '/');
    reveal_strlit("http://localhost");
    assert(tool@.base_url == tool.base_url@);
    assert(tool.base_url@ == trimmed_end(url, '/'));
    if config.base_url is None && spec.servers.len() == 0 {
        assert(url.last() != '/');
    }
    lemma_underscored(path);
    lemma_start_run(underscored(path), '_');
    let slug = trimmed_start(underscored(path), '_');
    assert(is_slug(path, slug));
    assert(tool@.operation_id == tool.operation_id@);
    assert(is_named(method, path, operation, tool.operation_id@));
    assert(tool@.description == tool.description@);
    assert(is_described(method, path, operation, tool.description@));
    lemma_params(spec, operation.parameters, tool.parameters@);
    lemma_body(spec, operation, tool);
    assert(fields_view(tool.fields@).len() == tool.fields@.len());
    assert forall|i: int| 0 <= i < tool.fields@.len() implies field_name(
        (#[trigger] tool.fields@[i]).name,
    ) == config.fields[i].0 && field_value(tool.fields@[i].value) == config.fields[i].1 by {
        assert(fields_view(tool.fields@)[i] == tool.fields@[i]@);
    }
    assert forall|name: Seq<char>| #[trigger]
        tool.hidden_params@.contains_key(name) <==> config.hidden_context.contains_key(name) by {
        assert(tool@.hidden_params.contains_key(name) == tool.hidden_params@.contains_key(name));
    }
    assert(pairs_view(tool.static_query_params@).len() == tool.static_query_params@.len());
    assert forall|i: int| 0 <= i < tool.static_query_params@.len() implies (
    #[trigger] tool.static_query_params@[i]).0@ == config.static_query_params[i].0
        && tool.static_query_params@[i].1@ == config.static_query_params[i].1 by {
        assert(pairs_view(tool.static_query_params@)[i] == (
            tool.static_query_params@[i].0@,
            tool.static_query_params@[i].1@,
        ));
    }
    assert(tool@.basic_auth == config.basic_auth);
}

/// The methods in the order of the tools of a path.
pub open spec fn method_order() -> Seq<HttpMethod> {
    seq![
        HttpMethod::Get,
        HttpMethod::Post,
        HttpMethod::Put,
        HttpMethod::Patch,
        HttpMethod::Delete,
        HttpMethod::Head,
        HttpMethod::Options,
        HttpMethod::Trace,
    ]
}

/// The operation that a path has for a method.
pub open spec fn operation_at(
    item: PerMethod<OperationView>,
    method: HttpMethod,
) -> Option<OperationView> {
    match method {
        HttpMethod::Get => item.get,
        HttpMethod::Post => item.post,
        HttpMethod::Put => item.put,
        HttpMethod::Patch => item.patch,
        HttpMethod::Delete => item.delete,
        HttpMethod::Head => item.head,
        HttpMethod::Options => item.options,
        HttpMethod::Trace => item.trace,
    }
}

/// The operations of a path for some methods.
pub open spec fn path_operations(
    path: Seq<char>,
    item: PerMethod<OperationView>,
    methods: Seq<HttpMethod>,
) -> Seq<(Seq<char>, HttpMethod, OperationView)> {
    methods.filter(|method: HttpMethod| operation_at(item, method) is Some).map_values(
        |method: HttpMethod| (path, method, operation_at(item, method)->Some_0),
    )
}

/// The operations of some paths. A path that is a reference has none.
pub open spec fn all_operations(
    paths: Seq<(Seq<char>, RefOrView<PerMethod<OperationView>>)>,
) -> Seq<(Seq<char>, HttpMethod, OperationView)> {
    paths.map_values(
        |path: (Seq<char>, RefOrView<PerMethod<OperationView>>)|
            match path.1 {
                RefOrView::Item(item) => path_operations(path.0, item, method_order()),
                RefOrView::Reference(_) => Seq::empty(),
            },
    ).flatten_alt()
}

/// The tools of operations.
pub open spec fn made_of(
    spec: SpecView,
    config: ConfigView,
    places: Seq<(Seq<char>, HttpMethod, OperationView)>,
) -> Seq<ToolView> {
    places.map_values(
        |place: (Seq<char>, HttpMethod, OperationView)|
            tool_of(spec, config, place.0, place.1, place.2),
    )
}

/// The tools of a path are those of its operations.
proof fn lemma_path_operations(
    spec: SpecView,
    config: ConfigView,
    path: Seq<char>,
    item: PerMethod<OperationView>,
    methods: Seq<HttpMethod>,
)
    ensures
        method_tools(spec, config, path, item, methods) == made_of(
            spec,
            config,
            path_operations(path, item, methods),
        ),
    decreases methods.len(),
{
    reveal(Seq::filter);
    let all = made_of(spec, config, path_operations(path, item, methods));
    if methods.len() > 0 {
        let front = path_operations(path, item, methods.drop_last());
        lemma_path_operations(spec, config, path, item, methods.drop_last());
        match operation_at(item, methods.last()) {
            Some(operation) => {
                assert(path_operations(path, item, methods) =~= front.push(
                    (path, methods.last(), operation),
                ));
                assert(all =~= made_of(spec, config, front) + tool_if_any(
                    spec,
                    config,
                    path,
                    methods.last(),
                    Some(operation),
                ));
            },
            None => {
                assert(path_operations(path, item, methods) =~= front);
                assert(all =~= made_of(spec, config, front) + Seq::empty());
            },
        }
    } else {
        assert(all =~= Seq::empty());
    }
}

/// The tools of a description are those of its operations, in order.
pub proof fn lemma_operations(
    spec: SpecView,
    config: ConfigView,
    paths: Seq<(Seq<char>, RefOrView<PerMethod<OperationView>>)>,
)
    ensures
        tools_of(spec, config, paths) == made_of(spec, config, all_operations(paths)),
    decreases paths.len(),
{
    let each = |path: (Seq<char>, RefOrView<PerMethod<OperationView>>)|
        match path.1 {
            RefOrView::Item(item) => path_operations(path.0, item, method_order()),
            RefOrView::Reference(_) => Seq::empty(),
        };
    let parts = paths.map_values(each);
    assert(all_operations(paths) == parts.flatten_alt());
    if paths.len() > 0 {
        let front = paths.drop_last();
        lemma_operations(spec, config, front);
        assert(parts.drop_last() =~= front.map_values(each));
        assert(all_operations(paths) == all_operations(front) + each(paths.last()));
        if let RefOrView::Item(item) = paths.last().1 {
            assert(methods() =~= method_order());
            lemma_path_operations(spec, config, paths.last().0, item, methods());
        } else {
            assert(path_tools(spec, config, paths.last()) =~= made_of(
                spec,
                config,
                each(paths.last()),
            ));
        }
        assert(made_of(spec, config, all_operations(paths)) =~= made_of(
            spec,
            config,
            all_operations(front),
        ) + made_of(spec, config, each(paths.last())));
    } else {
        assert(made_of(spec, config, all_operations(paths)) =~= Seq::empty());
    }
}

/// Tools that look like those of a description are made of its operations.
pub proof fn lemma_tools(spec: SpecView, config: ConfigView, tools: Seq<OpenApiTool>, i: int)
    requires
        tools_view(tools) == tools_of(spec, config, spec.paths),
    ensures
        tools.len() == all_operations(spec.paths).len(),
        0 <= i < tools.len() ==> is_made_of(spec, all_operations(spec.paths)[i], tools[i])
            && has_in_common(config, tools[i]) && is_base_url(
            spec,
            config.base_url,
            tools[i].base_url@,
        ),
{
    lemma_operations(spec, config, spec.paths);
    let places = all_operations(spec.paths);
    assert(tools_view(tools).len() == tools.len());
    if 0 <= i < tools.len() {
        assert(tools_view(tools)[i] == tools[i]@);
        lemma_made(spec, config, places[i].0, places[i].1, places[i].2, tools[i]);
    }
}

/// A description has one tool for each of its operations, path by path and in the order
/// of the methods. Each is made of its own operation, and all have what was set.
pub proof fn law_tools_are_made_of_operations(
    spec: ApiSpec,
    config: ToolConfig,
    toolset: OpenApiToolset,
    i: int,
)
    requires
        call_ensures(OpenApiToolset::from_spec, (&spec, &config), toolset),
    ensures
        toolset.tools@.len() == all_operations(spec@.paths).len(),
        0 <= i < toolset.tools@.len() ==> is_made_of(
            spec@,
            all_operations(spec@.paths)[i],
            toolset.tools@[i],
        ) && has_in_common(config@, toolset.tools@[i]) && is_base_url(
            spec@,
            config@.base_url,
            toolset.tools@[i].base_url@,
        ),
{
    lemma_tools(spec@, config@, toolset.tools@, i);
}

} // verus!
