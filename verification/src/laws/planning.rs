//! The request that a call makes.

use vstd::prelude::*;

use crate::http::{
    field_name, field_value, pairs_view, started, with_basic_auth, with_field, with_header,
    with_json, with_query, HeaderField,
};
use crate::json::{Json, JsonView};
use crate::laws::requests::{
    are_plain_pieces, filled_pieces, is_path_param, is_plain_name, lemma_filled_path, rendered,
    PathPiece,
};
use crate::serde_value::{json_text, parsed_json, value_json, written_json};
use crate::text::replace_all;
use crate::tool::{
    arg_text, args_at, call_args, filled_path, params_view, path_text, CallError, OpenApiTool,
    ParamInfo, ParamLocation, RequestPlan,
};

verus! {

/// The argument of a call under a name: the one that was given, or else the hidden
/// parameter of that name.
pub open spec fn argument(tool: OpenApiTool, args: JsonView, name: Seq<char>) -> Option<JsonView> {
    if args is Object && args->Object_0.contains_key(name) {
        Some(args->Object_0[name])
    } else if tool.hidden_params@.contains_key(name) {
        Some(JsonView::String(tool.hidden_params@[name]@))
    } else {
        None
    }
}

/// How an argument is written into a request: the characters of a string, and the JSON
/// text of anything else.
pub open spec fn is_written(value: JsonView, text: Seq<char>) -> bool {
    match value {
        JsonView::String(characters) => text == characters,
        JsonView::Null => text == json_text(JsonView::Null),
        JsonView::Bool(b) => text == json_text(JsonView::Bool(b)),
        JsonView::Number(n) => text == json_text(JsonView::Number(n)),
        JsonView::Array(items) => text == json_text(JsonView::Array(items)),
        JsonView::Object(members) => text == json_text(JsonView::Object(members)),
    }
}

/// The call has exactly the arguments that were given or are hidden.
proof fn lemma_argument(tool: OpenApiTool, args: JsonView, name: Seq<char>)
    ensures
        call_args(tool@.hidden_params, args).contains_key(name) == (argument(tool, args, name)
            is Some),
        argument(tool, args, name) matches Some(value) ==> call_args(
            tool@.hidden_params,
            args,
        )[name] == value,
{
    assert(tool@.hidden_params.contains_key(name) == tool.hidden_params@.contains_key(name));
}

/// A call is made with the method of the tool, whatever the arguments are.
pub proof fn law_calls_keep_the_method(tool: OpenApiTool, args: Json, plan: RequestPlan)
    requires
        call_ensures(OpenApiTool::plan_request, (&tool, &args), plan),
    ensures
        plan.method == tool.method,
{
    assert(plan@.method == plan.method);
}

/// The body of a call is its argument named `body`, and nothing where there is none.
pub proof fn law_calls_send_the_body(tool: OpenApiTool, args: Json, plan: RequestPlan)
    requires
        call_ensures(OpenApiTool::plan_request, (&tool, &args), plan),
    ensures
        plan.body is Some <==> argument(tool, args@, "body"@) is Some,
        plan.body matches Some(body) ==> Some(body@) == argument(tool, args@, "body"@),
{
    lemma_argument(tool, args@, "body"@);
    assert(plan@.body is Some <==> plan.body is Some);
}

/// The parameters of one place that a call has an argument for.
pub open spec fn sent_params(
    tool: OpenApiTool,
    args: JsonView,
    location: ParamLocation,
) -> Seq<ParamInfo> {
    tool.parameters@.filter(
        |param: ParamInfo|
            param.location == location && argument(tool, args, param.name@) is Some,
    )
}

/// A pair is made of the name of a parameter and its argument, written out.
pub open spec fn is_sent_pair(
    tool: OpenApiTool,
    args: JsonView,
    param: ParamInfo,
    pair: (String, String),
) -> bool {
    &&& pair.0@ == param.name@
    &&& argument(tool, args, param.name@) is Some
    &&& is_written(argument(tool, args, param.name@)->Some_0, pair.1@)
}

/// The arguments of one place, parameter by parameter.
proof fn lemma_sent(
    tool: OpenApiTool,
    args: JsonView,
    location: ParamLocation,
    params: Seq<ParamInfo>,
)
    ensures
        ({
            let sent = params.filter(
                |param: ParamInfo|
                    param.location == location && argument(tool, args, param.name@) is Some,
            );
            let pairs = args_at(
                location,
                params_view(params),
                call_args(tool@.hidden_params, args),
            );
            &&& pairs.len() == sent.len()
            &&& forall|i: int|
                0 <= i < pairs.len() ==> (#[trigger] pairs[i]).0 == sent[i].name@ && argument(
                    tool,
                    args,
                    sent[i].name@,
                ) is Some && pairs[i].1 == arg_text(
                    argument(tool, args, sent[i].name@)->Some_0,
                )
        }),
    decreases params.len(),
{
    reveal(Seq::filter);
    if params.len() > 0 {
        lemma_sent(tool, args, location, params.drop_last());
        lemma_argument(tool, args, params.last().name@);
        assert(params_view(params).drop_last() =~= params_view(params.drop_last()));
        assert(params_view(params).last() == params.last()@);
    }
}

/// The query of a call has, in the order of the parameters, the name and the argument of
/// each query parameter that there is an argument for, and then the fixed pairs.
pub proof fn law_calls_send_the_query(tool: OpenApiTool, args: Json, plan: RequestPlan)
    requires
        call_ensures(OpenApiTool::plan_request, (&tool, &args), plan),
    ensures
        ({
            let sent = sent_params(tool, args@, ParamLocation::Query);
            &&& plan.query@.len() == sent.len() + tool.static_query_params@.len()
            &&& forall|i: int|
                0 <= i < sent.len() ==> is_sent_pair(
                    tool,
                    args@,
                    sent[i],
                    #[trigger] plan.query@[i],
                )
            &&& forall|i: int|
                sent.len() <= i < plan.query@.len() ==> (#[trigger] plan.query@[i]).0@
                    == tool.static_query_params@[i - sent.len()].0@ && plan.query@[i].1@
                    == tool.static_query_params@[i - sent.len()].1@
        }),
{
    lemma_sent(tool, args@, ParamLocation::Query, tool.parameters@);
    let sent = sent_params(tool, args@, ParamLocation::Query);
    let pairs = pairs_view(plan.query@);
    assert(plan@.query == pairs);
    assert(pairs.len() == plan.query@.len());
    assert(pairs_view(tool.static_query_params@).len() == tool.static_query_params@.len());
    assert forall|i: int| 0 <= i < sent.len() implies is_sent_pair(
        tool,
        args@,
        sent[i],
        #[trigger] plan.query@[i],
    ) by {
        assert(pairs[i] == (plan.query@[i].0@, plan.query@[i].1@));
    }
    assert forall|i: int| sent.len() <= i < plan.query@.len() implies (
    #[trigger] plan.query@[i]).0@ == tool.static_query_params@[i - sent.len()].0@
        && plan.query@[i].1@ == tool.static_query_params@[i - sent.len()].1@ by {
        assert(pairs[i] == (plan.query@[i].0@, plan.query@[i].1@));
        assert(pairs_view(tool.static_query_params@)[i - sent.len()] == pairs[i]);
    }
}

/// The header arguments of a call are, in the order of the parameters, the name and the
/// argument of each header parameter that there is an argument for.
pub proof fn law_calls_send_the_headers(tool: OpenApiTool, args: Json, plan: RequestPlan)
    requires
        call_ensures(OpenApiTool::plan_request, (&tool, &args), plan),
    ensures
        ({
            let sent = sent_params(tool, args@, ParamLocation::Header);
            &&& plan.headers@.len() == sent.len()
            &&& forall|i: int|
                0 <= i < sent.len() ==> is_sent_pair(
                    tool,
                    args@,
                    sent[i],
                    #[trigger] plan.headers@[i],
                )
        }),
{
    lemma_sent(tool, args@, ParamLocation::Header, tool.parameters@);
    let sent = sent_params(tool, args@, ParamLocation::Header);
    let pairs = pairs_view(plan.headers@);
    assert(plan@.headers == pairs);
    assert(pairs.len() == plan.headers@.len());
    assert forall|i: int| 0 <= i < sent.len() implies is_sent_pair(
        tool,
        args@,
        sent[i],
        #[trigger] plan.headers@[i],
    ) by {
        assert(pairs[i] == (plan.headers@[i].0@, plan.headers@[i].1@));
    }
}

/// Header fields and credentials that were set are sent with every call as they were
/// set.
pub proof fn law_calls_send_what_was_set(tool: OpenApiTool, args: Json, plan: RequestPlan)
    requires
        call_ensures(OpenApiTool::plan_request, (&tool, &args), plan),
    ensures
        plan.fields@.len() == tool.fields@.len(),
        forall|i: int|
            0 <= i < plan.fields@.len() ==> field_name((#[trigger] plan.fields@[i]).name)
                == field_name(tool.fields@[i].name) && field_value(plan.fields@[i].value)
                == field_value(tool.fields@[i].value),
        plan.basic_auth is Some <==> tool.basic_auth is Some,
        plan.basic_auth matches Some(pair) ==> pair.0@ == tool.basic_auth->Some_0.0@ && pair.1@
            == tool.basic_auth->Some_0.1@,
{
    assert(plan@.fields.len() == plan.fields@.len());
    assert(tool@.fields.len() == tool.fields@.len());
    assert forall|i: int| 0 <= i < plan.fields@.len() implies field_name(
        (#[trigger] plan.fields@[i]).name,
    ) == field_name(tool.fields@[i].name) && field_value(plan.fields@[i].value) == field_value(
        tool.fields@[i].value,
    ) by {
        assert(plan@.fields[i] == plan.fields@[i]@);
        assert(tool@.fields[i] == tool.fields@[i]@);
    }
    assert(plan@.basic_auth == tool@.basic_auth);
}

/// A tool without parameters calls the base URL followed by its path.
pub proof fn law_calls_start_with_the_template(tool: OpenApiTool, args: Json, plan: RequestPlan)
    requires
        call_ensures(OpenApiTool::plan_request, (&tool, &args), plan),
        tool.parameters@.len() == 0,
    ensures
        plan.url@ == tool.base_url@ + tool.path_template@,
{
    assert(plan@.url == plan.url@);
}

/// One parameter more changes the URL of a call only if it is a path parameter: then its
/// place `{name}` is replaced, in all of the path, by the argument, or by nothing where
/// there is none.
pub proof fn law_each_path_param_fills_its_place(
    tool: OpenApiTool,
    more: OpenApiTool,
    param: ParamInfo,
    args: Json,
    plan: RequestPlan,
    plan_more: RequestPlan,
    path: &str,
    place: &str,
    text: &str,
    filled: String,
)
    requires
        call_ensures(OpenApiTool::plan_request, (&tool, &args), plan),
        call_ensures(OpenApiTool::plan_request, (&more, &args), plan_more),
        more.parameters@ == tool.parameters@.push(param),
        more.hidden_params == tool.hidden_params,
        more.base_url@ == tool.base_url@,
        more.path_template@ == tool.path_template@,
        plan.url@ == tool.base_url@ + path@,
        place@ == "{"@ + param.name@ + "}"@,
        match argument(tool, args@, param.name@) {
            Some(value) => is_written(value, text@),
            None => text@ == Seq::<char>::empty(),
        },
        call_ensures(replace_all, (path, place, text), filled),
    ensures
        param.location is Path ==> plan_more.url@ == tool.base_url@ + filled@,
        !(param.location is Path) ==> plan_more.url@ == plan.url@,
{
    lemma_argument(tool, args@, param.name@);
    let all = call_args(tool@.hidden_params, args@);
    let before = filled_path(tool.path_template@, params_view(tool.parameters@), all);
    assert(plan@.url == plan.url@);
    assert(plan_more@.url == plan_more.url@);
    assert(before =~= path@) by {
        assert(plan.url@.skip(tool.base_url@.len() as int) =~= before);
        assert(plan.url@.skip(tool.base_url@.len() as int) =~= path@);
    }
    assert(params_view(more.parameters@) =~= params_view(tool.parameters@).push(param@));
    assert(params_view(more.parameters@).drop_last() =~= params_view(tool.parameters@));
}

/// The argument under a name has no opening brace in it, however it is written.
pub open spec fn fills_in_no_brace(tool: OpenApiTool, args: JsonView, name: Seq<char>) -> bool {
    argument(tool, args, name) is Some ==> forall|text: Seq<char>|
        #[trigger] is_written(argument(tool, args, name)->Some_0, text) ==> !text.contains('{')
}

/// In the path of a call, every `{name}` is taken by the argument of the path parameter
/// of that name, or by nothing where there is none; the rest stays. The arguments have
/// no opening brace in them: what is filled in is looked at again for the next parameter.
pub proof fn law_calls_fill_the_path(
    tool: OpenApiTool,
    args: Json,
    plan: RequestPlan,
    pieces: Seq<PathPiece>,
    result: Seq<PathPiece>,
)
    requires
        call_ensures(OpenApiTool::plan_request, (&tool, &args), plan),
        tool.path_template@ == rendered(pieces),
        are_plain_pieces(pieces),
        forall|i: int|
            0 <= i < tool.parameters@.len() && (#[trigger] tool.parameters@[i]).location is Path
                ==> is_plain_name(tool.parameters@[i].name@) && fills_in_no_brace(
                tool,
                args@,
                tool.parameters@[i].name@,
            ),
        result.len() == pieces.len(),
        forall|k: int|
            0 <= k < pieces.len() ==> is_filled_piece(
                tool,
                args@,
                #[trigger] pieces[k],
                result[k],
            ),
    ensures
        plan.url@ == tool.base_url@ + rendered(result),
{
    let all = call_args(tool@.hidden_params, args@);
    let params = params_view(tool.parameters@);
    assert(plan@.url == plan.url@);
    assert forall|i: int|
        0 <= i < params.len() && (#[trigger] params[i]).location is Path implies is_plain_name(
        params[i].name,
    ) && !path_text(all, params[i].name).contains('{') by {
        let param = tool.parameters@[i];
        assert(param.location is Path);
        lemma_argument(tool, args@, param.name@);
        if let Some(value) = argument(tool, args@, param.name@) {
            assert(is_written(value, arg_text(value)));
        }
    }
    lemma_filled_path(pieces, params, all);
    let filled = filled_pieces(pieces, params, all);
    assert forall|k: int| 0 <= k < pieces.len() implies filled[k] == result[k] by {
        assert(is_filled_piece(tool, args@, pieces[k], result[k]));
        if let PathPiece::Place(name) = pieces[k] {
            lemma_argument(tool, args@, name);
            if has_path_param(tool, name) {
                let i = choose|i: int|
                    0 <= i < tool.parameters@.len() && (#[trigger] tool.parameters@[i]).location
                        is Path && tool.parameters@[i].name@ == name;
                assert(params[i].location is Path && params[i].name == name);
            }
            if is_path_param(params, name) {
                let i = choose|i: int|
                    0 <= i < params.len() && (#[trigger] params[i]).location is Path
                        && params[i].name == name;
                assert(tool.parameters@[i].location is Path);
            }
        }
    }
    assert(filled =~= result);
}

/// A tool has a path parameter of a name.
pub open spec fn has_path_param(tool: OpenApiTool, name: Seq<char>) -> bool {
    exists|i: int|
        0 <= i < tool.parameters@.len() && (#[trigger] tool.parameters@[i]).location is Path
            && tool.parameters@[i].name@ == name
}

/// What a piece of a path becomes in a call.
pub open spec fn is_filled_piece(
    tool: OpenApiTool,
    args: JsonView,
    piece: PathPiece,
    result: PathPiece,
) -> bool {
    match piece {
        PathPiece::Text(_) => result == piece,
        PathPiece::Place(name) => if has_path_param(tool, name) {
            result is Text && match argument(tool, args, name) {
                Some(value) => is_written(value, result->Text_0),
                None => result->Text_0 == Seq::<char>::empty(),
            }
        } else {
            result == piece
        },
    }
}

/// Two plans for the same method and URL.
pub open spec fn same_target(a: RequestPlan, b: RequestPlan) -> bool {
    a.method == b.method && a.url@ == b.url@
}

/// The same pairs of texts.
pub open spec fn same_pairs(a: Vec<(String, String)>, b: Vec<(String, String)>) -> bool {
    a@.len() == b@.len() && forall|i: int|
        0 <= i < a@.len() ==> (#[trigger] a@[i]).0@ == b@[i].0@ && a@[i].1@ == b@[i].1@
}

/// The same header fields.
pub open spec fn same_fields(a: Seq<HeaderField>, b: Seq<HeaderField>) -> bool {
    a.len() == b.len() && forall|i: int|
        0 <= i < a.len() ==> field_name((#[trigger] a[i]).name) == field_name(b[i].name)
            && field_value(a[i].value) == field_value(b[i].value)
}

/// The same credentials.
pub open spec fn same_credentials(
    a: Option<(String, String)>,
    b: Option<(String, String)>,
) -> bool {
    &&& a is Some <==> b is Some
    &&& a is Some ==> a->Some_0.0@ == b->Some_0.0@ && a->Some_0.1@ == b->Some_0.1@
}

/// Plans with the same pairs, fields and credentials are the same for a client.
proof fn lemma_same_parts(a: RequestPlan, b: RequestPlan)
    ensures
        same_pairs(a.query, b.query) ==> a@.query == b@.query,
        same_pairs(a.headers, b.headers) ==> a@.headers == b@.headers,
        same_fields(a.fields@, b.fields@) ==> a@.fields == b@.fields,
        same_credentials(a.basic_auth, b.basic_auth) ==> a@.basic_auth == b@.basic_auth,
{
    if same_pairs(a.query, b.query) {
        assert(a@.query =~= b@.query);
    }
    if same_pairs(a.headers, b.headers) {
        assert(a@.headers =~= b@.headers);
    }
    if same_fields(a.fields@, b.fields@) {
        assert(a@.fields =~= b@.fields);
    }
}

/// A plan without anything but a method and a URL is a request of that method to that
/// URL.
pub proof fn law_bare_plans_are_started(
    plan: RequestPlan,
    client: reqwest::Client,
    request: reqwest::RequestBuilder,
)
    requires
        call_ensures(RequestPlan::assemble, (&plan, &client), request),
        plan.query@.len() == 0,
        plan.fields@.len() == 0,
        plan.headers@.len() == 0,
        plan.basic_auth is None,
        plan.body is None,
    ensures
        plan.method is Get ==> request == started(client, "GET"@, plan.url@),
        plan.method is Post ==> request == started(client, "POST"@, plan.url@),
        plan.method is Put ==> request == started(client, "PUT"@, plan.url@),
        plan.method is Patch ==> request == started(client, "PATCH"@, plan.url@),
        plan.method is Delete ==> request == started(client, "DELETE"@, plan.url@),
        plan.method is Head ==> request == started(client, "HEAD"@, plan.url@),
        plan.method is Options ==> request == started(client, "OPTIONS"@, plan.url@),
        plan.method is Trace ==> request == started(client, "TRACE"@, plan.url@),
{
    assert(plan@.query.len() == 0);
    assert(plan@.fields.len() == 0);
    assert(plan@.headers.len() == 0);
}

/// A body is added as JSON to the request without it.
pub proof fn law_bodies_are_added(
    plan: RequestPlan,
    without: RequestPlan,
    client: reqwest::Client,
    request: reqwest::RequestBuilder,
    before: reqwest::RequestBuilder,
)
    requires
        call_ensures(RequestPlan::assemble, (&plan, &client), request),
        call_ensures(RequestPlan::assemble, (&without, &client), before),
        same_target(plan, without),
        same_pairs(plan.query, without.query),
        same_fields(plan.fields@, without.fields@),
        same_pairs(plan.headers, without.headers),
        same_credentials(plan.basic_auth, without.basic_auth),
        without.body is None,
        plan.body is Some,
    ensures
        request == with_json(before, plan.body->Some_0@),
{
    lemma_same_parts(plan, without);
}

/// Credentials are added to the request without them.
pub proof fn law_credentials_are_added(
    plan: RequestPlan,
    without: RequestPlan,
    client: reqwest::Client,
    request: reqwest::RequestBuilder,
    before: reqwest::RequestBuilder,
)
    requires
        call_ensures(RequestPlan::assemble, (&plan, &client), request),
        call_ensures(RequestPlan::assemble, (&without, &client), before),
        same_target(plan, without),
        same_pairs(plan.query, without.query),
        same_fields(plan.fields@, without.fields@),
        same_pairs(plan.headers, without.headers),
        plan.basic_auth is Some,
        without.basic_auth is None,
        plan.body is None,
        without.body is None,
    ensures
        request == with_basic_auth(
            before,
            plan.basic_auth->Some_0.0@,
            plan.basic_auth->Some_0.1@,
        ),
{
    lemma_same_parts(plan, without);
}

/// The last header argument is added to the request without it.
pub proof fn law_header_arguments_are_added(
    plan: RequestPlan,
    without: RequestPlan,
    client: reqwest::Client,
    request: reqwest::RequestBuilder,
    before: reqwest::RequestBuilder,
)
    requires
        call_ensures(RequestPlan::assemble, (&plan, &client), request),
        call_ensures(RequestPlan::assemble, (&without, &client), before),
        same_target(plan, without),
        same_pairs(plan.query, without.query),
        same_fields(plan.fields@, without.fields@),
        plan.headers@.len() > 0,
        without.headers@ == plan.headers@.drop_last(),
        plan.basic_auth is None,
        without.basic_auth is None,
        plan.body is None,
        without.body is None,
    ensures
        request == with_header(before, plan.headers@.last().0@, plan.headers@.last().1@),
{
    lemma_same_parts(plan, without);
    assert(plan@.headers.drop_last() =~= without@.headers);
    assert(plan@.headers.last() == (plan.headers@.last().0@, plan.headers@.last().1@));
}

/// The last header field that was set is added to the request without it.
pub proof fn law_set_fields_are_added(
    plan: RequestPlan,
    without: RequestPlan,
    client: reqwest::Client,
    request: reqwest::RequestBuilder,
    before: reqwest::RequestBuilder,
)
    requires
        call_ensures(RequestPlan::assemble, (&plan, &client), request),
        call_ensures(RequestPlan::assemble, (&without, &client), before),
        same_target(plan, without),
        same_pairs(plan.query, without.query),
        plan.fields@.len() > 0,
        without.fields@ == plan.fields@.drop_last(),
        plan.headers@.len() == 0,
        without.headers@.len() == 0,
        plan.basic_auth is None,
        without.basic_auth is None,
        plan.body is None,
        without.body is None,
    ensures
        request == with_field(
            before,
            field_name(plan.fields@.last().name),
            field_value(plan.fields@.last().value),
        ),
{
    lemma_same_parts(plan, without);
    assert(plan@.headers =~= without@.headers);
    assert(plan@.fields.drop_last() =~= without@.fields);
    assert(plan@.fields.last() == plan.fields@.last()@);
    assert(plan@.headers.len() == 0);
}

/// A query is added, all at once, to the request without it.
pub proof fn law_queries_are_added(
    plan: RequestPlan,
    without: RequestPlan,
    client: reqwest::Client,
    request: reqwest::RequestBuilder,
    before: reqwest::RequestBuilder,
    pairs: Seq<(Seq<char>, Seq<char>)>,
)
    requires
        call_ensures(RequestPlan::assemble, (&plan, &client), request),
        call_ensures(RequestPlan::assemble, (&without, &client), before),
        same_target(plan, without),
        plan.query@.len() > 0,
        without.query@.len() == 0,
        pairs.len() == plan.query@.len(),
        forall|i: int|
            0 <= i < pairs.len() ==> (#[trigger] pairs[i]).0 == plan.query@[i].0@ && pairs[i].1
                == plan.query@[i].1@,
        plan.fields@.len() == 0,
        without.fields@.len() == 0,
        plan.headers@.len() == 0,
        without.headers@.len() == 0,
        plan.basic_auth is None,
        without.basic_auth is None,
        plan.body is None,
        without.body is None,
    ensures
        request == with_query(before, pairs),
{
    assert(plan@.query =~= pairs);
    assert(without@.query.len() == 0);
    assert(plan@.fields.len() == 0);
    assert(without@.fields.len() == 0);
    assert(plan@.headers.len() == 0);
    assert(without@.headers.len() == 0);
}

/// A call makes the request that the tool's client makes of its plan.
pub proof fn law_requests_follow_the_plan(
    tool: OpenApiTool,
    args: Json,
    plan: RequestPlan,
    request: reqwest::RequestBuilder,
    assembled_request: reqwest::RequestBuilder,
)
    requires
        call_ensures(OpenApiTool::plan_request, (&tool, &args), plan),
        call_ensures(OpenApiTool::request, (&tool, &args), request),
        call_ensures(RequestPlan::assemble, (&plan, &tool.client), assembled_request),
    ensures
        request == assembled_request,
{
}

/// A call on a text is a call on the JSON that the text holds, and an error if it holds
/// none.
pub proof fn law_calls_read_their_arguments(
    tool: OpenApiTool,
    text: &str,
    called: Result<reqwest::RequestBuilder, CallError>,
    args: Json,
    request: reqwest::RequestBuilder,
)
    requires
        call_ensures(OpenApiTool::call_request, (&tool, text), called),
        call_ensures(OpenApiTool::request, (&tool, &args), request),
    ensures
        called is Ok <==> parsed_json(text@) is Some,
        parsed_json(text@) == Some(args@) ==> called->Ok_0 == request,
{
}

/// A call answers with the JSON text of what the API answered with.
pub proof fn law_answers_are_written_out(
    answer: serde_json::Value,
    text: Result<String, CallError>,
)
    requires
        call_ensures(OpenApiTool::call_result, (answer,), text),
    ensures
        text is Ok <==> written_json(value_json(answer)) is Some,
        text matches Ok(text) ==> written_json(value_json(answer)) == Some(text@),
{
}

} // verus!
