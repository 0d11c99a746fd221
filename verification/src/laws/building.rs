//! What a builder sets, and what its tools have of it.

use vstd::prelude::*;

use vstd::utf8::encode_utf8;

use crate::builder::{built_config, is_built_client, BuilderView, OpenApiToolsetBuilder};
use crate::http::{client_fields, default_fields, field_map, without_name, FieldView};
use crate::laws::making::{
    all_operations, has_in_common, is_base_url, is_made_of, is_without_slashes,
    lemma_operations, lemma_tools,
};
use crate::openapi::parsed_spec;
use crate::tool::OpenApiTool;
use crate::toolset::{
    plain_config, spec_tools, tool_of, tools_view, BuildError, ConfigView, OpenApiToolset,
    ToolConfig,
};
use crate::yaml::is_sure_text;

verus! {

/// Two builders read the same text.
pub open spec fn same_text_read(a: OpenApiToolsetBuilder, b: OpenApiToolsetBuilder) -> bool {
    a@.spec_str == b@.spec_str
}

/// Two builders have the same base URL.
pub open spec fn same_base_url(a: OpenApiToolsetBuilder, b: OpenApiToolsetBuilder) -> bool {
    a@.base_url == b@.base_url
}

/// Two builders have the same client, or none.
pub open spec fn same_client(a: OpenApiToolsetBuilder, b: OpenApiToolsetBuilder) -> bool {
    a@.client == b@.client
}

/// Two builders have the same hidden parameters.
pub open spec fn same_context(a: OpenApiToolsetBuilder, b: OpenApiToolsetBuilder) -> bool {
    a@.hidden_context == b@.hidden_context
}

/// Two builders have the same header fields.
pub open spec fn same_headers(a: OpenApiToolsetBuilder, b: OpenApiToolsetBuilder) -> bool {
    a@.default_headers == b@.default_headers
}

/// Two builders have the same fixed pairs in the query.
pub open spec fn same_query(a: OpenApiToolsetBuilder, b: OpenApiToolsetBuilder) -> bool {
    a@.static_query_params == b@.static_query_params
}

/// Two builders have the same credentials, or none.
pub open spec fn same_login(a: OpenApiToolsetBuilder, b: OpenApiToolsetBuilder) -> bool {
    a@.basic_auth == b@.basic_auth
}

/// A builder starts with a text and with nothing set.
pub proof fn law_builders_start_with_a_text(text: &str, builder: OpenApiToolsetBuilder)
    requires
        call_ensures(OpenApiToolset::builder, (text,), builder),
    ensures
        builder@.spec_str == text@,
        builder@.base_url is None,
        builder@.client is None,
        builder@.hidden_context.dom() == Set::<Seq<char>>::empty(),
        builder@.default_headers.len() == 0,
        builder@.static_query_params.len() == 0,
        builder@.basic_auth is None,
{
    assert(builder@.hidden_context.dom() =~= Set::<Seq<char>>::empty());
}

/// The base URL is set as it is given, and nothing else changes.
pub proof fn law_base_url_is_set(
    before: OpenApiToolsetBuilder,
    url: &str,
    after: OpenApiToolsetBuilder,
)
    requires
        call_ensures(OpenApiToolsetBuilder::base_url, (before, url), after),
    ensures
        after@.base_url == Some(url@),
        same_text_read(before, after),
        same_client(before, after),
        same_context(before, after),
        same_headers(before, after),
        same_query(before, after),
        same_login(before, after),
{
}

/// The client is set as it is given, and nothing else changes.
pub proof fn law_client_is_set(
    before: OpenApiToolsetBuilder,
    client: reqwest::Client,
    after: OpenApiToolsetBuilder,
)
    requires
        call_ensures(OpenApiToolsetBuilder::client, (before, client), after),
    ensures
        after@.client == Some(client),
        same_text_read(before, after),
        same_base_url(before, after),
        same_context(before, after),
        same_headers(before, after),
        same_query(before, after),
        same_login(before, after),
{
}

/// A hidden parameter is set under its key, in place of an earlier one of that key; all
/// others stay, and nothing else changes.
pub proof fn law_hidden_parameter_is_set(
    before: OpenApiToolsetBuilder,
    key: &str,
    value: &str,
    after: OpenApiToolsetBuilder,
    other: Seq<char>,
)
    requires
        call_ensures(OpenApiToolsetBuilder::hidden_context, (before, key, value), after),
    ensures
        after@.hidden_context.contains_key(key@),
        after@.hidden_context[key@] == value@,
        other != key@ ==> (after@.hidden_context.contains_key(other)
            <==> before@.hidden_context.contains_key(other)),
        other != key@ && before@.hidden_context.contains_key(other)
            ==> after@.hidden_context[other] == before@.hidden_context[other],
        same_text_read(before, after),
        same_base_url(before, after),
        same_client(before, after),
        same_headers(before, after),
        same_query(before, after),
        same_login(before, after),
{
}

/// A pair is added at the end of the query, and nothing else changes.
pub proof fn law_query_pair_is_added(
    before: OpenApiToolsetBuilder,
    name: &str,
    key: &str,
    after: OpenApiToolsetBuilder,
)
    requires
        call_ensures(OpenApiToolsetBuilder::api_key_query, (before, name, key), after),
    ensures
        after@.static_query_params.len() == before@.static_query_params.len() + 1,
        after@.static_query_params.last() == (name@, key@),
        after@.static_query_params.drop_last() =~= before@.static_query_params,
        same_text_read(before, after),
        same_base_url(before, after),
        same_client(before, after),
        same_context(before, after),
        same_headers(before, after),
        same_login(before, after),
{
}

/// The credentials are set as they are given, and nothing else changes.
pub proof fn law_credentials_are_set(
    before: OpenApiToolsetBuilder,
    username: &str,
    password: &str,
    after: OpenApiToolsetBuilder,
)
    requires
        call_ensures(OpenApiToolsetBuilder::basic_auth, (before, username, password), after),
    ensures
        after@.basic_auth == Some((username@, password@)),
        same_text_read(before, after),
        same_base_url(before, after),
        same_client(before, after),
        same_context(before, after),
        same_headers(before, after),
        same_query(before, after),
{
}

/// The fields that do not have a name.
pub open spec fn other_fields(fields: Seq<FieldView>, name: Seq<u8>) -> Seq<FieldView> {
    fields.filter(|field: FieldView| field.0 != name)
}

/// The fields of other names are those that do not have the name.
proof fn lemma_other_names(fields: Seq<FieldView>, name: Seq<u8>)
    ensures
        without_name(fields, name) == other_fields(fields, name),
    decreases fields.len(),
{
    reveal(Seq::filter);
    if fields.len() > 0 {
        lemma_other_names(fields.drop_last(), name);
    }
}

/// A field of a name is the last one, and the fields of other names stay.
pub open spec fn is_field_set(
    before: Seq<FieldView>,
    name: Seq<u8>,
    value: Seq<u8>,
    after: Seq<FieldView>,
) -> bool {
    &&& after.len() > 0
    &&& after.last() == (name, (value, true))
    &&& after.drop_last() == other_fields(before, name)
}

/// A bearer token is a sensitive `authorization` field of the word `Bearer`, a space and
/// the token, and takes the place of an earlier one. Nothing else changes.
pub proof fn law_bearer_token_is_set(
    before: OpenApiToolsetBuilder,
    token: &str,
    after: OpenApiToolsetBuilder,
)
    requires
        call_ensures(OpenApiToolsetBuilder::bearer_token, (before, token), after),
    ensures
        is_field_set(
            before@.default_headers,
            encode_utf8("authorization"@),
            encode_utf8("Bearer "@ + token@),
            after@.default_headers,
        ),
        same_text_read(before, after),
        same_base_url(before, after),
        same_client(before, after),
        same_context(before, after),
        same_query(before, after),
        same_login(before, after),
{
    lemma_other_names(before@.default_headers, encode_utf8("authorization"@));
    assert(after@.default_headers.drop_last() =~= without_name(
        before@.default_headers,
        encode_utf8("authorization"@),
    ));
}

/// A name in small letters.
pub open spec fn is_small(name: Seq<u8>, small: Seq<u8>) -> bool {
    &&& small.len() == name.len()
    &&& forall|i: int|
        0 <= i < name.len() ==> #[trigger] small[i] == if 65 <= name[i] <= 90 {
            name[i] + 32
        } else {
            name[i] as int
        }
}

/// A key is a sensitive field of the header's name in small letters, and takes the place
/// of an earlier one of that name. Nothing else changes.
pub proof fn law_key_header_is_set(
    before: OpenApiToolsetBuilder,
    name: &str,
    key: &str,
    after: OpenApiToolsetBuilder,
)
    requires
        call_ensures(OpenApiToolsetBuilder::api_key_header, (before, name, key), after),
    ensures
        after@.default_headers.len() > 0,
        is_small(encode_utf8(name@), after@.default_headers.last().0),
        is_field_set(
            before@.default_headers,
            after@.default_headers.last().0,
            encode_utf8(key@),
            after@.default_headers,
        ),
        same_text_read(before, after),
        same_base_url(before, after),
        same_client(before, after),
        same_context(before, after),
        same_query(before, after),
        same_login(before, after),
{
    let small = after@.default_headers.last().0;
    lemma_other_names(before@.default_headers, small);
    assert(after@.default_headers.drop_last() =~= without_name(before@.default_headers, small));
}

/// There is room for one more header field as long as that leaves one of those that a
/// request has.
pub proof fn law_header_room_is_counted(builder: OpenApiToolsetBuilder, room: bool)
    requires
        call_ensures(OpenApiToolsetBuilder::header_room, (&builder,), room),
    ensures
        room <==> builder@.default_headers.len() + 1 < 6553,
{
}

/// A tool has what its builder was set to.
pub open spec fn is_set_up(builder: BuilderView, tool: OpenApiTool) -> bool {
    has_in_common(
        (ConfigView {
            base_url: builder.base_url,
            client: tool.client,
            fields: builder.default_headers,
            hidden_context: builder.hidden_context,
            static_query_params: builder.static_query_params,
            basic_auth: builder.basic_auth,
        }),
        tool,
    )
}

/// A builder builds one of these, be it tried or not.
pub open spec fn builds(
    builder: OpenApiToolsetBuilder,
    built: Result<OpenApiToolset, BuildError>,
) -> bool {
    ||| call_ensures(OpenApiToolsetBuilder::build, (builder,), built)
    ||| call_ensures(OpenApiToolsetBuilder::try_build, (builder,), Some(built))
}

/// The tools that a builder builds are made of the operations of its text, and have the
/// base URL, the hidden parameters, the fixed pairs, the header fields and the
/// credentials that were set, whether or not there is a client of the builder's own. A
/// client that was set is theirs.
pub proof fn law_built_tools_have_what_was_set(
    builder: OpenApiToolsetBuilder,
    built: Result<OpenApiToolset, BuildError>,
    i: int,
)
    requires
        builds(builder, built),
        built is Ok,
    ensures
        parsed_spec(builder@.spec_str) is Some,
        ({
            let spec = parsed_spec(builder@.spec_str)->Some_0;
            let tools = built->Ok_0.tools@;
            &&& tools.len() == all_operations(spec.paths).len()
            &&& 0 <= i < tools.len() ==> {
                &&& is_made_of(spec, all_operations(spec.paths)[i], tools[i])
                &&& is_base_url(spec, builder@.base_url, tools[i].base_url@)
                &&& is_set_up(builder@, tools[i])
                &&& builder@.client is Some ==> tools[i].client == builder@.client->Some_0
            }
        }),
{
    let spec = parsed_spec(builder@.spec_str)->Some_0;
    let tools = built->Ok_0.tools@;
    let config = lemma_built(builder, built);
    lemma_tools(spec, config, tools, i);
}

/// The configuration that the tools of a builder are made with.
proof fn lemma_built(
    builder: OpenApiToolsetBuilder,
    built: Result<OpenApiToolset, BuildError>,
) -> (config: ConfigView)
    requires
        builds(builder, built),
        built is Ok,
    ensures
        parsed_spec(builder@.spec_str) is Some,
        tools_view(built->Ok_0.tools@) == spec_tools(
            parsed_spec(builder@.spec_str)->Some_0,
            config,
        ),
        config.base_url == builder@.base_url,
        config.fields == builder@.default_headers,
        config.hidden_context == builder@.hidden_context,
        config.static_query_params == builder@.static_query_params,
        config.basic_auth == builder@.basic_auth,
        builder@.client is Some ==> config.client == builder@.client->Some_0,
        builder@.client is None ==> client_fields(config.client) == default_fields(
            field_map(builder@.default_headers),
        ),
{
    let spec = parsed_spec(builder@.spec_str)->Some_0;
    let client = choose|client: reqwest::Client|
        is_built_client(builder@, client) && built->Ok_0@
            == #[trigger] spec_tools(spec, built_config(builder@, client));
    built_config(builder@, client)
}

/// Whether there is a client or not, and whenever the client was set, the tools have the
/// base URL that was set last, without the slashes at its end.
pub proof fn law_base_url_does_not_depend_on_the_client(
    builder: OpenApiToolsetBuilder,
    url: &str,
    client: reqwest::Client,
    with_url: OpenApiToolsetBuilder,
    with_client: OpenApiToolsetBuilder,
    url_first: OpenApiToolsetBuilder,
    url_last: OpenApiToolsetBuilder,
    chosen: OpenApiToolsetBuilder,
    built: Result<OpenApiToolset, BuildError>,
    i: int,
)
    requires
        call_ensures(OpenApiToolsetBuilder::base_url, (builder, url), with_url),
        call_ensures(OpenApiToolsetBuilder::client, (with_url, client), url_first),
        call_ensures(OpenApiToolsetBuilder::client, (builder, client), with_client),
        call_ensures(OpenApiToolsetBuilder::base_url, (with_client, url), url_last),
        chosen == with_url || chosen == url_first || chosen == url_last,
        builds(chosen, built),
        built is Ok,
        0 <= i < built->Ok_0.tools@.len(),
    ensures
        is_without_slashes(url@, built->Ok_0.tools@[i].base_url@),
{
    law_built_tools_have_what_was_set(chosen, built, i);
}

/// With another client, a builder builds the same tools but for the client.
pub proof fn law_clients_change_nothing_else(
    builder: OpenApiToolsetBuilder,
    client: reqwest::Client,
    other: OpenApiToolsetBuilder,
    built: Result<OpenApiToolset, BuildError>,
    built_other: Result<OpenApiToolset, BuildError>,
    i: int,
)
    requires
        call_ensures(OpenApiToolsetBuilder::client, (builder, client), other),
        builds(builder, built),
        builds(other, built_other),
        built is Ok,
        built_other is Ok,
    ensures
        built->Ok_0.tools@.len() == built_other->Ok_0.tools@.len(),
        0 <= i < built->Ok_0.tools@.len() ==> {
            let a = built->Ok_0.tools@[i];
            let b = built_other->Ok_0.tools@[i];
            &&& b.client == client
            &&& a.base_url@ == b.base_url@
            &&& a.method == b.method
            &&& a.path_template@ == b.path_template@
            &&& a.operation_id@ == b.operation_id@
            &&& a.description@ == b.description@
            &&& a@.parameters == b@.parameters
            &&& a@.request_body_schema == b@.request_body_schema
            &&& a.request_body_required == b.request_body_required
            &&& a@.hidden_params == b@.hidden_params
            &&& a@.static_query_params == b@.static_query_params
            &&& a@.basic_auth == b@.basic_auth
            &&& a@.fields == b@.fields
        },
{
    let spec = parsed_spec(builder@.spec_str)->Some_0;
    let config = lemma_built(builder, built);
    let config_other = lemma_built(other, built_other);
    lemma_operations(spec, config, spec.paths);
    lemma_operations(spec, config_other, spec.paths);
    let places = all_operations(spec.paths);
    let tools = built->Ok_0.tools@;
    let tools_other = built_other->Ok_0.tools@;
    assert(tools_view(tools).len() == tools.len());
    assert(tools_view(tools_other).len() == tools_other.len());
    if 0 <= i < tools.len() {
        let place = places[i];
        assert(tools_view(tools)[i] == tools[i]@);
        assert(tools_view(tools_other)[i] == tools_other[i]@);
        assert(tools[i]@ == tool_of(spec, config, place.0, place.1, place.2));
        assert(tools_other[i]@ == tool_of(spec, config_other, place.0, place.1, place.2));
        assert(tools[i]@.base_url == tools[i].base_url@);
        assert(tools_other[i]@.base_url == tools_other[i].base_url@);
        assert(tools[i]@.method == tools[i].method);
        assert(tools_other[i]@.method == tools_other[i].method);
        assert(tools_other[i]@.client == tools_other[i].client);
    }
}

/// A header map has the names of its fields.
proof fn lemma_field_names(fields: Seq<FieldView>, name: Seq<u8>)
    ensures
        field_map(fields).contains_key(name) <==> exists|i: int|
            0 <= i < fields.len() && (#[trigger] fields[i]).0 == name,
        field_map(fields).contains_key(name) ==> field_map(fields)[name].len() == 1,
    decreases fields.len(),
{
    if fields.len() > 0 {
        let front = fields.drop_last();
        lemma_field_names(front, name);
        if field_map(front).contains_key(name) {
            let i = choose|i: int| 0 <= i < front.len() && (#[trigger] front[i]).0 == name;
            assert(fields[i].0 == name);
        }
        if fields.last().0 == name {
            assert(fields[fields.len() - 1].0 == name);
        }
        if exists|i: int| 0 <= i < fields.len() && (#[trigger] fields[i]).0 == name {
            let i = choose|i: int| 0 <= i < fields.len() && (#[trigger] fields[i]).0 == name;
            if i < front.len() {
                assert(front[i].0 == name);
            }
        }
    }
}

/// Of fields of one name, a header map has the last.
proof fn lemma_last_field(fields: Seq<FieldView>, i: int)
    requires
        0 <= i < fields.len(),
        forall|j: int| i < j < fields.len() ==> (#[trigger] fields[j]).0 != fields[i].0,
    ensures
        field_map(fields).contains_key(fields[i].0),
        field_map(fields)[fields[i].0] == seq![fields[i].1],
    decreases fields.len(),
{
    let front = fields.drop_last();
    if i < front.len() {
        assert(fields[fields.len() - 1].0 != fields[i].0);
        assert forall|j: int| i < j < front.len() implies (#[trigger] front[j]).0
            != front[i].0 by {
            assert(fields[j].0 != fields[i].0);
        }
        lemma_last_field(front, i);
    }
}

/// Where no client was set, the tools have one that adds the header fields that were
/// set, `accept` with any media type if that was not set, and no other.
pub proof fn law_own_clients_have_the_fields(
    builder: OpenApiToolsetBuilder,
    built: Result<OpenApiToolset, BuildError>,
    i: int,
    k: int,
    name: Seq<u8>,
)
    requires
        builds(builder, built),
        built is Ok,
        builder@.client is None,
        0 <= i < built->Ok_0.tools@.len(),
    ensures
        ({
            let fields = client_fields(built->Ok_0.tools@[i].client);
            let set = builder@.default_headers;
            &&& 0 <= k < set.len() && (forall|j: int|
                k < j < set.len() ==> (#[trigger] set[j]).0 != set[k].0) ==> fields.contains_key(
                set[k].0,
            ) && fields[set[k].0] == set[k].1
            &&& fields.contains_key(name) ==> name == encode_utf8("accept"@) || exists|j: int|
                0 <= j < set.len() && (#[trigger] set[j]).0 == name
            &&& (forall|j: int|
                0 <= j < set.len() ==> (#[trigger] set[j]).0 != encode_utf8("accept"@))
                ==> fields.contains_key(encode_utf8("accept"@)) && fields[encode_utf8("accept"@)]
                == (encode_utf8("*/*"@), false)
        }),
{
    let spec = parsed_spec(builder@.spec_str)->Some_0;
    let config = lemma_built(builder, built);
    lemma_tools(spec, config, built->Ok_0.tools@, i);
    let set = builder@.default_headers;
    lemma_field_names(set, name);
    lemma_field_names(set, encode_utf8("accept"@));
    if 0 <= k < set.len() && (forall|j: int|
        k < j < set.len() ==> (#[trigger] set[j]).0 != set[k].0) {
        lemma_last_field(set, k);
        assert(seq![set[k].1].last() == set[k].1);
    }
}

/// A builder with a client builds its tools exactly if its text is a description; one
/// without may have no client to build them with.
pub proof fn law_texts_decide_what_is_built(
    builder: OpenApiToolsetBuilder,
    built: Result<OpenApiToolset, BuildError>,
)
    requires
        builds(builder, built),
    ensures
        built is Ok ==> parsed_spec(builder@.spec_str) is Some,
        built matches Err(BuildError::Spec(_)) ==> parsed_spec(builder@.spec_str) is None,
        builder@.client is Some ==> (built is Ok <==> parsed_spec(builder@.spec_str) is Some),
{
}

/// A builder tries exactly the texts that are sure to be read at the first try.
pub proof fn law_sure_texts_are_tried(
    builder: OpenApiToolsetBuilder,
    tried: Option<Result<OpenApiToolset, BuildError>>,
    text: &str,
    tried_text: Option<Result<OpenApiToolset, BuildError>>,
)
    requires
        call_ensures(OpenApiToolsetBuilder::try_build, (builder,), tried),
        call_ensures(OpenApiToolset::try_from_spec_str, (text,), tried_text),
    ensures
        tried is Some <==> is_sure_text(builder@.spec_str),
        tried_text is Some <==> is_sure_text(text@),
{
}

/// What is made of a text alone is what a builder builds of it with nothing set.
pub proof fn law_texts_alone_have_nothing_set(
    text: &str,
    made: Result<OpenApiToolset, BuildError>,
    i: int,
)
    requires
        call_ensures(OpenApiToolset::from_spec_str, (text,), made) || call_ensures(
            OpenApiToolset::try_from_spec_str,
            (text,),
            Some(made),
        ),
    ensures
        made matches Err(BuildError::Spec(_)) ==> parsed_spec(text@) is None,
        made is Ok ==> parsed_spec(text@) is Some,
        made is Ok ==> {
            let spec = parsed_spec(text@)->Some_0;
            let tools = made->Ok_0.tools@;
            &&& tools.len() == all_operations(spec.paths).len()
            &&& 0 <= i < tools.len() ==> {
                &&& is_made_of(spec, all_operations(spec.paths)[i], tools[i])
                &&& is_base_url(spec, None, tools[i].base_url@)
                &&& tools[i].fields@.len() == 0
                &&& forall|name: Seq<char>| !tools[i].hidden_params@.contains_key(name)
                &&& tools[i].static_query_params@.len() == 0
                &&& tools[i].basic_auth is None
                &&& client_fields(tools[i].client).dom() == set![encode_utf8("accept"@)]
                &&& client_fields(tools[i].client)[encode_utf8("accept"@)] == (
                    encode_utf8("*/*"@),
                    false,
                )
            }
        },
{
    if made is Ok {
        let spec = parsed_spec(text@)->Some_0;
        let client = choose|client: reqwest::Client|
            client_fields(client) == default_fields(Map::empty()) && made->Ok_0@
                == #[trigger] spec_tools(spec, plain_config(client));
        let config = plain_config(client);
        lemma_tools(spec, config, made->Ok_0.tools@, i);
        assert(default_fields(Map::empty()).dom() =~= set![encode_utf8("accept"@)]);
    }
}

/// What is read from a text and made with a configuration is made of the operations of
/// the text.
pub proof fn law_read_tools_have_what_was_set(
    text: &str,
    config: ToolConfig,
    made: Result<OpenApiToolset, BuildError>,
    i: int,
)
    requires
        call_ensures(OpenApiToolset::build_inner, (text, &config), made),
    ensures
        made is Ok <==> parsed_spec(text@) is Some,
        made matches Err(error) ==> error is Spec,
        made is Ok ==> {
            let spec = parsed_spec(text@)->Some_0;
            let tools = made->Ok_0.tools@;
            &&& tools.len() == all_operations(spec.paths).len()
            &&& 0 <= i < tools.len() ==> is_made_of(spec, all_operations(spec.paths)[i], tools[i])
                && has_in_common(config@, tools[i]) && is_base_url(
                spec,
                config@.base_url,
                tools[i].base_url@,
            )
        },
{
    if made is Ok {
        lemma_tools(parsed_spec(text@)->Some_0, config@, made->Ok_0.tools@, i);
    }
}

} // verus!
