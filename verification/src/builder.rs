//! The options of a set of tools.

use vstd::prelude::*;

use reqwest::header::{HeaderName, HeaderValue};
use vstd::utf8::encode_utf8;

use crate::document::{map_view, optional};
use crate::http::{
    authorization, build_client, client_fields, default_fields, distinct_names, field_map,
    fields_view, is_field_name, is_field_value, lemma_without_name, lower_case, map_of_fields,
    pairs_view, put_field, with_field_set, without_name, FieldView, HeaderField, MAX_HEADER_NAMES,
};
use crate::openapi::parsed_spec;
use crate::str_map::StrMap;
use crate::tool::optional_pair;
use crate::toolset::{spec_tools, BuildError, ConfigView, OpenApiToolset, ToolConfig};
use crate::yaml::{is_sure_text, reads_once, surely_reads_once};

verus! {

/// Collects the options of an [`OpenApiToolset`].
pub struct OpenApiToolsetBuilder {
    spec_str: String,
    base_url: Option<String>,
    client: Option<reqwest::Client>,
    hidden_context: StrMap<String>,
    default_headers: Vec<HeaderField>,
    static_query_params: Vec<(String, String)>,
    basic_auth: Option<(String, String)>,
}

/// The view of an [`OpenApiToolsetBuilder`]: the text and what was set.
#[verifier::ext_equal]
pub ghost struct BuilderView {
    pub spec_str: Seq<char>,
    pub base_url: Option<Seq<char>>,
    pub client: Option<reqwest::Client>,
    pub hidden_context: Map<Seq<char>, Seq<char>>,
    pub default_headers: Seq<FieldView>,
    pub static_query_params: Seq<(Seq<char>, Seq<char>)>,
    pub basic_auth: Option<(Seq<char>, Seq<char>)>,
}

impl View for OpenApiToolsetBuilder {
    type V = BuilderView;

    closed spec fn view(&self) -> BuilderView {
        BuilderView {
            spec_str: self.spec_str@,
            base_url: optional(self.base_url),
            client: self.client,
            hidden_context: map_view(self.hidden_context),
            default_headers: fields_view(self.default_headers@),
            static_query_params: pairs_view(self.static_query_params@),
            basic_auth: optional_pair(self.basic_auth),
        }
    }
}

/// A builder for which nothing is set.
pub open spec fn nothing_set(spec_str: Seq<char>) -> BuilderView {
    BuilderView {
        spec_str,
        base_url: None,
        client: None,
        hidden_context: Map::empty(),
        default_headers: Seq::empty(),
        static_query_params: Seq::empty(),
        basic_auth: None,
    }
}

/// One more header name can be set.
pub open spec fn has_header_room(builder: BuilderView) -> bool {
    builder.default_headers.len() + 1 < MAX_HEADER_NAMES
}

/// What a builder's tools have in common, with the client that they use.
pub open spec fn built_config(builder: BuilderView, client: reqwest::Client) -> ConfigView {
    ConfigView {
        base_url: builder.base_url,
        client,
        fields: builder.default_headers,
        hidden_context: builder.hidden_context,
        static_query_params: builder.static_query_params,
        basic_auth: builder.basic_auth,
    }
}

/// The client of a builder's tools: the one that was set, or else one that has the
/// header fields that were set as its defaults.
pub open spec fn is_built_client(builder: BuilderView, client: reqwest::Client) -> bool {
    match builder.client {
        Some(given) => client == given,
        None => client_fields(client) == default_fields(field_map(builder.default_headers)),
    }
}

/// What a builder builds: the tools of the description that its text holds, with what
/// was set.
pub open spec fn is_built_toolset(
    builder: BuilderView,
    built: Result<OpenApiToolset, BuildError>,
) -> bool {
    match built {
        Ok(toolset) => parsed_spec(builder.spec_str) is Some && exists|client: reqwest::Client|
            is_built_client(builder, client) && toolset@ == #[trigger] spec_tools(
                parsed_spec(builder.spec_str)->Some_0,
                built_config(builder, client),
            ),
        Err(BuildError::Spec(_)) => parsed_spec(builder.spec_str) is None,
        Err(BuildError::Client(_)) => builder.client is None,
    }
}

impl OpenApiToolsetBuilder {
    /// No header name is set twice, and a client can be built with the fields.
    #[verifier::type_invariant]
    spec fn has_plain_fields(self) -> bool {
        &&& distinct_names(fields_view(self.default_headers@))
        &&& self.default_headers@.len() < MAX_HEADER_NAMES
    }

    /// Takes this base URL in place of the one that the text names.
    pub fn base_url(self, url: &str) -> (builder: Self)
        ensures
            builder@ == (BuilderView { base_url: Some(url@), ..self@ }),
    {
        proof {
            use_type_invariant(&self);
        }
        OpenApiToolsetBuilder { base_url: Some(url.to_owned()), ..self }
    }

    /// Takes this client, with whatever fields and limits it has, in place of one that
    /// is built here. Header fields that are set on the builder are sent all the same.
    pub fn client(self, client: reqwest::Client) -> (builder: Self)
        ensures
            builder@ == (BuilderView { client: Some(client), ..self@ }),
    {
        proof {
            use_type_invariant(&self);
        }
        OpenApiToolsetBuilder { client: Some(client), ..self }
    }

    /// Adds a hidden parameter: every call has it, and the model does not see it.
    pub fn hidden_context(self, key: &str, value: &str) -> (builder: Self)
        ensures
            builder@ == (BuilderView {
                hidden_context: self@.hidden_context.insert(key@, value@),
                ..self@
            }),
    {
        proof {
            use_type_invariant(&self);
        }
        let ghost before = map_view(self.hidden_context);
        let mut hidden_context = self.hidden_context;
        hidden_context.insert(key.to_owned(), value.to_owned());
        assert(map_view(hidden_context) =~= before.insert(key@, value@));
        OpenApiToolsetBuilder { hidden_context, ..self }
    }

    /// Whether one more header name can be set.
    pub fn header_room(&self) -> (room: bool)
        ensures
            room == has_header_room(self@),
    {
        proof {
            use_type_invariant(self);
        }
        self.default_headers.len() + 1 < MAX_HEADER_NAMES
    }

    /// Sets a header field of every request.
    fn set(self, field: HeaderField) -> (builder: Self)
        requires
            has_header_room(self@),
        ensures
            builder@ == (BuilderView {
                default_headers: with_field_set(self@.default_headers, field@.0, field@.1),
                ..self@
            }),
    {
        let ghost before = self@.default_headers;
        proof {
            use_type_invariant(&self);
            lemma_without_name(before, field@.0);
        }
        let default_headers = put_field(self.default_headers, field);
        proof {
            let rest = without_name(before, field@.0);
            let set = fields_view(default_headers@);
            assert(set.len() == default_headers@.len());
            assert forall|i: int, j: int| 0 <= i < j < set.len() implies (#[trigger] set[i]).0 != (
            #[trigger] set[j]).0 by {
                if j < rest.len() {
                    assert(rest[i].0 != rest[j].0);
                } else {
                    assert(rest.contains(rest[i]));
                }
            }
        }
        OpenApiToolsetBuilder { default_headers, ..self }
    }

    /// Sets the `Authorization` field of every request to a bearer token.
    pub fn bearer_token(self, token: &str) -> (builder: Self)
        requires
            is_field_value(encode_utf8("Bearer "@ + token@)),
            has_header_room(self@),
        ensures
            builder@ == (BuilderView {
                default_headers: with_field_set(
                    self@.default_headers,
                    encode_utf8("authorization"@),
                    (encode_utf8("Bearer "@ + token@), true),
                ),
                ..self@
            }),
    {
        proof {
            use_type_invariant(&self);
        }
        let text = "Bearer ".to_owned().concat(token);
        let mut auth_value = HeaderValue::from_str(text.as_str()).unwrap();
        auth_value.set_sensitive(true);
        self.set(HeaderField { name: authorization(), value: auth_value })
    }

    /// Sets a header field of every request (such as `X-API-Key: abc`).
    pub fn api_key_header(self, header_name: &str, key: &str) -> (builder: Self)
        requires
            is_field_name(encode_utf8(header_name@)),
            is_field_value(encode_utf8(key@)),
            has_header_room(self@),
        ensures
            builder@ == (BuilderView {
                default_headers: with_field_set(
                    self@.default_headers,
                    lower_case(encode_utf8(header_name@)),
                    (encode_utf8(key@), true),
                ),
                ..self@
            }),
    {
        proof {
            use_type_invariant(&self);
        }
        let name = HeaderName::from_bytes(header_name.as_bytes()).unwrap();
        let mut value = HeaderValue::from_str(key).unwrap();
        value.set_sensitive(true);
        self.set(HeaderField { name, value })
    }

    /// Adds a pair to the query of every request (such as `?api_key=abc`).
    pub fn api_key_query(self, param_name: &str, key: &str) -> (builder: Self)
        ensures
            builder@ == (BuilderView {
                static_query_params: self@.static_query_params.push((param_name@, key@)),
                ..self@
            }),
    {
        proof {
            use_type_invariant(&self);
        }
        let ghost before = pairs_view(self.static_query_params@);
        let mut static_query_params = self.static_query_params;
        static_query_params.push((param_name.to_owned(), key.to_owned()));
        assert(pairs_view(static_query_params@) =~= before.push((param_name@, key@)));
        OpenApiToolsetBuilder { static_query_params, ..self }
    }

    /// Sets HTTP Basic authentication for every request.
    pub fn basic_auth(self, username: &str, password: &str) -> (builder: Self)
        ensures
            builder@ == (BuilderView { basic_auth: Some((username@, password@)), ..self@ }),
    {
        proof {
            use_type_invariant(&self);
        }
        OpenApiToolsetBuilder {
            basic_auth: Some((username.to_owned(), password.to_owned())),
            ..self
        }
    }

    /// Reads the text and makes the tools. Where no client was set, whether there is
    /// one depends on the machine.
    pub fn build(self) -> (built: Result<OpenApiToolset, BuildError>)
        requires
            reads_once(self@.spec_str),
        ensures
            is_built_toolset(self@, built),
    {
        proof {
            use_type_invariant(&self);
        }
        let ghost builder = self@;
        let client = match self.client {
            Some(client) => client,
            None => match build_client(map_of_fields(&self.default_headers)) {
                Ok(client) => client,
                Err(error) => {
                    return Err(BuildError::Client(error));
                },
            },
        };
        let config = ToolConfig {
            base_url: self.base_url,
            client,
            fields: self.default_headers,
            hidden_context: self.hidden_context,
            static_query_params: self.static_query_params,
            basic_auth: self.basic_auth,
        };
        assert(config@ =~= built_config(builder, client));
        OpenApiToolset::build_inner(self.spec_str.as_str(), &config)
    }

    /// Does what [`OpenApiToolsetBuilder::build`] does, for a text that is sure to be
    /// read at the first try.
    pub fn try_build(self) -> (tried: Option<Result<OpenApiToolset, BuildError>>)
        ensures
            tried is Some <==> is_sure_text(self@.spec_str),
            tried matches Some(built) ==> is_built_toolset(self@, built),
    {
        if surely_reads_once(self.spec_str.as_str()) {
            Some(self.build())
        } else {
            None
        }
    }
}

impl OpenApiToolset {
    /// Starts with the text of a description, in YAML or JSON.
    pub fn builder(spec_str: &str) -> (builder: OpenApiToolsetBuilder)
        ensures
            builder@ == nothing_set(spec_str@),
    {
        let builder = OpenApiToolsetBuilder {
            spec_str: spec_str.to_owned(),
            base_url: None,
            client: None,
            hidden_context: StrMap::new(),
            default_headers: Vec::new(),
            static_query_params: Vec::new(),
            basic_auth: None,
        };
        assert(builder@ =~= nothing_set(spec_str@));
        builder
    }
}

} // verus!
