//! Requests, header fields and clients of the `reqwest` crate.

use vstd::prelude::*;

use reqwest::header::{HeaderMap, HeaderName, HeaderValue, InvalidHeaderName, InvalidHeaderValue};
use vstd::utf8::encode_utf8;

use crate::json::JsonView;
use crate::serde_value::value_json;

verus! {

/// Declares `reqwest::Client`; [`client_fields`] are the fields it adds to requests.
#[verifier::external_type_specification]
#[verifier::external_body]
pub struct ExClient(reqwest::Client);

/// Declares `reqwest::RequestBuilder`, a request that is being put together.
#[verifier::external_type_specification]
#[verifier::external_body]
pub struct ExRequestBuilder(reqwest::RequestBuilder);

/// Declares `reqwest::Error`, the reason why there is no client.
#[verifier::external_type_specification]
#[verifier::external_body]
pub struct ExReqwestError(reqwest::Error);

/// Declares `reqwest::header::HeaderMap`; [`header_fields`] is what one holds.
#[verifier::external_type_specification]
#[verifier::external_body]
#[verifier::reject_recursive_types(T)]
pub struct ExHeaderMap<T>(HeaderMap<T>);

/// Declares `reqwest::header::HeaderName`; [`field_name`] is what one says.
#[verifier::external_type_specification]
#[verifier::external_body]
pub struct ExHeaderName(HeaderName);

/// Declares `reqwest::header::HeaderValue`; [`field_value`] is what one says.
#[verifier::external_type_specification]
#[verifier::external_body]
pub struct ExHeaderValue(HeaderValue);

/// Declares `reqwest::header::InvalidHeaderName`.
#[verifier::external_type_specification]
#[verifier::external_body]
pub struct ExInvalidHeaderName(InvalidHeaderName);

/// Declares `reqwest::header::InvalidHeaderValue`.
#[verifier::external_type_specification]
#[verifier::external_body]
pub struct ExInvalidHeaderValue(InvalidHeaderValue);

/// A header map with at most this many names takes one more, whatever the names are.
pub const MAX_HEADER_NAMES: usize = 6553;

/// The value of a header field: its bytes, and whether it is to be kept out of logs.
pub type FieldValue = (Seq<u8>, bool);

/// A header field as a view: its name in lower case, and its value.
pub type FieldView = (Seq<u8>, FieldValue);

/// What a header name says, in lower case.
pub uninterp spec fn field_name(name: HeaderName) -> Seq<u8>;

/// What a header value says, and whether it is sensitive.
pub uninterp spec fn field_value(value: HeaderValue) -> FieldValue;

/// The fields of a header map: the values of each name, in order.
pub uninterp spec fn header_fields(map: HeaderMap<HeaderValue>) -> Map<Seq<u8>, Seq<FieldValue>>;

/// The fields that a client adds to each request that lacks them.
pub uninterp spec fn client_fields(client: reqwest::Client) -> Map<Seq<u8>, FieldValue>;

/// How many different header names a request has so far.
pub uninterp spec fn header_names(request: reqwest::RequestBuilder) -> nat;

/// The request that a client starts with a method and a URL.
pub uninterp spec fn started(
    client: reqwest::Client,
    method: Seq<char>,
    url: Seq<char>,
) -> reqwest::RequestBuilder;

/// The request with pairs added to its query.
pub uninterp spec fn with_query(
    request: reqwest::RequestBuilder,
    pairs: Seq<(Seq<char>, Seq<char>)>,
) -> reqwest::RequestBuilder;

/// The request with a header field added.
pub uninterp spec fn with_header(
    request: reqwest::RequestBuilder,
    name: Seq<char>,
    value: Seq<char>,
) -> reqwest::RequestBuilder;

/// The request with a header field added that was checked before.
pub uninterp spec fn with_field(
    request: reqwest::RequestBuilder,
    name: Seq<u8>,
    value: FieldValue,
) -> reqwest::RequestBuilder;

/// The request with the `Authorization` field of HTTP Basic authentication added.
pub uninterp spec fn with_basic_auth(
    request: reqwest::RequestBuilder,
    username: Seq<char>,
    password: Seq<char>,
) -> reqwest::RequestBuilder;

/// The request with a JSON body.
pub uninterp spec fn with_json(
    request: reqwest::RequestBuilder,
    body: JsonView,
) -> reqwest::RequestBuilder;

/// A byte that can stand in a header name.
pub open spec fn is_name_byte(b: u8) -> bool {
    ||| '0' as u8 <= b <= '9' as u8
    ||| 'A' as u8 <= b <= 'Z' as u8
    ||| 'a' as u8 <= b <= 'z' as u8
    ||| b == '!' as u8 || b == '#' as u8 || b == '$' as u8 || b == '%' as u8
    ||| b == '&' as u8 || b == '\'' as u8 || b == '*' as u8 || b == '+' as u8
    ||| b == '-' as u8 || b == '.' as u8 || b == '^' as u8 || b == '_' as u8
    ||| b == '`' as u8 || b == '|' as u8 || b == '~' as u8
}

/// Bytes that make a header name.
pub open spec fn is_field_name(bytes: Seq<u8>) -> bool {
    &&& 0 < bytes.len() <= 65535
    &&& forall|i: int| 0 <= i < bytes.len() ==> is_name_byte(#[trigger] bytes[i])
}

/// Bytes that make a header value.
pub open spec fn is_field_value(bytes: Seq<u8>) -> bool {
    forall|i: int|
        0 <= i < bytes.len() ==> (#[trigger] bytes[i]) == '\t' as u8 || (bytes[i] >= 32 && bytes[i]
            != 127)
}

/// Bytes with the ASCII letters in lower case.
pub open spec fn lower_case(bytes: Seq<u8>) -> Seq<u8> {
    bytes.map_values(
        |b: u8|
            if 'A' as u8 <= b <= 'Z' as u8 {
                (b + 32) as u8
            } else {
                b
            },
    )
}

/// The fields that a client adds to requests when it is built with these fields as
/// its defaults: the last value of each, and `accept: */*` if that name is not there.
pub open spec fn default_fields(fields: Map<Seq<u8>, Seq<FieldValue>>) -> Map<Seq<u8>, FieldValue> {
    let given = Map::new(
        |name: Seq<u8>| fields.contains_key(name) && fields[name].len() > 0,
        |name: Seq<u8>| fields[name].last(),
    );
    Map::empty().insert(encode_utf8("accept"@), (encode_utf8("*/*"@), false)).union_prefer_right(
        given,
    )
}

/// `HeaderValue::from_str`: bytes that make a header value are taken as they are, and
/// the value is not sensitive; others are an error.
pub assume_specification[ HeaderValue::from_str ](src: &str) -> (value: Result<
    HeaderValue,
    InvalidHeaderValue,
>)
    ensures
        match value {
            Ok(value) => is_field_value(encode_utf8(src@)) && field_value(value) == (
                encode_utf8(src@),
                false,
            ),
            Err(_) => !is_field_value(encode_utf8(src@)),
        },
;

/// `HeaderValue::set_sensitive`: the mark is set, the bytes stay.
pub assume_specification[ HeaderValue::set_sensitive ](value: &mut HeaderValue, val: bool)
    ensures
        field_value(*final(value)) == (field_value(*old(value)).0, val),
;

/// `HeaderName::from_bytes`: bytes that make a header name are taken in lower case;
/// others are an error.
pub assume_specification[ HeaderName::from_bytes ](src: &[u8]) -> (name: Result<
    HeaderName,
    InvalidHeaderName,
>)
    ensures
        match name {
            Ok(name) => is_field_name(src@) && field_name(name) == lower_case(src@),
            Err(_) => !is_field_name(src@),
        },
;

/// `HeaderMap::new`: no fields.
#[verifier::external_body]
pub(crate) fn no_fields() -> (map: HeaderMap<HeaderValue>)
    ensures
        header_fields(map).dom() == Set::<Seq<u8>>::empty(),
{
    HeaderMap::new()
}

/// The constant `reqwest::header::AUTHORIZATION`.
#[verifier::external_body]
pub(crate) fn authorization() -> (name: HeaderName)
    ensures
        field_name(name) == encode_utf8("authorization"@),
{
    reqwest::header::AUTHORIZATION
}

/// `HeaderMap::insert`: the value is the only one of that name from now on. With too
/// many names in the map it would panic.
#[verifier::external_body]
pub(crate) fn set_field(map: &mut HeaderMap<HeaderValue>, name: HeaderName, value: HeaderValue)
    requires
        header_fields(*old(map)).dom().len() <= MAX_HEADER_NAMES,
    ensures
        header_fields(*final(map)) == header_fields(*old(map)).insert(
            field_name(name),
            seq![field_value(value)],
        ),
{
    map.insert(name, value);
}

/// `ClientBuilder::default_headers` and `ClientBuilder::build`: whether there is a
/// client depends on the machine (its TLS set-up); one that is built adds the given
/// fields to its requests.
#[verifier::external_body]
pub(crate) fn build_client(fields: HeaderMap<HeaderValue>) -> (client: Result<
    reqwest::Client,
    reqwest::Error,
>)
    requires
        header_fields(fields).dom().len() < MAX_HEADER_NAMES,
    ensures
        client matches Ok(client) ==> client_fields(client) == default_fields(
            header_fields(fields),
        ),
{
    reqwest::Client::builder().default_headers(fields).build()
}

/// `Clone` of `reqwest::Client`: the same client, shared.
pub assume_specification[ <reqwest::Client as Clone>::clone ](client: &reqwest::Client) -> (copy:
    reqwest::Client)
    ensures
        copy == *client,
;

/// `Client::get`. The request has at most one header name, from a user in the URL.
#[verifier::external_body]
pub(crate) fn start_get(client: &reqwest::Client, url: &str) -> (request: reqwest::RequestBuilder)
    ensures
        request == started(*client, "GET"@, url@),
        header_names(request) <= 1,
{
    client.get(url)
}

/// `Client::post`. The request has at most one header name, from a user in the URL.
#[verifier::external_body]
pub(crate) fn start_post(client: &reqwest::Client, url: &str) -> (request: reqwest::RequestBuilder)
    ensures
        request == started(*client, "POST"@, url@),
        header_names(request) <= 1,
{
    client.post(url)
}

/// `Client::put`. The request has at most one header name, from a user in the URL.
#[verifier::external_body]
pub(crate) fn start_put(client: &reqwest::Client, url: &str) -> (request: reqwest::RequestBuilder)
    ensures
        request == started(*client, "PUT"@, url@),
        header_names(request) <= 1,
{
    client.put(url)
}

/// `Client::patch`. The request has at most one header name, from a user in the URL.
#[verifier::external_body]
pub(crate) fn start_patch(client: &reqwest::Client, url: &str) -> (request: reqwest::RequestBuilder)
    ensures
        request == started(*client, "PATCH"@, url@),
        header_names(request) <= 1,
{
    client.patch(url)
}

/// `Client::delete`. The request has at most one header name, from a user in the URL.
#[verifier::external_body]
pub(crate) fn start_delete(client: &reqwest::Client, url: &str) -> (request:
    reqwest::RequestBuilder)
    ensures
        request == started(*client, "DELETE"@, url@),
        header_names(request) <= 1,
{
    client.delete(url)
}

/// `Client::head`. The request has at most one header name, from a user in the URL.
#[verifier::external_body]
pub(crate) fn start_head(client: &reqwest::Client, url: &str) -> (request: reqwest::RequestBuilder)
    ensures
        request == started(*client, "HEAD"@, url@),
        header_names(request) <= 1,
{
    client.head(url)
}

/// `Client::request` with `OPTIONS`. The request has at most one header name, from a
/// user in the URL.
#[verifier::external_body]
pub(crate) fn start_options(client: &reqwest::Client, url: &str) -> (request:
    reqwest::RequestBuilder)
    ensures
        request == started(*client, "OPTIONS"@, url@),
        header_names(request) <= 1,
{
    client.request(reqwest::Method::OPTIONS, url)
}

/// `Client::request` with `TRACE`. The request has at most one header name, from a
/// user in the URL.
#[verifier::external_body]
pub(crate) fn start_trace(client: &reqwest::Client, url: &str) -> (request:
    reqwest::RequestBuilder)
    ensures
        request == started(*client, "TRACE"@, url@),
        header_names(request) <= 1,
{
    client.request(reqwest::Method::TRACE, url)
}

/// The pairs of a query, as characters.
pub open spec fn pairs_view(pairs: Seq<(String, String)>) -> Seq<(Seq<char>, Seq<char>)> {
    pairs.map_values(|pair: (String, String)| (pair.0@, pair.1@))
}

/// `RequestBuilder::query` with a list of pairs. It adds no header field.
#[verifier::external_body]
pub(crate) fn add_query(request: reqwest::RequestBuilder, pairs: &Vec<(String, String)>) -> (result:
    reqwest::RequestBuilder)
    ensures
        result == with_query(request, pairs_view(pairs@)),
        header_names(result) <= header_names(request),
{
    request.query(pairs)
}

/// `RequestBuilder::header`. It adds one header field; with too many names in the
/// request it would panic.
#[verifier::external_body]
pub(crate) fn add_header(request: reqwest::RequestBuilder, name: &str, value: &str) -> (result:
    reqwest::RequestBuilder)
    requires
        header_names(request) <= MAX_HEADER_NAMES,
    ensures
        result == with_header(request, name@, value@),
        header_names(result) <= header_names(request) + 1,
{
    request.header(name, value)
}

/// `RequestBuilder::header` with a name and a value that were checked before. It adds
/// one header field; with too many names in the request it would panic.
#[verifier::external_body]
pub(crate) fn add_field(
    request: reqwest::RequestBuilder,
    name: &HeaderName,
    value: &HeaderValue,
) -> (result: reqwest::RequestBuilder)
    requires
        header_names(request) <= MAX_HEADER_NAMES,
    ensures
        result == with_field(request, field_name(*name), field_value(*value)),
        header_names(result) <= header_names(request) + 1,
{
    request.header(name, value)
}

/// `RequestBuilder::basic_auth` with a password. It adds one header field; with too
/// many names in the request it would panic.
#[verifier::external_body]
pub(crate) fn add_basic_auth(
    request: reqwest::RequestBuilder,
    username: &str,
    password: &str,
) -> (result: reqwest::RequestBuilder)
    requires
        header_names(request) <= MAX_HEADER_NAMES,
    ensures
        result == with_basic_auth(request, username@, password@),
        header_names(result) <= header_names(request) + 1,
{
    request.basic_auth(username, Some(password))
}

/// `RequestBuilder::json` with a `serde_json::Value`. It adds one header field at
/// most; with too many names in the request it would panic.
#[verifier::external_body]
pub(crate) fn add_json(request: reqwest::RequestBuilder, body: &serde_json::Value) -> (result:
    reqwest::RequestBuilder)
    requires
        header_names(request) <= MAX_HEADER_NAMES,
    ensures
        result == with_json(request, value_json(*body)),
        header_names(result) <= header_names(request) + 1,
{
    request.json(body)
}

/// `Clone` of `HeaderName`: the same name.
pub assume_specification[ <HeaderName as Clone>::clone ](name: &HeaderName) -> (copy: HeaderName)
    ensures
        copy == *name,
;

/// `Clone` of `HeaderValue`: the same value, with the same mark.
pub assume_specification[ <HeaderValue as Clone>::clone ](value: &HeaderValue) -> (copy:
    HeaderValue)
    ensures
        copy == *value,
;

/// `PartialEq` of `HeaderName`: names are the same if they say the same.
#[verifier::external_body]
fn same_name(a: &HeaderName, b: &HeaderName) -> (same: bool)
    ensures
        same == (field_name(*a) == field_name(*b)),
{
    a == b
}

/// A header field that is sent with every request.
#[derive(Debug, PartialEq)]
pub struct HeaderField {
    pub name: HeaderName,
    pub value: HeaderValue,
}

impl View for HeaderField {
    type V = FieldView;

    open spec fn view(&self) -> FieldView {
        (field_name(self.name), field_value(self.value))
    }
}

/// The views of a list of header fields.
pub open spec fn fields_view(fields: Seq<HeaderField>) -> Seq<FieldView> {
    fields.map_values(|field: HeaderField| field@)
}

/// The fields of other names.
pub open spec fn without_name(fields: Seq<FieldView>, name: Seq<u8>) -> Seq<FieldView>
    decreases fields.len(),
{
    if fields.len() == 0 {
        Seq::empty()
    } else {
        let before = without_name(fields.drop_last(), name);
        if fields.last().0 == name {
            before
        } else {
            before.push(fields.last())
        }
    }
}

/// The fields with one set: it takes the place of an earlier one of its name.
pub open spec fn with_field_set(
    fields: Seq<FieldView>,
    name: Seq<u8>,
    value: FieldValue,
) -> Seq<FieldView> {
    without_name(fields, name).push((name, value))
}

/// What a header map holds once the fields are inserted in order.
pub open spec fn field_map(fields: Seq<FieldView>) -> Map<Seq<u8>, Seq<FieldValue>>
    decreases fields.len(),
{
    if fields.len() == 0 {
        Map::empty()
    } else {
        field_map(fields.drop_last()).insert(fields.last().0, seq![fields.last().1])
    }
}

/// No two fields have the same name.
pub open spec fn distinct_names(fields: Seq<FieldView>) -> bool {
    forall|i: int, j: int|
        0 <= i < j < fields.len() ==> (#[trigger] fields[i]).0 != (#[trigger] fields[j]).0
}

/// The fields of other names are those of the list that have another name.
pub proof fn lemma_without_name(fields: Seq<FieldView>, name: Seq<u8>)
    ensures
        without_name(fields, name).len() <= fields.len(),
        forall|field: FieldView| #[trigger]
            without_name(fields, name).contains(field) <==> fields.contains(field) && field.0
                != name,
        distinct_names(fields) ==> distinct_names(without_name(fields, name)),
    decreases fields.len(),
{
    if fields.len() > 0 {
        let front = fields.drop_last();
        let last = fields.last();
        let before = without_name(front, name);
        let rest = without_name(fields, name);
        lemma_without_name(front, name);
        assert forall|field: FieldView| #[trigger] rest.contains(field) <==> fields.contains(field)
            && field.0 != name by {
            if rest.contains(field) {
                let i = choose|i: int| 0 <= i < rest.len() && rest[i] == field;
                if i < before.len() {
                    assert(before.contains(before[i]));
                    let j = choose|j: int| 0 <= j < front.len() && front[j] == field;
                    assert(fields[j] == field);
                } else {
                    assert(fields[fields.len() - 1] == field);
                }
            }
            if fields.contains(field) && field.0 != name {
                let j = choose|j: int| 0 <= j < fields.len() && fields[j] == field;
                if j < front.len() {
                    assert(front[j] == field);
                    assert(before.contains(field));
                    let i = choose|i: int| 0 <= i < before.len() && before[i] == field;
                    assert(rest[i] == field);
                } else {
                    assert(rest[before.len() as int] == field);
                }
            }
        }
        if distinct_names(fields) {
            assert(distinct_names(front)) by {
                assert(forall|i: int| 0 <= i < front.len() ==> (#[trigger] front[i]) == fields[i]);
            }
            assert forall|i: int, j: int| 0 <= i < j < rest.len() implies (#[trigger] rest[i]).0
                != (#[trigger] rest[j]).0 by {
                if j < before.len() {
                    assert(before[i].0 != before[j].0);
                } else {
                    assert(before.contains(before[i]));
                    let k = choose|k: int| 0 <= k < front.len() && front[k] == before[i];
                    assert(fields[k].0 != fields[fields.len() - 1].0);
                }
            }
        }
    }
}

/// Sets a field in a list.
pub fn put_field(fields: Vec<HeaderField>, field: HeaderField) -> (result: Vec<HeaderField>)
    ensures
        fields_view(result@) == with_field_set(fields_view(fields@), field@.0, field@.1),
{
    let ghost all = fields_view(fields@);
    let mut result: Vec<HeaderField> = Vec::new();
    assert(all.take(0) =~= Seq::empty());
    assert(fields_view(result@) =~= Seq::empty());
    for held in it: fields.into_iter()
        invariant
            it.seq() == fields@,
            all == fields_view(fields@),
            fields_view(result@) == without_name(all.take(it.index() as int), field@.0),
    {
        assert(all.take(it.index() + 1).drop_last() =~= all.take(it.index() as int));
        assert(all.take(it.index() + 1).last() == held@);
        if !same_name(&held.name, &field.name) {
            let ghost before = result@;
            result.push(held);
            assert(fields_view(result@) =~= fields_view(before).push(held@));
        }
    }
    assert(all.take(all.len() as int) =~= all);
    let ghost before = result@;
    result.push(field);
    assert(fields_view(result@) =~= fields_view(before).push(field@));
    result
}

/// A copy of a list of header fields.
pub fn copy_fields(fields: &Vec<HeaderField>) -> (copy: Vec<HeaderField>)
    ensures
        fields_view(copy@) == fields_view(fields@),
{
    let mut copy: Vec<HeaderField> = Vec::new();
    let mut i: usize = 0;
    while i < fields.len()
        invariant
            i <= fields@.len(),
            copy@.len() == i,
            forall|j: int| 0 <= j < i ==> (#[trigger] copy@[j])@ == fields@[j]@,
        decreases fields@.len() - i,
    {
        copy.push(HeaderField { name: fields[i].name.clone(), value: fields[i].value.clone() });
        i += 1;
    }
    assert(fields_view(copy@) =~= fields_view(fields@));
    copy
}

/// The header map that holds the fields of a list.
pub(crate) fn map_of_fields(fields: &Vec<HeaderField>) -> (map: HeaderMap<HeaderValue>)
    requires
        fields@.len() < MAX_HEADER_NAMES,
    ensures
        header_fields(map) == field_map(fields_view(fields@)),
        header_fields(map).dom().len() < MAX_HEADER_NAMES,
{
    let ghost all = fields_view(fields@);
    let mut map = no_fields();
    let mut i: usize = 0;
    assert(all.take(0) =~= Seq::empty());
    assert(header_fields(map) =~= field_map(all.take(0)));
    while i < fields.len()
        invariant
            i <= fields@.len(),
            fields@.len() < MAX_HEADER_NAMES,
            all == fields_view(fields@),
            header_fields(map) == field_map(all.take(i as int)),
            header_fields(map).dom().finite(),
            header_fields(map).dom().len() <= i,
        decreases fields@.len() - i,
    {
        assert(all.take(i + 1).drop_last() =~= all.take(i as int));
        set_field(&mut map, fields[i].name.clone(), fields[i].value.clone());
        i += 1;
    }
    assert(all.take(i as int) =~= all);
    map
}

} // verus!
