//! The exchange with the upstream provider: what is sent to it, and what becomes of its
//! reply.

use crate::config::{RawTier, Tier};
use crate::environment::resolved;
use crate::json::{
    contents, fields, get_field, parse_document, parsed, set_field, string_value, takes_fields,
    Json,
};
use crate::text::{decimal, decimal_string};
use serde_json::Value;
use vstd::prelude::*;

verus! {

/// A request to an upstream provider.
#[derive(Debug)]
pub struct UpstreamRequest {
    /// Where to send it
    pub url: String,
    /// Header names and values
    pub headers: Vec<(String, String)>,
    /// The JSON body
    pub body: Value,
    /// Whether the client asked for a streamed reply
    pub stream: bool,
}

/// What is to be done with a reply whose status has arrived.
#[derive(Debug, PartialEq, Eq, Structural, Clone, Copy)]
pub enum Reply {
    /// Read the text and report an upstream error
    Failure,
    /// Relay the bytes as they come
    EventStream,
    /// Read the text and relay it as one JSON document
    Document,
}

/// Why a request was not answered.
#[derive(Debug)]
pub enum ForwardError {
    /// The provider answered with an error status.
    Upstream { status: u16, text: String },
    /// The provider's reply is not a JSON document.
    InvalidDocument(serde_json::Error),
}

/// The contents of a list of headers.
pub open spec fn header_views(headers: Seq<(String, String)>) -> Seq<(Seq<char>, Seq<char>)> {
    headers.map_values(|h: (String, String)| (h.0@, h.1@))
}

/// The header by which a tier authenticates: `Authorization` with a bearer token, or
/// the key under the header that the tier names.
pub open spec fn auth_view(tier: Tier) -> (Seq<char>, Seq<char>) {
    if tier.auth_header@ == "Bearer"@ {
        ("Authorization"@, "Bearer "@ + tier.api_key@)
    } else {
        (tier.auth_header@, tier.api_key@)
    }
}

/// The body asks for a streamed reply: its field `stream` is `true`.
pub open spec fn wants_stream(body: Json) -> bool {
    fields(body).contains_key("stream"@) && fields(body)["stream"@] == Json::Bool(true)
}

/// The body with its field `model` set.
pub open spec fn with_model(body: Json, model: Seq<char>) -> Json {
    Json::Object(fields(body).insert("model"@, Json::Text(model)))
}

impl UpstreamRequest {
    /// The request sends the body to the tier: to its completions endpoint, with its
    /// model and its authentication.
    pub open spec fn sends(self, tier: Tier, body: Json) -> bool {
        &&& self.url@ == tier.api_base@ + "/v1/chat/completions"@
        &&& header_views(self.headers@) == seq![
            ("Content-Type"@, "application/json"@),
            auth_view(tier),
        ]
        &&& contents(self.body) == with_model(body, tier.model@)
        &&& self.stream == wants_stream(body)
    }
}

/// The header by which a tier authenticates.
pub fn auth_header(tier: &Tier) -> (res: (String, String))
    ensures
        (res.0@, res.1@) == auth_view(*tier),
        tier.auth_header@ == "Bearer"@ ==> res.0@ == "Authorization"@ && res.1@ == "Bearer "@
            + tier.api_key@,
        tier.auth_header@ != "Bearer"@ ==> res.0@ == tier.auth_header@ && res.1@ == tier.api_key@,
{
    if tier.auth_header == "Bearer".to_owned() {
        let mut value = "Bearer ".to_owned();
        value.append(tier.api_key.as_str());
        ("Authorization".to_owned(), value)
    } else {
        (tier.auth_header.clone(), tier.api_key.clone())
    }
}

/// Whether the body asks for a streamed reply.
pub fn is_streamed(body: &Value) -> (res: bool)
    ensures
        res == wants_stream(contents(*body)),
        res <==> (contents(*body) matches Json::Object(map) && map.contains_key("stream"@)
            && map["stream"@] == Json::Bool(true)),
{
    match get_field(body, "stream") {
        Some(field) => match field.as_bool() {
            Some(flag) => flag,
            None => false,
        },
        None => false,
    }
}

/// The request that forwards a body to the selected upstream provider.
///
/// Replaces the `model` field in the JSON body with the tier's model and adds the
/// appropriate authentication header.
pub fn forward_request(tier: &Tier, body: Value) -> (res: UpstreamRequest)
    requires
        takes_fields(contents(body)),
    ensures
        res.sends(*tier, contents(body)),
        res.url@ == tier.api_base@ + "/v1/chat/completions"@,
        contents(body) matches Json::Object(map) ==> contents(res.body) == Json::Object(
            map.insert("model"@, Json::Text(tier.model@)),
        ),
        contents(body) is Null ==> contents(res.body) == Json::Object(
            Map::empty().insert("model"@, Json::Text(tier.model@)),
        ),
        res.headers@.len() == 2,
        res.headers@[0].0@ == "Content-Type"@ && res.headers@[0].1@ == "application/json"@,
        tier.auth_header@ == "Bearer"@ ==> res.headers@[1].0@ == "Authorization"@
            && res.headers@[1].1@ == "Bearer "@ + tier.api_key@,
        tier.auth_header@ != "Bearer"@ ==> res.headers@[1].0@ == tier.auth_header@
            && res.headers@[1].1@ == tier.api_key@,
        res.stream <==> (contents(body) matches Json::Object(map) && map.contains_key("stream"@)
            && map["stream"@] == Json::Bool(true)),
{
    let mut body = body;
    let ghost given = contents(body);
    set_field(&mut body, "model", string_value(tier.model.clone()));

    let mut url = tier.api_base.clone();
    url.append("/v1/chat/completions");
    let stream = is_streamed(&body);
    proof {
        reveal_strlit("model");
        reveal_strlit("stream");
        assert("model"@.len() != "stream"@.len());
        assert(wants_stream(contents(body)) == wants_stream(given));
    }

    let mut headers: Vec<(String, String)> = Vec::new();
    headers.push(("Content-Type".to_owned(), "application/json".to_owned()));
    headers.push(auth_header(tier));
    assert(header_views(headers@) =~= seq![
        ("Content-Type"@, "application/json"@),
        auth_view(*tier),
    ]);
    let res = UpstreamRequest { url, headers, body, stream };
    proof {
        law_request_headers(res, *tier, given);
    }
    res
}

/// The request that forwards a body as [`forward_request`] does, or none where the body
/// is a document that cannot have a `model` field.
pub fn try_forward_request(tier: &Tier, body: Value) -> (res: Option<UpstreamRequest>)
    ensures
        match res {
            Some(request) => takes_fields(contents(body)) && request.sends(*tier, contents(body)),
            None => !takes_fields(contents(body)),
        },
{
    if body.is_object() || body.is_null() {
        Some(forward_request(tier, body))
    } else {
        None
    }
}

/// The status tells of success.
pub open spec fn is_success(status: u16) -> bool {
    200 <= status < 300
}

/// What is to be done with a reply, by its status and by whether a stream was asked for.
pub fn classify_reply(status: u16, stream: bool) -> (res: Reply)
    ensures
        res == (if !is_success(status) {
            Reply::Failure
        } else if stream {
            Reply::EventStream
        } else {
            Reply::Document
        }),
        res is Failure <==> status < 200 || status > 299,
        res is EventStream <==> 200 <= status <= 299 && stream,
{
    if status < 200 || status >= 300 {
        Reply::Failure
    } else if stream {
        Reply::EventStream
    } else {
        Reply::Document
    }
}

/// The message that tells of an upstream error.
pub fn upstream_error(status: u16, text: &str) -> (res: String)
    ensures
        res@ == "Upstream error "@ + decimal(status as nat) + ": "@ + text@,
{
    let mut res = "Upstream error ".to_owned();
    res.append(decimal_string(status as u128).as_str());
    res.append(": ");
    res.append(text);
    res
}

/// The headers of a streamed reply.
pub fn stream_headers() -> (res: Vec<(String, String)>)
    ensures
        header_views(res@) == seq![
            ("Content-Type"@, "text/event-stream"@),
            ("Cache-Control"@, "no-cache"@),
            ("Connection"@, "keep-alive"@),
        ],
{
    let mut res: Vec<(String, String)> = Vec::new();
    res.push(("Content-Type".to_owned(), "text/event-stream".to_owned()));
    res.push(("Cache-Control".to_owned(), "no-cache".to_owned()));
    res.push(("Connection".to_owned(), "keep-alive".to_owned()));
    assert(header_views(res@) =~= seq![
        ("Content-Type"@, "text/event-stream"@),
        ("Cache-Control"@, "no-cache"@),
        ("Connection"@, "keep-alive"@),
    ]);
    res
}

/// The reply that a parsed document makes.
pub fn document_reply(document: Result<Value, serde_json::Error>) -> (res: Result<
    Value,
    ForwardError,
>)
    ensures
        res == (match document {
            Ok(value) => Ok(value),
            Err(e) => Err(ForwardError::InvalidDocument(e)),
        }),
{
    match document {
        Ok(value) => Ok(value),
        Err(e) => Err(ForwardError::InvalidDocument(e)),
    }
}

/// Reads a reply that came as one text: the JSON document that it is, or the upstream
/// error that its status tells of.
pub fn read_reply(status: u16, text: String) -> (res: Result<Value, ForwardError>)
    ensures
        match res {
            Ok(value) => is_success(status) && parsed(text@) == Some(contents(value)),
            Err(ForwardError::InvalidDocument(_)) => is_success(status) && parsed(text@) is None,
            Err(ForwardError::Upstream { status: s, text: t }) => !is_success(status) && s == status
                && t == text,
        },
        res is Ok <==> 200 <= status <= 299 && parsed(text@) is Some,
        res matches Err(error) ==> (error is Upstream <==> status < 200 || status > 299),
{
    if status < 200 || status >= 300 {
        return Err(ForwardError::Upstream { status, text });
    }
    document_reply(parse_document(text.as_str()))
}

/// Forwarding changes nothing in the body but its model.
pub proof fn law_only_the_model_changes(body: Json, model: Seq<char>, key: Seq<char>)
    ensures
        fields(with_model(body, model))["model"@] == Json::Text(model),
        key != "model"@ ==> fields(with_model(body, model)).contains_key(key) == fields(
            body,
        ).contains_key(key),
        key != "model"@ && fields(body).contains_key(key) ==> fields(with_model(body, model))[key]
            == fields(body)[key],
{
}

/// The model of the last tier counts: what a client or an earlier tier had put there is
/// gone.
pub proof fn law_last_model_counts(body: Json, first: Seq<char>, last: Seq<char>)
    ensures
        with_model(with_model(body, first), last) == with_model(body, last),
{
    assert(fields(with_model(with_model(body, first), last)) =~= fields(with_model(body, last)));
}

/// A request to a tier goes to the whole base URL followed by the endpoint, and its body
/// is the given one with the model of the tier and no other change.
pub proof fn law_where_and_what_is_sent(request: UpstreamRequest, tier: Tier, body: Json)
    requires
        request.sends(tier, body),
    ensures
        request.url@ == tier.api_base@ + "/v1/chat/completions"@,
        body matches Json::Object(map) ==> contents(request.body) == Json::Object(
            map.insert("model"@, Json::Text(tier.model@)),
        ),
        body is Null ==> contents(request.body) == Json::Object(
            Map::empty().insert("model"@, Json::Text(tier.model@)),
        ),
        request.stream <==> (body matches Json::Object(map) && map.contains_key("stream"@)
            && map["stream"@] == Json::Bool(true)),
{
}

/// Tiers with different base URLs are never sent to the same URL.
pub proof fn law_different_bases_different_urls(
    request: UpstreamRequest,
    tier: Tier,
    body: Json,
    other_request: UpstreamRequest,
    other: Tier,
    other_body: Json,
)
    requires
        request.sends(tier, body),
        other_request.sends(other, other_body),
        tier.api_base@ != other.api_base@,
    ensures
        request.url@ != other_request.url@,
{
    let end = "/v1/chat/completions"@;
    if request.url@ == other_request.url@ {
        assert(request.url@.len() == tier.api_base@.len() + end.len());
        assert(request.url@.take(tier.api_base@.len() as int) =~= tier.api_base@);
        assert(request.url@.take(other.api_base@.len() as int) =~= other.api_base@);
    }
}

/// A request carries two headers: the type of its body, and the key of the tier, as a
/// bearer token or under the header that the tier names.
pub proof fn law_request_headers(request: UpstreamRequest, tier: Tier, body: Json)
    requires
        request.sends(tier, body),
    ensures
        request.headers@.len() == 2,
        request.headers@[0].0@ == "Content-Type"@,
        request.headers@[0].1@ == "application/json"@,
        tier.auth_header@ == "Bearer"@ ==> request.headers@[1].0@ == "Authorization"@
            && request.headers@[1].1@ == "Bearer "@ + tier.api_key@,
        tier.auth_header@ != "Bearer"@ ==> request.headers@[1].0@ == tier.auth_header@
            && request.headers@[1].1@ == tier.api_key@,
{
    let views = header_views(request.headers@);
    assert(views.len() == request.headers@.len());
    assert(views[0] == (request.headers@[0].0@, request.headers@[0].1@));
    assert(views[1] == (request.headers@[1].0@, request.headers@[1].1@));
}

/// From the file to the request: the resolved key of a raw tier is sent under the header
/// that the raw tier names, or as a bearer token where it names `Bearer`.
pub proof fn law_key_is_sent_as_the_file_says(
    raw: RawTier,
    name: Seq<char>,
    env: Map<Seq<char>, Seq<char>>,
    tier: Tier,
    request: UpstreamRequest,
    body: Json,
)
    requires
        tier.resolves(raw, name, env),
        request.sends(tier, body),
    ensures
        raw.auth_header@ != "Bearer"@ ==> request.headers@[1].0@ == raw.auth_header@
            && request.headers@[1].1@ == resolved(raw.api_key@, env),
        raw.auth_header@ == "Bearer"@ ==> request.headers@[1].0@ == "Authorization"@
            && request.headers@[1].1@ == "Bearer "@ + resolved(raw.api_key@, env),
        request.url@ == resolved(raw.api_base@, env) + "/v1/chat/completions"@,
{
    law_request_headers(request, tier, body);
}

/// The contents of a list of headers are the name and the value of each, in order.
pub proof fn law_header_views(headers: Seq<(String, String)>, k: int)
    ensures
        header_views(headers).len() == headers.len(),
        0 <= k < headers.len() ==> header_views(headers)[k].0 == headers[k].0@,
        0 <= k < headers.len() ==> header_views(headers)[k].1 == headers[k].1@,
{
}

/// Success is told by the statuses from 200 to 299, and by no others.
pub proof fn law_success_statuses(status: u16)
    ensures
        is_success(status) <==> status / 100 == 2,
{
}

} // verus!
