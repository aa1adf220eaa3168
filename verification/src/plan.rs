//! From a request to the HTTP call that answers it.

use crate::config::Endpoint;
use crate::policy::{policy_body, policy_request_body};
use crate::socketmap::{
    parse_socketmap_request, socketmap_bad_frame, socketmap_bad_frame_response,
    socketmap_bad_request, socketmap_bad_request_response, socketmap_request, ParsedRequest,
    SocketmapRequest,
};
use crate::tcp_lookup::{format_tcp_response, parse_tcp_request, tcp_invalid_request, tcp_lookup_key};
use vstd::prelude::*;
use vstd::string::StringSliceAdditionalSpecFns;
use vstd::utf8::encode_utf8;

verus! {

/// `url::Url`, carried as it is: nothing inside it is read here.
#[verifier::external_type_specification]
#[verifier::external_body]
pub struct ExUrl(url::Url);

/// `url::ParseError`, carried as it is.
#[verifier::external_type_specification]
#[verifier::external_body]
pub struct ExUrlParseError(url::ParseError);

/// The text of the URL that `url::Url::parse` makes of `input`, or `None`
/// where it refuses `input`.
pub uninterp spec fn parsed_url(input: Seq<char>) -> Option<Seq<char>>;

/// The text that a URL is written as.
pub uninterp spec fn url_text(url: url::Url) -> Seq<char>;

/// The text of a URL after a name and a value were appended to its query
/// string. The value is given by its bytes: the name stands for decoding
/// them as UTF-8, with U+FFFD for what is none, and appending the text.
pub uninterp spec fn with_query_pair(url: Seq<char>, name: Seq<char>, value: Seq<u8>) -> Seq<char>;

/// `Url::parse` accepts or refuses a text by the text alone; the contract
/// names the URL that it makes and says nothing of which texts it accepts.
pub assume_specification[ url::Url::parse ](input: &str) -> (r: Result<url::Url, url::ParseError>)
    ensures
        match r {
            Ok(url) => parsed_url(input@) == Some(url_text(url)),
            Err(_) => parsed_url(input@) is None,
        },
;

/// `Url::as_str` returns the text that the URL is written as.
pub assume_specification<'a>[ url::Url::as_str ](url: &'a url::Url) -> (text: &'a str)
    ensures
        text@ == url_text(*url),
;

/// Whether a URL has room for one more pair in its query string. The
/// URL keeps positions in its text as 32-bit numbers; a pair adds a
/// separator, `=`, and at most three bytes for each byte of the name and
/// nine for each byte of the value.
pub open spec fn room_for_pair(url: Seq<char>, name: Seq<char>, value: Seq<u8>) -> bool {
    encode_utf8(url).len() + 3 * encode_utf8(name).len() + 9 * value.len() + 2 <= u32::MAX
}

/// Calls `Url::query_pairs_mut` and, on what it returns,
/// `form_urlencoded::Serializer::append_pair`, with the value decoded as
/// UTF-8 by `String::from_utf8_lossy`. The contract names the URL's text
/// afterwards, as a function of its text before, the name and the value.
/// The call panics where a position in the text no longer fits 32 bits:
/// the `requires` keeps the text short enough.
#[verifier::external_body]
fn append_query_pair(url: &mut url::Url, name: &str, value: &[u8])
    requires
        room_for_pair(url_text(*old(url)), name@, value@),
    ensures
        url_text(*final(url)) == with_query_pair(url_text(*old(url)), name@, value@),
{
    url.query_pairs_mut().append_pair(name, &String::from_utf8_lossy(value));
}

/// Why no call can be made for a request.
#[derive(Debug, Clone, Copy, PartialEq, Eq)]
pub enum PlanError {
    /// The endpoint's target is no URL.
    InvalidTarget,
    /// The URL with its query would be longer than a URL can be.
    UrlTooLong,
}

/// The text of a URL with one more pair, where there is room for it.
pub open spec fn url_with_pair(url: Seq<char>, name: Seq<char>, value: Seq<u8>) -> Option<
    Seq<char>,
> {
    if room_for_pair(url, name, value) {
        Some(with_query_pair(url, name, value))
    } else {
        None
    }
}

/// Appends a pair to the query string of `url` where there is room for
/// it, and says whether it did.
pub fn append_pair_checked(url: &mut url::Url, name: &str, value: &[u8]) -> (done: bool)
    ensures
        done == room_for_pair(url_text(*old(url)), name@, value@),
        done ==> url_text(*final(url)) == with_query_pair(url_text(*old(url)), name@, value@),
        !done ==> *final(url) == *old(url),
{
    let used: u128 = url.as_str().as_bytes().len() as u128;
    let name_len: u128 = name.as_bytes().len() as u128;
    let value_len: u128 = value.len() as u128;
    if used + 3 * name_len + 9 * value_len + 2 <= 0xFFFF_FFFF {
        append_query_pair(url, name, value);
        true
    } else {
        false
    }
}

/// How a call is made.
#[derive(Debug, Clone, Copy, PartialEq, Eq)]
pub enum Method {
    /// GET, with the query in the URL.
    Get,
    /// POST, with the body as `application/x-www-form-urlencoded`.
    PostForm,
}

/// One header of a call.
pub struct Header {
    pub name: String,
    pub value: String,
}

/// One call to the backend.
pub struct BackendCall {
    pub method: Method,
    pub url: String,
    pub headers: Vec<Header>,
    pub body: Vec<u8>,
}

/// Headers as pairs of a name and a value.
pub open spec fn header_views(headers: Seq<Header>) -> Seq<(Seq<char>, Seq<char>)> {
    Seq::new(headers.len(), |i: int| (headers[i].name@, headers[i].value@))
}

/// The headers of every call: the endpoint's token and the agent.
pub open spec fn call_headers(auth_token: Seq<char>, user_agent: Seq<char>) -> Seq<
    (Seq<char>, Seq<char>),
> {
    seq![("X-Auth-Token"@, auth_token), ("User-Agent"@, user_agent)]
}

/// The headers of a call with a form body.
pub open spec fn form_headers(auth_token: Seq<char>, user_agent: Seq<char>) -> Seq<
    (Seq<char>, Seq<char>),
> {
    call_headers(auth_token, user_agent).push(
        ("Content-Type"@, "application/x-www-form-urlencoded"@),
    )
}

/// What to do about a request.
pub enum Plan {
    /// Answer at once, with these bytes.
    Reply(Vec<u8>),
    /// Make this call; the answer follows from what it gives.
    Call(BackendCall),
}

/// `BackendCall` as a mathematical value.
pub ghost struct CallView {
    pub method: Method,
    pub url: Seq<char>,
    pub headers: Seq<(Seq<char>, Seq<char>)>,
    pub body: Seq<u8>,
}

impl View for BackendCall {
    type V = CallView;

    open spec fn view(&self) -> CallView {
        CallView {
            method: self.method,
            url: self.url@,
            headers: header_views(self.headers@),
            body: self.body@,
        }
    }
}

/// `Plan` as a mathematical value.
pub ghost enum PlanView {
    Reply(Seq<u8>),
    Call(CallView),
}

impl View for Plan {
    type V = PlanView;

    open spec fn view(&self) -> PlanView {
        match self {
            Plan::Reply(bytes) => PlanView::Reply(bytes@),
            Plan::Call(call) => PlanView::Call(call@),
        }
    }
}

/// The view of what planning gave.
pub open spec fn planned(r: Result<Plan, PlanError>) -> Result<PlanView, PlanError> {
    match r {
        Ok(plan) => Ok(plan@),
        Err(e) => Err(e),
    }
}

/// A GET of `url`, where there is one, for this endpoint and agent.
pub open spec fn get_plan(
    url: Option<Seq<char>>,
    auth_token: Seq<char>,
    user_agent: Seq<char>,
) -> Result<PlanView, PlanError> {
    match url {
        Some(url) => Ok(
            PlanView::Call(
                CallView {
                    method: Method::Get,
                    url,
                    headers: call_headers(auth_token, user_agent),
                    body: Seq::empty(),
                },
            ),
        ),
        None => Err(PlanError::UrlTooLong),
    }
}

/// What to do about a TCP lookup request: a request that is no lookup is
/// answered at once; a lookup becomes a GET of the target with the key
/// as the query parameter `key`.
pub open spec fn tcp_lookup_plan_of(
    target: Seq<char>,
    auth_token: Seq<char>,
    user_agent: Seq<char>,
    request: Seq<u8>,
) -> Result<PlanView, PlanError> {
    match tcp_lookup_key(request) {
        None => Ok(PlanView::Reply(tcp_invalid_request())),
        Some(key) => match parsed_url(target) {
            None => Err(PlanError::InvalidTarget),
            Some(url) => get_plan(url_with_pair(url, "key"@, key), auth_token, user_agent),
        },
    }
}

/// What to do about a socketmap request: one that is no netstring, or
/// no lookup, is answered at once; a lookup becomes a GET of the target
/// with the query parameters `name` and `key`.
pub open spec fn socketmap_plan_of(
    target: Seq<char>,
    auth_token: Seq<char>,
    user_agent: Seq<char>,
    request: Seq<u8>,
) -> Result<PlanView, PlanError> {
    match socketmap_request(request) {
        ParsedRequest::BadFrame => Ok(PlanView::Reply(socketmap_bad_frame())),
        ParsedRequest::BadRequest => Ok(PlanView::Reply(socketmap_bad_request())),
        ParsedRequest::Query { map, key } => match parsed_url(target) {
            None => Err(PlanError::InvalidTarget),
            Some(url) => match url_with_pair(url, "name"@, map) {
                None => Err(PlanError::UrlTooLong),
                Some(named) => get_plan(url_with_pair(named, "key"@, key), auth_token, user_agent),
            },
        },
    }
}

/// What to do about a policy request: POST its lines, as a form body, to
/// the target as it is written.
pub open spec fn policy_plan_of(
    target: Seq<char>,
    auth_token: Seq<char>,
    user_agent: Seq<char>,
    request: Seq<u8>,
) -> PlanView {
    PlanView::Call(
        CallView {
            method: Method::PostForm,
            url: target,
            headers: form_headers(auth_token, user_agent),
            body: policy_body(request),
        },
    )
}

/// The headers of every call.
fn common_headers(endpoint: &Endpoint, user_agent: &str) -> (headers: Vec<Header>)
    ensures
        header_views(headers@) == call_headers(endpoint.auth_token@, user_agent@),
{
    let mut headers: Vec<Header> = Vec::new();
    headers.push(Header { name: "X-Auth-Token".to_owned(), value: endpoint.auth_token.clone() });
    headers.push(Header { name: "User-Agent".to_owned(), value: user_agent.to_owned() });
    assert(header_views(headers@) =~= call_headers(endpoint.auth_token@, user_agent@));
    headers
}

/// The GET of a URL, for this endpoint and agent.
fn get_call(url: &url::Url, endpoint: &Endpoint, user_agent: &str) -> (plan: Plan)
    ensures
        Ok::<PlanView, PlanError>(plan@) == get_plan(
            Some(url_text(*url)),
            endpoint.auth_token@,
            user_agent@,
        ),
{
    Plan::Call(
        BackendCall {
            method: Method::Get,
            url: url.as_str().to_owned(),
            headers: common_headers(endpoint, user_agent),
            body: Vec::new(),
        },
    )
}

/// Plans the answer to a TCP lookup request.
pub fn tcp_lookup_plan(endpoint: &Endpoint, request: &[u8], user_agent: &str) -> (r: Result<
    Plan,
    PlanError,
>)
    ensures
        planned(r) == tcp_lookup_plan_of(
            endpoint.target@,
            endpoint.auth_token@,
            user_agent@,
            request@,
        ),
{
    let key = match parse_tcp_request(request) {
        Some(key) => key,
        None => {
            return Ok(Plan::Reply(format_tcp_response(500, "Invalid request".as_bytes())));
        },
    };
    let mut url = match url::Url::parse(endpoint.target.as_str()) {
        Ok(url) => url,
        Err(_) => {
            return Err(PlanError::InvalidTarget);
        },
    };
    if !append_pair_checked(&mut url, "key", key.as_slice()) {
        return Err(PlanError::UrlTooLong);
    }
    Ok(get_call(&url, endpoint, user_agent))
}

/// Plans the answer to a socketmap request.
pub fn socketmap_plan(endpoint: &Endpoint, request: &[u8], user_agent: &str) -> (r: Result<
    Plan,
    PlanError,
>)
    ensures
        planned(r) == socketmap_plan_of(
            endpoint.target@,
            endpoint.auth_token@,
            user_agent@,
            request@,
        ),
{
    let query = match parse_socketmap_request(request) {
        SocketmapRequest::BadFrame => {
            return Ok(Plan::Reply(socketmap_bad_frame_response()));
        },
        SocketmapRequest::BadRequest => {
            return Ok(Plan::Reply(socketmap_bad_request_response()));
        },
        SocketmapRequest::Query(query) => query,
    };
    let mut url = match url::Url::parse(endpoint.target.as_str()) {
        Ok(url) => url,
        Err(_) => {
            return Err(PlanError::InvalidTarget);
        },
    };
    if !append_pair_checked(&mut url, "name", query.map.as_slice()) {
        return Err(PlanError::UrlTooLong);
    }
    if !append_pair_checked(&mut url, "key", query.key.as_slice()) {
        return Err(PlanError::UrlTooLong);
    }
    Ok(get_call(&url, endpoint, user_agent))
}

/// Plans the answer to a policy request.
pub fn policy_plan(endpoint: &Endpoint, request: &[u8], user_agent: &str) -> (plan: Plan)
    ensures
        plan@ == policy_plan_of(endpoint.target@, endpoint.auth_token@, user_agent@, request@),
{
    let mut headers = common_headers(endpoint, user_agent);
    headers.push(
        Header {
            name: "Content-Type".to_owned(),
            value: "application/x-www-form-urlencoded".to_owned(),
        },
    );
    assert(header_views(headers@) =~= form_headers(endpoint.auth_token@, user_agent@));
    Plan::Call(
        BackendCall {
            method: Method::PostForm,
            url: endpoint.target.clone(),
            headers,
            body: policy_request_body(request),
        },
    )
}

} // verus!
