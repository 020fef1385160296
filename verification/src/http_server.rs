//! Handling of requests to a generic HTTP server.

use http::{HeaderMap, HeaderValue};
use vstd::prelude::*;

use crate::text::{
    decimal, decimal_string, hex_digit, is_random_uuid, random_uuid, uuid_hyphens_before,
    uuid_nibble, uuid_text, uuid_to_string, Uuid,
};

verus! {

#[verifier::external_type_specification]
#[verifier::external_body]
pub struct ExHeaderValue(HeaderValue);

#[verifier::external_type_specification]
#[verifier::external_body]
#[verifier::reject_recursive_types(T)]
pub struct ExHeaderMap<T>(HeaderMap<T>);

/// The values of an `http::HeaderMap` under each header name, in order, read as
/// UTF-8.
pub uninterp spec fn header_values(map: HeaderMap) -> Map<Seq<char>, Seq<Seq<char>>>;

/// Whether a character may stand in a header value: anything but a control
/// character other than the tab.
pub open spec fn is_value_char(c: char) -> bool {
    c == '\t' || (32 <= c as u32 && c as u32 != 127)
}

/// Whether a text can be the value of a header.
pub open spec fn is_header_value(s: Seq<char>) -> bool {
    forall|i: int| 0 <= i < s.len() ==> is_value_char(#[trigger] s[i])
}

/// Whether a character may stand in a header name.
pub open spec fn is_name_char(c: char) -> bool {
    ('a' <= c && c <= 'z') || ('0' <= c && c <= '9') || c == '-'
}

/// Whether a text is a short header name of lower-case letters, digits and
/// hyphens.
pub open spec fn is_header_name(s: Seq<char>) -> bool {
    &&& 0 < s.len() <= 100
    &&& forall|i: int| 0 <= i < s.len() ==> is_name_char(#[trigger] s[i])
}

/// The number of header names up to which a header can be inserted, whatever the
/// names: a fifth of the greatest size of a header map.
pub const MAX_HEADERS: usize = 6553;

/// Whether a header can be inserted.
pub open spec fn has_room(map: HeaderMap) -> bool {
    header_values(map).dom().finite() && header_values(map).dom().len() <= MAX_HEADERS
}

/// Whether a map has `n` header names.
pub open spec fn has_names(map: HeaderMap, n: nat) -> bool {
    header_values(map).dom().finite() && header_values(map).dom().len() == n
}

/// Counts the header names of a map.
///
/// Calls `http::HeaderMap::keys_len`, which counts each name once, however many
/// values it has.
#[verifier::external_body]
fn headers_keys_len(map: &HeaderMap) -> (r: usize)
    ensures
        has_names(*map, r as nat),
{
    map.keys_len()
}

/// Tells whether a header can be inserted.
pub fn headers_have_room(map: &HeaderMap) -> (r: bool)
    ensures
        r == has_room(*map),
{
    headers_keys_len(map) <= MAX_HEADERS
}

/// Makes a map without headers.
///
/// Calls `http::HeaderMap::new`.
#[verifier::external_body]
fn headers_new() -> (r: HeaderMap)
    ensures
        header_values(r).dom() == Set::<Seq<char>>::empty(),
{
    HeaderMap::new()
}

/// Sets a header.
///
/// Calls `http::header::HeaderName::from_static`,
/// `http::HeaderValue::from_str` and `http::HeaderMap::insert`: the value
/// becomes the only one under the name. The name must be in lower case, the
/// value must not hold control characters, and the map must not be so full that
/// names that collide could make it grow beyond its greatest size.
#[verifier::external_body]
fn headers_insert(map: &mut HeaderMap, name: &'static str, value: &str)
    requires
        is_header_name(name@),
        is_header_value(value@),
        has_room(*old(map)),
    ensures
        header_values(*final(map)) == header_values(*old(map)).insert(name@, seq![value@]),
{
    let name = http::header::HeaderName::from_static(name);
    map.insert(name, HeaderValue::from_str(value).unwrap());
}

/// How a character stands in a JSON string: quotes, backslashes and control
/// characters are escaped, and all others stand for themselves.
pub open spec fn json_char(c: char) -> Seq<char> {
    let n = c as int;
    if c == '"' || c == '\\' {
        seq!['\\', c]
    } else if n == 0x08 {
        seq!['\\', 'b']
    } else if n == 0x09 {
        seq!['\\', 't']
    } else if n == 0x0a {
        seq!['\\', 'n']
    } else if n == 0x0c {
        seq!['\\', 'f']
    } else if n == 0x0d {
        seq!['\\', 'r']
    } else if n < 0x20 {
        seq!['\\', 'u', '0', '0', hex_digit(n / 16), hex_digit(n % 16)]
    } else {
        seq![c]
    }
}

/// The JSON text of a string: in quotes, with escapes.
pub open spec fn json_text(s: Seq<char>) -> Seq<char> {
    seq!['"'] + s.map_values(|c: char| json_char(c)).flatten() + seq!['"']
}

/// Writes a string as JSON.
///
/// Calls `serde_json::to_string` on a string, which does not fail. It escapes
/// just those characters that JSON has escaped, and those below a space that have
/// no short escape by their number, in lower-case hexadecimal.
#[verifier::external_body]
fn json_string(s: &str) -> (r: String)
    ensures
        r@ == json_text(s@),
{
    serde_json::to_string(s).unwrap()
}

// ---
// Requests and responses
// ---

/// Stores static configuration associated with the server.
#[derive(Copy, Clone, Debug, PartialEq, Eq, Structural)]
pub struct ServerConfig {
    /// maximum allowed size of a request body
    pub request_body_max_bytes: usize,
}

impl ServerConfig {
    /// The configuration that servers start with.
    pub fn new() -> (r: Self)
        ensures
            r.request_body_max_bytes == 1024,
    {
        // We start aggressively to ensure test coverage.
        ServerConfig { request_body_max_bytes: 1024 }
    }
}

/// A response to a request.
#[derive(Debug)]
pub struct Response {
    pub status: u16,
    pub headers: HeaderMap,
    pub body: String,
}

/// An error in handling a request.
#[derive(Debug)]
pub struct HttpError {
    pub status_code: u16,
    /// what the client is told
    pub external_message: String,
    /// what is logged
    pub internal_message: String,
}

/// The header that tells the id of a request.
pub const HEADER_REQUEST_ID: &'static str = "x-request-id";

/// The header that tells the type of the content.
pub const CONTENT_TYPE: &'static str = "content-type";

/// The type of JSON content.
pub const CONTENT_TYPE_JSON: &'static str = "application/json";

/// The text of a UUID can stand in a header.
pub proof fn law_request_id_is_header_value(id: Uuid)
    ensures
        is_header_value(uuid_text(id)),
{
    let s = uuid_text(id);
    assert forall|i: int| 0 <= i < s.len() implies is_value_char(#[trigger] s[i]) by {
        let k = i - uuid_hyphens_before(i);
        let shifted = id >> ((31 - k) * 4);
        assert(shifted & 0xf <= 0xf) by (bit_vector);
        let n = uuid_nibble(id, k) as int;
        assert(0 <= n < 16);
        assert(hex_digit(n) == 'a' || hex_digit(n) == 'b' || hex_digit(n) == 'c' || hex_digit(n)
            == 'd' || hex_digit(n) == 'e' || hex_digit(n) == 'f' || ('0' <= hex_digit(n)
            && hex_digit(n) <= '9'));
    }
}

/// Makes an id for a request.
pub fn generate_request_id() -> (r: String)
    ensures
        exists|id: Uuid| is_random_uuid(id) && r@ == #[trigger] uuid_text(id),
        is_header_value(r@),
{
    let id = random_uuid();
    proof {
        law_request_id_is_header_value(id);
    }
    uuid_to_string(id)
}

proof fn lemma_request_id_name()
    ensures
        is_header_name(HEADER_REQUEST_ID@),
{
    reveal_strlit("x-request-id");
    let s = HEADER_REQUEST_ID@;
    assert(s.len() == 12);
    assert forall|i: int| 0 <= i < s.len() implies is_name_char(#[trigger] s[i]) by {
        assert(s == seq!['x', '-', 'r', 'e', 'q', 'u', 'e', 's', 't', '-', 'i', 'd']);
    }
}

proof fn lemma_content_type_name()
    ensures
        is_header_name(CONTENT_TYPE@),
        is_header_value(CONTENT_TYPE_JSON@),
{
    reveal_strlit("content-type");
    reveal_strlit("application/json");
    let s = CONTENT_TYPE@;
    assert forall|i: int| 0 <= i < s.len() implies is_name_char(#[trigger] s[i]) by {
        assert(s == seq!['c', 'o', 'n', 't', 'e', 'n', 't', '-', 't', 'y', 'p', 'e']);
    }
    let t = CONTENT_TYPE_JSON@;
    assert forall|i: int| 0 <= i < t.len() implies is_value_char(#[trigger] t[i]) by {
        assert(t == seq![
            'a',
            'p',
            'p',
            'l',
            'i',
            'c',
            'a',
            't',
            'i',
            'o',
            'n',
            '/',
            'j',
            's',
            'o',
            'n',
        ]);
    }
}

/// What comes of handling a request: what the handler made of it, with the id
/// of the request in its headers.
///
/// Where the route was not found, or the handler failed, that error is
/// returned.
pub fn http_request_handle(result: Result<Response, HttpError>, request_id: &str) -> (r: Result<
    Response,
    HttpError,
>)
    requires
        is_header_value(request_id@),
        result is Ok ==> has_room(result->Ok_0.headers),
    ensures
        match result {
            Err(e) => r == Err::<Response, HttpError>(e),
            Ok(handled) => {
                &&& r is Ok
                &&& r->Ok_0.status == handled.status
                &&& r->Ok_0.body == handled.body
                &&& header_values(r->Ok_0.headers) == header_values(handled.headers).insert(
                    HEADER_REQUEST_ID@,
                    seq![request_id@],
                )
            },
        },
{
    match result {
        Err(e) => Err(e),
        Ok(handled) => {
            let Response { status, mut headers, body } = handled;
            proof {
                lemma_request_id_name();
            }
            headers_insert(&mut headers, HEADER_REQUEST_ID, request_id);
            Ok(Response { status, headers, body })
        },
    }
}

/// What is answered to a request: what came of handling it, or else the
/// response that is made of the error.
///
/// This extra level of indirection makes error handling much more
/// straightforward, since the request handling code can simply return early
/// with an error and we'll treat it like an error from any of the endpoints
/// themselves.
pub fn http_request_handle_wrap(
    maybe_response: Result<Response, HttpError>,
    error_response: Response,
) -> (r: Response)
    ensures
        match maybe_response {
            Ok(response) => r == response,
            Err(_) => r == error_response,
        },
{
    match maybe_response {
        Ok(response) => response,
        Err(_) => error_response,
    }
}

// ---
// Demo handlers
// ---

/// The handlers of the demo endpoints.
#[derive(Copy, Clone, Debug, PartialEq, Eq, Structural)]
pub enum DemoHandler {
    Args1,
    Args2Query,
    Args2Json,
    Args3,
}

/// An endpoint that answers GET requests.
#[derive(Copy, Clone, Debug, PartialEq, Eq)]
pub struct Route {
    pub path: &'static str,
    pub handler: DemoHandler,
}

/// The path of a demo endpoint.
pub open spec fn demo_path(handler: DemoHandler) -> Seq<char> {
    match handler {
        DemoHandler::Args1 => "/testing/demo1"@,
        DemoHandler::Args2Query => "/testing/demo2query"@,
        DemoHandler::Args2Json => "/testing/demo2json"@,
        DemoHandler::Args3 => "/testing/demo3"@,
    }
}

/// The demo endpoints, which all answer GET requests.
pub fn register_test_endpoints() -> (r: Vec<Route>)
    ensures
        r@.map_values(|route: Route| route.handler) == seq![
            DemoHandler::Args1,
            DemoHandler::Args2Query,
            DemoHandler::Args2Json,
            DemoHandler::Args3,
        ],
        forall|i: int|
            0 <= i < r.len() ==> (#[trigger] r@[i]).path@ == demo_path(r@[i].handler),
{
    let r = vec![
        Route { path: "/testing/demo1", handler: DemoHandler::Args1 },
        Route { path: "/testing/demo2query", handler: DemoHandler::Args2Query },
        Route { path: "/testing/demo2json", handler: DemoHandler::Args2Json },
        Route { path: "/testing/demo3", handler: DemoHandler::Args3 },
    ];
    assert(r@.map_values(|route: Route| route.handler) =~= seq![
        DemoHandler::Args1,
        DemoHandler::Args2Query,
        DemoHandler::Args2Json,
        DemoHandler::Args3,
    ]);
    r
}

/// Arguments of a demo query.
#[derive(Debug)]
pub struct DemoQueryArgs {
    pub test1: String,
    pub test2: Option<u32>,
}

/// The body of a demo request.
#[derive(Debug)]
pub struct DemoJsonBody {
    pub test1: String,
    pub test2: Option<u32>,
}

/// The arguments and the body of a demo request.
#[derive(Debug)]
pub struct DemoJsonAndQuery {
    pub query: DemoQueryArgs,
    pub json: DemoJsonBody,
}

/// A JSON object with a string and an optional number.
pub open spec fn demo_json(test1: Seq<char>, test2: Option<u32>) -> Seq<char> {
    "{\"test1\":"@ + json_text(test1) + ",\"test2\":"@ + (match test2 {
        Some(n) => decimal(n as nat),
        None => "null"@,
    }) + "}"@
}

fn demo_json_string(test1: &str, test2: Option<u32>) -> (r: String)
    ensures
        r@ == demo_json(test1@, test2),
{
    let second = match test2 {
        Some(n) => decimal_string(n as u64),
        None => "null".to_owned(),
    };
    "{\"test1\":".to_owned().concat(json_string(test1).as_str()).concat(",\"test2\":").concat(
        second.as_str(),
    ).concat("}")
}

impl DemoQueryArgs {
    /// The arguments as JSON.
    pub fn to_json(&self) -> (r: String)
        ensures
            r@ == demo_json(self.test1@, self.test2),
    {
        demo_json_string(self.test1.as_str(), self.test2)
    }
}

impl DemoJsonBody {
    /// The body as JSON.
    pub fn to_json(&self) -> (r: String)
        ensures
            r@ == demo_json(self.test1@, self.test2),
    {
        demo_json_string(self.test1.as_str(), self.test2)
    }
}

impl DemoJsonAndQuery {
    /// The arguments and the body as JSON.
    pub fn to_json(&self) -> (r: String)
        ensures
            r@ == "{\"query\":"@ + demo_json(self.query.test1@, self.query.test2) + ",\"json\":"@
                + demo_json(self.json.test1@, self.json.test2) + "}"@,
    {
        "{\"query\":".to_owned().concat(self.query.to_json().as_str()).concat(",\"json\":").concat(
            self.json.to_json().as_str(),
        ).concat("}")
    }
}

/// Whether a response is a success with JSON content.
pub open spec fn is_ok_json(r: Response, body: Seq<char>) -> bool {
    &&& r.status == 200
    &&& r.body@ == body
    &&& header_values(r.headers) == map![CONTENT_TYPE@ => seq![CONTENT_TYPE_JSON@]]
}

fn ok_json(body: String) -> (r: Response)
    ensures
        is_ok_json(r, body@),
{
    let mut headers = headers_new();
    proof {
        lemma_content_type_name();
    }
    headers_insert(&mut headers, CONTENT_TYPE, CONTENT_TYPE_JSON);
    assert(header_values(headers) =~= map![CONTENT_TYPE@ => seq![CONTENT_TYPE_JSON@]]);
    Response { status: 200, headers, body }
}

/// Answers a demo request without arguments.
pub fn demo_handler_args_1() -> (r: Response)
    ensures
        is_ok_json(r, "demo_handler_args_1\n"@),
{
    ok_json("demo_handler_args_1\n".to_owned())
}

/// Answers a demo request with the arguments of its query.
pub fn demo_handler_args_2query(query: &DemoQueryArgs) -> (r: Response)
    ensures
        is_ok_json(r, demo_json(query.test1@, query.test2)),
{
    ok_json(query.to_json())
}

/// Answers a demo request with its body.
pub fn demo_handler_args_2json(json: &DemoJsonBody) -> (r: Response)
    ensures
        is_ok_json(r, demo_json(json.test1@, json.test2)),
{
    ok_json(json.to_json())
}

/// Answers a demo request with the arguments of its query and its body.
pub fn demo_handler_args_3(query: DemoQueryArgs, json: DemoJsonBody) -> (r: Response)
    ensures
        is_ok_json(
            r,
            "{\"query\":"@ + demo_json(query.test1@, query.test2) + ",\"json\":"@ + demo_json(
                json.test1@,
                json.test2,
            ) + "}"@,
        ),
{
    let combined = DemoJsonAndQuery { query, json };
    ok_json(combined.to_json())
}

} // verus!
