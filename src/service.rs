//! The proxy's per-request decisions: the credential, the body to forward,
//! the upstream URL, which headers cross each hop, and how the response is
//! relayed. Sending and receiving are left to the caller.
use vstd::prelude::*;
use vstd::slice::slice_to_vec;
use vstd::string::*;
use crate::config::Config;
use crate::error::AppError;
use crate::json::{json_object_of, json_text_of, object_text, parse_object};
use crate::pattern::{chars_of, contains_chars, equal_chars, has_infix};
use crate::request::{rewritten, Routing};

verus! {

/// A header: its name, in lower case, and its raw value.
pub type Header = (String, Vec<u8>);

/// A header as the contracts see it.
pub type HeaderView = (Seq<char>, Seq<u8>);

/// Message of the error for a request without credential.
pub const MISSING_AUTH: &'static str = "missing Authorization header";

/// Message of the error for a credential that is not visible ASCII text.
pub const UNREADABLE_AUTH: &'static str = "Authorization header is not valid text";

/// Message of the error for a credential without the bearer prefix.
pub const NOT_BEARER_AUTH: &'static str = "invalid Authorization format, expected 'Bearer YOUR_API_KEY'";

/// Message of the error for a body that is no JSON object.
pub const INVALID_JSON: &'static str = "request body is not a valid JSON object";

/// Message of the error for a rewritten body that could not be written.
pub const UNWRITABLE_JSON: &'static str = "rewritten request body could not be serialized";

/// The headers as texts and bytes.
pub open spec fn headers_view(hs: Seq<Header>) -> Seq<HeaderView> {
    hs.map_values(|h: Header| (h.0@, h.1@))
}

/// The value of the first header named `name`.
pub open spec fn first_value(hs: Seq<HeaderView>, name: Seq<char>) -> Option<Seq<u8>>
    decreases hs.len(),
{
    if hs.len() == 0 {
        None
    } else if hs[0].0 == name {
        Some(hs[0].1)
    } else {
        first_value(hs.drop_first(), name)
    }
}

/// Every byte is visible ASCII or a tab: what a header value must be to
/// read as text.
pub open spec fn visible_ascii(b: Seq<u8>) -> bool {
    forall|i: int| 0 <= i < b.len() ==> (32 <= #[trigger] b[i] < 127 || b[i] == 9)
}

/// The bytes of `Bearer `.
pub open spec fn bearer_prefix() -> Seq<u8> {
    seq![66u8, 101u8, 97u8, 114u8, 101u8, 114u8, 32u8]
}

/// Every byte is ASCII.
pub open spec fn all_ascii(b: Seq<u8>) -> bool {
    forall|i: int| 0 <= i < b.len() ==> #[trigger] b[i] < 128
}

/// The characters of ASCII bytes.
pub open spec fn ascii_chars(b: Seq<u8>) -> Seq<char> {
    b.map_values(|x: u8| x as char)
}

/// The bearer token of the headers, or the message of the error that
/// refuses them.
pub open spec fn auth_outcome(hs: Seq<HeaderView>) -> Result<Seq<char>, Seq<char>> {
    match first_value(hs, "authorization"@) {
        None => Err(MISSING_AUTH@),
        Some(v) => if !visible_ascii(v) {
            Err(UNREADABLE_AUTH@)
        } else if v.len() < 7 || v.subrange(0, 7) != bearer_prefix() {
            Err(NOT_BEARER_AUTH@)
        } else {
            Ok(ascii_chars(v.subrange(7, v.len() as int)))
        },
    }
}

/// Whether the body of a request to `path` is rewritten for `routing`: only
/// on chat-completion and embedding endpoints, and never for passthrough.
pub open spec fn rewrites_for(path: Seq<char>, routing: Routing) -> bool {
    (has_infix(path, "chat/completions"@) || has_infix(path, "embeddings"@)) && !(routing is Passthrough)
}

/// Whether a request header is copied to the upstream request.
pub open spec fn is_forwarded_header(name: Seq<char>) -> bool {
    name != "host"@ && name != "authorization"@ && name != "content-length"@
}

/// Whether an upstream response header is copied to the caller.
pub open spec fn is_relayed_header(name: Seq<char>) -> bool {
    name != "transfer-encoding"@ && name != "connection"@
}

/// Whether a header crosses the hop: outbound to the upstream, or back to
/// the caller.
pub open spec fn crosses(outbound: bool, name: Seq<char>) -> bool {
    if outbound {
        is_forwarded_header(name)
    } else {
        is_relayed_header(name)
    }
}

/// The headers that cross the hop, in their order.
pub open spec fn kept_headers(hs: Seq<HeaderView>, outbound: bool) -> Seq<HeaderView>
    decreases hs.len(),
{
    if hs.len() == 0 {
        Seq::empty()
    } else {
        let init = kept_headers(hs.drop_last(), outbound);
        if crosses(outbound, hs.last().0) {
            init.push(hs.last())
        } else {
            init
        }
    }
}

/// Whether the upstream response is relayed as a stream: an event stream
/// on a completions endpoint.
pub open spec fn is_streamed(path: Seq<char>, content_type: Option<&str>) -> bool {
    has_infix(path, "completions"@) && content_type is Some && has_infix(
        content_type->0@,
        "text/event-stream"@,
    )
}

/// Whether `x` occurs in `s`.
pub fn text_contains(s: &str, x: &str) -> (r: bool)
    ensures
        r == has_infix(s@, x@),
{
    contains_chars(&chars_of(s), &chars_of(x))
}

/// Whether two texts are equal.
pub fn text_equals(a: &str, b: &str) -> (r: bool)
    ensures
        r == (a@ == b@),
{
    equal_chars(&chars_of(a), &chars_of(b))
}

/// Whether a request header is copied to the upstream request: all but
/// `host`, `authorization` and `content-length`.
pub fn forwards_request_header(name: &str) -> (r: bool)
    ensures
        r == is_forwarded_header(name@),
{
    !text_equals(name, "host") && !text_equals(name, "authorization") && !text_equals(
        name,
        "content-length",
    )
}

/// Whether an upstream header is copied to the caller: all but the
/// hop-by-hop `transfer-encoding` and `connection`.
pub fn relays_response_header(name: &str) -> (r: bool)
    ensures
        r == is_relayed_header(name@),
{
    !text_equals(name, "transfer-encoding") && !text_equals(name, "connection")
}

/// The headers that cross the hop, in their order.
fn filter_headers(headers: &Vec<Header>, outbound: bool) -> (r: Vec<Header>)
    ensures
        headers_view(r@) == kept_headers(headers_view(headers@), outbound),
{
    let mut r: Vec<Header> = Vec::new();
    let mut i: usize = 0;
    while i < headers.len()
        invariant
            i <= headers@.len(),
            headers_view(r@) == kept_headers(headers_view(headers@).subrange(0, i as int), outbound),
        decreases headers@.len() - i,
    {
        let ghost hv = headers_view(headers@);
        assert(hv.subrange(0, i + 1).drop_last() =~= hv.subrange(0, i as int));
        assert(hv.subrange(0, i + 1).last() == hv[i as int]);
        let name = headers[i].0.as_str();
        let keep = if outbound {
            forwards_request_header(name)
        } else {
            relays_response_header(name)
        };
        if keep {
            let ghost before = r@;
            r.push((headers[i].0.clone(), slice_to_vec(headers[i].1.as_slice())));
            assert(headers_view(r@) =~= headers_view(before).push(hv[i as int]));
        }
        i = i + 1;
    }
    assert(headers_view(headers@).subrange(0, i as int) =~= headers_view(headers@));
    r
}

/// The request headers copied to the upstream request.
pub fn forwarded_headers(headers: &Vec<Header>) -> (r: Vec<Header>)
    ensures
        headers_view(r@) == kept_headers(headers_view(headers@), true),
{
    filter_headers(headers, true)
}

/// The upstream response headers copied to the caller.
pub fn relayed_headers(headers: &Vec<Header>) -> (r: Vec<Header>)
    ensures
        headers_view(r@) == kept_headers(headers_view(headers@), false),
{
    filter_headers(headers, false)
}

/// Whether the body of a request to `path` is rewritten for `routing`.
pub fn rewrites_body(path: &str, routing: &Routing) -> (r: bool)
    ensures
        r == rewrites_for(path@, *routing),
{
    !matches!(routing, Routing::Passthrough) && (text_contains(path, "chat/completions")
        || text_contains(path, "embeddings"))
}

/// Whether the upstream response is relayed chunk by chunk as it arrives
/// rather than read whole: an event stream on a completions endpoint.
pub fn streams_response(path: &str, content_type: Option<&str>) -> (r: bool)
    ensures
        r == is_streamed(path@, content_type),
{
    match content_type {
        Some(t) => text_contains(path, "completions") && text_contains(t, "text/event-stream"),
        None => false,
    }
}

/// The value of the `Authorization` header sent upstream.
pub fn bearer_value(token: &str) -> (r: String)
    ensures
        r@ == "Bearer "@ + token@,
{
    String::from_str("Bearer ").concat(token)
}

/// How a path under `/v1/` is routed: `{provider}/{path}` names a provider
/// in its first segment; a path of one segment is passed through.
pub fn route_for_path(rest: &str) -> (r: (Routing, String))
    ensures
        match r.0 {
            Routing::Explicit(p) => exists|i: int|
                0 <= i < rest@.len() && rest@[i] == '/' && (forall|j: int|
                    0 <= j < i ==> rest@[j] != '/') && p@ == rest@.subrange(0, i) && r.1@
                    == rest@.subrange(i + 1, rest@.len() as int),
            Routing::Passthrough => !rest@.contains('/') && r.1@ == rest@,
            Routing::Table => false,
        },
{
    let n = rest.unicode_len();
    let mut i: usize = 0;
    while i < n
        invariant
            n == rest@.len(),
            i <= n,
            forall|j: int| 0 <= j < i ==> rest@[j] != '/',
        decreases n - i,
    {
        if rest.get_char(i) == '/' {
            let provider = String::from_str(rest.substring_char(0, i));
            let path = String::from_str(rest.substring_char(i + 1, n));
            return (Routing::Explicit(provider), path);
        }
        i = i + 1;
    }
    (Routing::Passthrough, String::from_str(rest))
}

/// Relies on `String::from_utf8`: bytes below 128 are valid UTF-8, each byte
/// the character of the same code.
#[verifier::external_body]
fn text_from_bytes(b: Vec<u8>) -> (r: Option<String>)
    ensures
        r is Some || !all_ascii(b@),
        r matches Some(s) ==> (all_ascii(b@) ==> s@ == ascii_chars(b@)),
{
    match String::from_utf8(b) {
        Ok(s) => Some(s),
        Err(_) => None,
    }
}

/// The position of the first header named `name`.
fn find_header(headers: &Vec<Header>, name: &str) -> (r: Option<usize>)
    ensures
        match r {
            Some(i) => i < headers@.len() && first_value(headers_view(headers@), name@) == Some(
                headers@[i as int].1@,
            ),
            None => first_value(headers_view(headers@), name@) is None,
        },
{
    let ghost hv = headers_view(headers@);
    let mut i: usize = 0;
    assert(hv.subrange(0, hv.len() as int) =~= hv);
    while i < headers.len()
        invariant
            hv == headers_view(headers@),
            i <= headers@.len(),
            first_value(hv, name@) == first_value(hv.subrange(i as int, hv.len() as int), name@),
        decreases headers@.len() - i,
    {
        let ghost rest = hv.subrange(i as int, hv.len() as int);
        assert(rest[0] == hv[i as int]);
        if text_equals(headers[i].0.as_str(), name) {
            return Some(i);
        }
        assert(rest.drop_first() =~= hv.subrange(i + 1, hv.len() as int));
        i = i + 1;
    }
    assert(hv.subrange(i as int, hv.len() as int).len() == 0);
    None
}

/// Whether every byte is visible ASCII or a tab.
fn is_visible_ascii(b: &Vec<u8>) -> (r: bool)
    ensures
        r == visible_ascii(b@),
{
    let mut i: usize = 0;
    while i < b.len()
        invariant
            i <= b@.len(),
            forall|k: int| 0 <= k < i ==> (32 <= #[trigger] b@[k] < 127 || b@[k] == 9),
        decreases b@.len() - i,
    {
        if !(32 <= b[i] && b[i] < 127 || b[i] == 9) {
            return false;
        }
        i = i + 1;
    }
    true
}

/// The bytes of `b` from position `from` on.
fn bytes_from(b: &Vec<u8>, from: usize) -> (r: Vec<u8>)
    requires
        from <= b@.len(),
    ensures
        r@ == b@.subrange(from as int, b@.len() as int),
{
    let mut r: Vec<u8> = Vec::new();
    let mut i: usize = from;
    while i < b.len()
        invariant
            from <= i <= b@.len(),
            r@ == b@.subrange(from as int, i as int),
        decreases b@.len() - i,
    {
        r.push(b[i]);
        i = i + 1;
        assert(r@ =~= b@.subrange(from as int, i as int));
    }
    r
}

/// Whether the bytes begin with `Bearer `.
fn has_bearer_prefix(b: &Vec<u8>) -> (r: bool)
    ensures
        r == (b@.len() >= 7 && b@.subrange(0, 7) == bearer_prefix()),
{
    if b.len() < 7 {
        return false;
    }
    let r = b[0] == 66u8 && b[1] == 101u8 && b[2] == 97u8 && b[3] == 114u8 && b[4] == 101u8 && b[5]
        == 114u8 && b[6] == 32u8;
    if r {
        assert(b@.subrange(0, 7) =~= bearer_prefix());
    } else {
        proof {
            if b@.subrange(0, 7) == bearer_prefix() {
                assert(b@.subrange(0, 7)[0] == b@[0]);
                assert(b@.subrange(0, 7)[1] == b@[1]);
                assert(b@.subrange(0, 7)[2] == b@[2]);
                assert(b@.subrange(0, 7)[3] == b@[3]);
                assert(b@.subrange(0, 7)[4] == b@[4]);
                assert(b@.subrange(0, 7)[5] == b@[5]);
                assert(b@.subrange(0, 7)[6] == b@[6]);
            }
        }
    }
    r
}

/// A request ready to be sent upstream.
#[derive(Debug, Clone)]
pub struct OutboundRequest {
    /// Where it goes.
    pub url: String,
    /// The request headers copied over.
    pub headers: Vec<Header>,
    /// The `Authorization` value, re-issued from the caller's token.
    pub authorization: String,
    /// The body, rewritten where the route asks for it.
    pub body: Vec<u8>,
}

/// The proxy's view of its configuration.
#[derive(Debug, Clone)]
pub struct OpenRouterService {
    /// The upstream API's base URL.
    pub base_url: String,
    /// The configuration, routing rules included.
    pub config: Config,
}

impl OpenRouterService {
    /// What the body `body` of a request to `path` becomes: the same bytes
    /// where it is not rewritten, else the JSON text of the rewrite of the
    /// object it holds; `None` where it must be rewritten but holds no JSON
    /// object.
    pub open spec fn transformed(&self, body: Seq<u8>, path: Seq<char>, routing: Routing) -> Option<Seq<u8>> {
        if !rewrites_for(path, routing) {
            Some(body)
        } else {
            match json_object_of(body) {
                Some(f) => Some(json_text_of(rewritten(f, routing, self.config.rules()))),
                None => None,
            }
        }
    }

    /// A service for the configuration, sending to its base URL.
    pub fn new(config: Config) -> (r: OpenRouterService)
        ensures
            r.base_url@ == config.openrouter_base_url@,
            r.config == config,
    {
        OpenRouterService { base_url: config.openrouter_base_url.clone(), config }
    }

    /// The caller's bearer token: the text after `Bearer ` in the first
    /// `authorization` header, which must be visible ASCII.
    pub fn extract_api_key(&self, headers: &Vec<Header>) -> (r: Result<String, AppError>)
        ensures
            match auth_outcome(headers_view(headers@)) {
                Ok(t) => r matches Ok(s) && s@ == t,
                Err(m) => r matches Err(AppError::Auth(x)) && x@ == m,
            },
    {
        let i = match find_header(headers, "authorization") {
            Some(i) => i,
            None => return Err(AppError::Auth(String::from_str(MISSING_AUTH))),
        };
        let v = &headers[i].1;
        if !is_visible_ascii(v) {
            return Err(AppError::Auth(String::from_str(UNREADABLE_AUTH)));
        }
        if !has_bearer_prefix(v) {
            return Err(AppError::Auth(String::from_str(NOT_BEARER_AUTH)));
        }
        let token = bytes_from(v, 7);
        match text_from_bytes(token) {
            Some(t) => Ok(t),
            None => Err(AppError::Auth(String::from_str(UNREADABLE_AUTH))),
        }
    }

    /// The body to forward for a request to `path`: unchanged where it is
    /// not rewritten; else parsed as a JSON object, rewritten for `routing`
    /// and written back, every other field kept.
    pub fn process_request_body(&self, body: &[u8], path: &str, routing: &Routing) -> (r: Result<Vec<u8>, AppError>)
        ensures
            match self.transformed(body@, path@, *routing) {
                Some(out) => r matches Ok(b) && b@ == out,
                None => r matches Err(AppError::Parse(m)) && m@ == INVALID_JSON@,
            },
    {
        if !rewrites_body(path, routing) {
            return Ok(slice_to_vec(body));
        }
        let mut doc = match parse_object(body) {
            Ok(doc) => doc,
            Err(_) => return Err(AppError::Parse(String::from_str(INVALID_JSON))),
        };
        self.config.rewrite_body(&mut doc, routing);
        match object_text(&doc) {
            Ok(out) => Ok(out),
            Err(_) => Err(AppError::Parse(String::from_str(UNWRITABLE_JSON))),
        }
    }

    /// The upstream URL for an endpoint path: the base URL, `/`, the path.
    pub fn upstream_url(&self, path: &str) -> (r: String)
        ensures
            r@ == self.base_url@ + "/"@ + path@,
    {
        self.base_url.clone().concat("/").concat(path)
    }

    /// Everything about the upstream request that can be decided before it
    /// is sent: the credential is checked first, then the body transformed.
    /// An error here means that nothing is sent.
    pub fn prepare_request(&self, path: &str, routing: &Routing, headers: &Vec<Header>, body: &[u8]) -> (r: Result<OutboundRequest, AppError>)
        ensures
            match auth_outcome(headers_view(headers@)) {
                Err(m) => r matches Err(AppError::Auth(x)) && x@ == m,
                Ok(t) => match self.transformed(body@, path@, *routing) {
                    Some(out) => r matches Ok(o) && o.url@ == self.base_url@ + "/"@ + path@
                        && headers_view(o.headers@) == kept_headers(headers_view(headers@), true)
                        && o.authorization@ == "Bearer "@ + t && o.body@ == out,
                    None => r matches Err(AppError::Parse(m)) && m@ == INVALID_JSON@,
                },
            },
    {
        let token = match self.extract_api_key(headers) {
            Ok(t) => t,
            Err(e) => return Err(e),
        };
        let body = match self.process_request_body(body, path, routing) {
            Ok(b) => b,
            Err(e) => return Err(e),
        };
        Ok(
            OutboundRequest {
                url: self.upstream_url(path),
                headers: forwarded_headers(headers),
                authorization: bearer_value(token.as_str()),
                body,
            },
        )
    }
}

} // verus!
