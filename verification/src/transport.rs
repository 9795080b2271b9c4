use vstd::prelude::*;
use crate::errors::{BlackError, ErrorKind};
use crate::metadata::{clone_header_map, header_entries, no_entries};
use crate::text::{dec_str, u16_decimal};

verus! {

#[verifier::external_type_specification]
#[verifier::external_body]
pub struct ExClient(reqwest::blocking::Client);

#[verifier::external_type_specification]
#[verifier::external_body]
pub struct ExRequestBuilder(reqwest::blocking::RequestBuilder);

#[verifier::external_type_specification]
#[verifier::external_body]
pub struct ExResponse(reqwest::blocking::Response);

#[verifier::external_type_specification]
#[verifier::external_body]
pub struct ExReqwestError(reqwest::Error);

/// The header entries a prepared request would carry.
pub uninterp spec fn req_headers(rb: reqwest::blocking::RequestBuilder) -> Map<
    Seq<char>,
    Seq<char>,
>;

/// The body bytes a prepared request would carry.
pub uninterp spec fn req_body(rb: reqwest::blocking::RequestBuilder) -> Seq<u8>;

/// The URL a prepared request is aimed at.
pub uninterp spec fn req_url(rb: reqwest::blocking::RequestBuilder) -> Seq<char>;

/// No user-info marker anywhere in the text.
pub open spec fn no_at_sign(s: Seq<char>) -> bool {
    forall|i: int| 0 <= i < s.len() ==> #[trigger] s[i] != '@'
}

/// Relies on `Client::post`: a fresh builder for a POST to that URL,
/// with no body attached. It also starts with no headers, except that a
/// URL whose authority carries user info (an `@` in the text) gets an
/// authorization header up front; so emptiness is promised only for
/// URLs without one.
#[verifier::external_body]
fn post_request(client: &reqwest::blocking::Client, url: &str) -> (rb:
    reqwest::blocking::RequestBuilder)
    ensures
        (no_at_sign(url@) ==> req_headers(rb) == no_entries()),
        req_body(rb) == Seq::<u8>::empty(),
        req_url(rb) == url@,
{
    client.post(url)
}

/// Relies on `RequestBuilder::headers`: the map's entries are merged
/// into the builder's own, so a builder holding no headers ends up with
/// exactly the map's entries; the body and target are untouched. The
/// builder must hold no headers: merging a map into one that already
/// does could push the builder's map past its capacity, where it
/// panics, while a lone header map always fits in an empty one.
#[verifier::external_body]
fn with_headers(
    rb: reqwest::blocking::RequestBuilder,
    headers: reqwest::header::HeaderMap,
) -> (r: reqwest::blocking::RequestBuilder)
    requires
        req_headers(rb) == no_entries(),
    ensures
        req_headers(r) == header_entries(headers),
        req_body(r) == req_body(rb),
        req_url(r) == req_url(rb),
{
    rb.headers(headers)
}

/// Relies on `RequestBuilder::body`: attaches the bytes as the request
/// body and leaves the headers alone.
#[verifier::external_body]
fn with_body(rb: reqwest::blocking::RequestBuilder, data: Vec<u8>) -> (r:
    reqwest::blocking::RequestBuilder)
    ensures
        req_body(r) == data@,
        req_headers(r) == req_headers(rb),
        req_url(r) == req_url(rb),
{
    rb.body(data)
}

/// Relies on `RequestBuilder::send`: issues the request once. What comes
/// back depends on the network and the daemon, so nothing is promised
/// of the response.
#[verifier::external_body]
pub(crate) fn send_request(rb: reqwest::blocking::RequestBuilder) -> (r: Result<
    reqwest::blocking::Response,
    reqwest::Error,
>) {
    rb.send()
}

/// Relies on `Response::status` and `StatusCode::as_u16`: the numeric
/// status code the daemon answered with.
#[verifier::external_body]
pub(crate) fn response_status(resp: &reqwest::blocking::Response) -> (s: u16) {
    resp.status().as_u16()
}

/// Relies on `Response::bytes`: the full response body, or the
/// transport failure hit while reading it.
#[verifier::external_body]
pub(crate) fn response_body(resp: reqwest::blocking::Response) -> (r: Result<
    Vec<u8>,
    reqwest::Error,
>) {
    match resp.bytes() {
        Ok(b) => Ok(b.to_vec()),
        Err(e) => Err(e),
    }
}

/// Where the daemon listens.
pub open spec fn daemon_url(host: Seq<char>, port: int) -> Seq<char> {
    "http://"@ + host + ":"@ + dec_str(port) + "/"@
}

/// Renders the daemon's endpoint for a host and port.
pub fn daemon_url_string(host: &str, port: u16) -> (u: String)
    ensures
        u@ == daemon_url(host@, port as int),
{
    let mut u = String::from_str("http://");
    u.append(host);
    u.append(":");
    let digits = u16_decimal(port);
    u.append(digits.as_str());
    u.append("/");
    proof {
        assert(u@ =~= daemon_url(host@, port as int));
    }
    u
}

proof fn lemma_no_at_concat(a: Seq<char>, b: Seq<char>)
    requires
        no_at_sign(a),
        no_at_sign(b),
    ensures
        no_at_sign(a + b),
{
    assert forall|i: int| 0 <= i < (a + b).len() implies #[trigger] (a + b)[i] != '@' by {
        if i < a.len() {
            assert((a + b)[i] == a[i]);
        } else {
            assert((a + b)[i] == b[i - a.len()]);
        }
    }
}

/// A host without user-info markers yields an endpoint without them.
proof fn lemma_daemon_url_no_at(host: Seq<char>, port: int)
    requires
        no_at_sign(host),
        port >= 0,
    ensures
        no_at_sign(daemon_url(host, port)),
{
    reveal_strlit("http://");
    reveal_strlit(":");
    reveal_strlit("/");
    assert(no_at_sign("http://"@));
    assert(no_at_sign(":"@));
    assert(no_at_sign("/"@));
    assert(no_at_sign(dec_str(port))) by {
        crate::text::lemma_dec_str_digits(port);
        assert forall|i: int| 0 <= i < dec_str(port).len() implies #[trigger] dec_str(port)[i]
            != '@' by {
            assert(crate::text::is_digit_char(dec_str(port)[i]));
        }
    }
    lemma_no_at_concat("http://"@, host);
    lemma_no_at_concat("http://"@ + host, ":"@);
    lemma_no_at_concat("http://"@ + host + ":"@, dec_str(port));
    lemma_no_at_concat("http://"@ + host + ":"@ + dec_str(port), "/"@);
}

/// Decides whether a host name is free of user-info markers, as
/// `prepare_request` asks.
pub fn plain_host(host: &str) -> (b: bool)
    ensures
        b == no_at_sign(host@),
{
    let n = host.unicode_len();
    let mut i: usize = 0;
    while i < n
        invariant
            n == host@.len(),
            0 <= i <= n,
            forall|j: int| 0 <= j < i ==> #[trigger] host@[j] != '@',
        decreases n - i,
    {
        if host.get_char(i) == '@' {
            return false;
        }
        i = i + 1;
    }
    true
}

/// Builds one request aimed at the daemon's endpoint for this host and
/// port, carrying exactly the translated metadata, with the body still
/// to be attached. The host must be free of user-info markers (every
/// plain host name or address is), else the transport would smuggle an
/// authorization header in.
pub fn prepare_request(
    client: &reqwest::blocking::Client,
    host: &str,
    port: u16,
    headers: &reqwest::header::HeaderMap,
) -> (rb: reqwest::blocking::RequestBuilder)
    requires
        no_at_sign(host@),
    ensures
        req_headers(rb) == header_entries(*headers),
        req_body(rb) == Seq::<u8>::empty(),
        req_url(rb) == daemon_url(host@, port as int),
{
    let url = daemon_url_string(host, port);
    proof {
        lemma_daemon_url_no_at(host@, port as int);
    }
    let rb = post_request(client, url.as_str());
    let own = clone_header_map(headers);
    with_headers(rb, own)
}

/// Attaches a file's bytes to a prepared request.
pub fn request_with_source(rb: reqwest::blocking::RequestBuilder, source: Vec<u8>) -> (r:
    reqwest::blocking::RequestBuilder)
    ensures
        req_body(r) == source@,
        req_headers(r) == req_headers(rb),
        req_url(r) == req_url(rb),
{
    with_body(rb, source)
}

/// Issues one prepared request and collects the daemon's status code
/// and full body. Every transport-level failure — reaching the daemon
/// or reading its answer — surfaces as a Transport-kind error, once,
/// with no retry; what the daemon answered is for the caller to judge.
pub fn execute_request(rb: reqwest::blocking::RequestBuilder) -> (r: Result<
    (u16, Vec<u8>),
    BlackError,
>)
    ensures
        (r matches Err(e) ==> e.kind == ErrorKind::Transport),
{
    match send_request(rb) {
        Err(e) => Err(BlackError::from_debug(ErrorKind::Transport, e)),
        Ok(resp) => {
            let status = response_status(&resp);
            match response_body(resp) {
                Err(e) => Err(BlackError::from_debug(ErrorKind::Transport, e)),
                Ok(body) => Ok((status, body)),
            }
        },
    }
}

} // verus!
