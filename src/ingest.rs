//! Validation and dispatch of inbound HTTP requests, up to the notification
//! that a request puts on the queue and the status it is answered with.
use std::io::Read;
use flate2::read::GzDecoder;
use vstd::prelude::*;
use vstd::string::*;
use vstd::utf8::*;
use crate::codec::{framed_notification, opt_chars, serialize_notification};
use crate::envelope::{envelope_params, full_params};
use crate::queue::{after_send, MessageQueue};

verus! {

/// The request methods that the server tells apart.
#[derive(PartialEq, Eq, Structural, Debug, Clone, Copy)]
pub enum HttpMethod {
    Post,
    Other,
}

/// An inbound request, as plain values.
pub struct HttpRequest {
    pub method: HttpMethod,
    pub path: String,
    pub headers: Vec<(String, String)>,
    pub body: Vec<u8>,
}

/// Where a request goes after method and header checks.
#[derive(PartialEq, Eq, Structural, Debug, Clone, Copy)]
pub enum Route {
    /// Answered at once with this status; nothing is enqueued.
    Reject(u16),
    Full,
    Clear,
    /// An unknown path: nothing is enqueued and no answer is sent.
    Unrecognized,
}

pub open spec fn ascii_lower(b: u8) -> u8 {
    if 0x41 <= b <= 0x5a { (b + 0x20) as u8 } else { b }
}

/// Byte-wise equality up to ASCII case.
pub open spec fn same_ignoring_ascii_case(x: Seq<u8>, y: Seq<u8>) -> bool {
    x.len() == y.len() && forall|i: int| 0 <= i < x.len() ==> ascii_lower(#[trigger] x[i]) == ascii_lower(y[i])
}

/// The value of the last header whose field is `name`, up to ASCII case.
pub open spec fn header_value(headers: Seq<(String, String)>, name: Seq<u8>) -> Option<Seq<char>>
    decreases headers.len(),
{
    if headers.len() == 0 {
        None
    } else if same_ignoring_ascii_case(encode_utf8(headers.last().0@), name) {
        Some(headers.last().1@)
    } else {
        header_value(headers.drop_last(), name)
    }
}

pub open spec fn route_of(req: &HttpRequest) -> Route {
    if req.method != HttpMethod::Post {
        Route::Reject(404)
    } else if header_value(req.headers@, "content-type".spec_bytes()) != Some("application/json"@)
        || header_value(req.headers@, "content-encoding".spec_bytes()) != Some("gzip"@) {
        Route::Reject(400)
    } else if req.path@ == "/full"@ {
        Route::Full
    } else if req.path@ == "/clear"@ {
        Route::Clear
    } else {
        Route::Unrecognized
    }
}

/// The notification a `/full` request yields from its decompressed body.
pub open spec fn full_notification(decoded: Option<Seq<char>>) -> Option<Seq<char>> {
    match decoded {
        Some(t) => match envelope_params(encode_utf8(t)) {
            Some(p) => Some(framed_notification("$/plugin/full"@, Some(decode_utf8(p)))),
            None => None,
        },
        None => None,
    }
}

/// The notification that a request on `route` puts on the queue.
pub open spec fn notification_for(route: Route, decoded: Option<Seq<char>>) -> Option<Seq<char>> {
    match route {
        Route::Full => full_notification(decoded),
        Route::Clear => Some(framed_notification("$/plugin/clear"@, None)),
        _ => None,
    }
}

/// The status that answers a request whose notification, if any, is `note`.
pub open spec fn enqueue_status(note: Option<Seq<char>>, closed: bool) -> u16 {
    if note is Some && !closed { 200 } else { 500 }
}

pub open spec fn response_for(route: Route, decoded: Option<Seq<char>>, closed: bool) -> Option<u16> {
    match route {
        Route::Reject(code) => Some(code),
        Route::Unrecognized => None,
        _ => Some(enqueue_status(notification_for(route, decoded), closed)),
    }
}

/// The queue after a request whose notification, if any, is `note`.
pub open spec fn queue_after(q: crate::queue::QueueState, note: Option<Seq<char>>) -> crate::queue::QueueState {
    match note {
        Some(n) => after_send(q, encode_utf8(n)),
        None => q,
    }
}

/// What gzip decompression of `data` yields as text, if it succeeds.
pub uninterp spec fn gunzip_text(data: Seq<u8>) -> Option<Seq<char>>;

/// Relies on flate2's `GzDecoder` read to the end as UTF-8 text: the text, or
/// failure on a malformed stream or invalid UTF-8; it depends on the bytes alone.
#[verifier::external_body]
fn gunzip(data: &[u8]) -> (r: Option<String>)
    ensures
        opt_chars(r) == gunzip_text(data@),
{
    let mut text = String::new();
    match GzDecoder::new(data).read_to_string(&mut text) {
        Ok(_) => Some(text),
        Err(_) => None,
    }
}

/// Whether `x` and `y` are equal up to ASCII case.
pub fn eq_ignore_ascii_case(x: &str, y: &str) -> (r: bool)
    ensures
        r == same_ignoring_ascii_case(x.spec_bytes(), y.spec_bytes()),
{
    let a: &[u8] = x.as_bytes();
    let b: &[u8] = y.as_bytes();
    if a.len() != b.len() {
        return false;
    }
    let mut i: usize = 0;
    while i < a.len()
        invariant
            a@ == x.spec_bytes(),
            b@ == y.spec_bytes(),
            a.len() == b.len(),
            i <= a.len(),
            forall|k: int| 0 <= k < i ==> ascii_lower(#[trigger] a@[k]) == ascii_lower(b@[k]),
        decreases a.len() - i,
    {
        let ca: u8 = if 0x41 <= a[i] && a[i] <= 0x5a { a[i] + 0x20 } else { a[i] };
        let cb: u8 = if 0x41 <= b[i] && b[i] <= 0x5a { b[i] + 0x20 } else { b[i] };
        if ca != cb {
            return false;
        }
        i = i + 1;
    }
    true
}

/// The value of the last header named `name`, up to ASCII case.
pub fn find_header(headers: &Vec<(String, String)>, name: &str) -> (r: Option<String>)
    ensures
        opt_chars(r) == header_value(headers@, name.spec_bytes()),
{
    let mut found: Option<String> = None;
    let mut i: usize = 0;
    while i < headers.len()
        invariant
            i <= headers.len(),
            opt_chars(found) == header_value(headers@.take(i as int), name.spec_bytes()),
        decreases headers.len() - i,
    {
        assert(headers@.take(i + 1).drop_last() =~= headers@.take(i as int));
        if eq_ignore_ascii_case(headers[i].0.as_str(), name) {
            found = Some(headers[i].1.clone());
        }
        i = i + 1;
    }
    assert(headers@.take(headers.len() as int) =~= headers@);
    found
}

fn is_text(s: &Option<String>, lit: &str) -> (r: bool)
    ensures
        r == (opt_chars(*s) == Some(lit@)),
{
    match s {
        Some(t) => t.eq(&String::from_str(lit)),
        None => false,
    }
}

/// Classifies a request by method, headers and path.
pub fn route(req: &HttpRequest) -> (r: Route)
    ensures
        r == route_of(req),
{
    if req.method != HttpMethod::Post {
        return Route::Reject(404);
    }
    let ty = find_header(&req.headers, "content-type");
    let encoding = find_header(&req.headers, "content-encoding");
    if !is_text(&ty, "application/json") || !is_text(&encoding, "gzip") {
        return Route::Reject(400);
    }
    if req.path.eq(&String::from_str("/full")) {
        Route::Full
    } else if req.path.eq(&String::from_str("/clear")) {
        Route::Clear
    } else {
        Route::Unrecognized
    }
}

/// Puts the framed notification `note` on the queue: 200 when accepted, 500
/// when the consumer is gone.
pub fn enqueue_notification(q: &mut MessageQueue, note: String) -> (r: u16)
    ensures
        r == enqueue_status(Some(note@), old(q).state().closed),
        final(q).state() == queue_after(old(q).state(), Some(note@)),
{
    let bytes: Vec<u8> = note.as_str().as_bytes_vec();
    match q.send(bytes) {
        Ok(()) => 200,
        Err(_) => 500,
    }
}

/// Finishes a `/full` request from the result of decompressing its body.
pub fn handle_full(q: &mut MessageQueue, decoded: Option<String>) -> (r: u16)
    ensures
        r == enqueue_status(full_notification(opt_chars(decoded)), old(q).state().closed),
        final(q).state() == queue_after(old(q).state(), full_notification(opt_chars(decoded))),
{
    match decoded {
        Some(text) => match full_params(text.as_str()) {
            Some(params) => {
                let note = serialize_notification(String::from_str("$/plugin/full"), Some(params));
                enqueue_notification(q, note)
            },
            None => 500,
        },
        None => 500,
    }
}

/// Handles one request: validates it, enqueues its notification, and gives
/// the status to answer with, or `None` where no answer is sent.
pub fn handle_request(q: &mut MessageQueue, req: &HttpRequest) -> (r: Option<u16>)
    ensures
        r == response_for(route_of(req), gunzip_text(req.body@), old(q).state().closed),
        final(q).state() == queue_after(
            old(q).state(),
            notification_for(route_of(req), gunzip_text(req.body@)),
        ),
{
    match route(req) {
        Route::Reject(code) => Some(code),
        Route::Unrecognized => None,
        Route::Full => {
            let decoded = gunzip(req.body.as_slice());
            Some(handle_full(q, decoded))
        },
        Route::Clear => {
            let note = serialize_notification(String::from_str("$/plugin/clear"), None);
            Some(enqueue_notification(q, note))
        },
    }
}

/// A POST that passes the header checks but names neither `/full` nor
/// `/clear` gets no answer and enqueues nothing, whatever its body.
pub proof fn lemma_unrecognized_path_silent(req: &HttpRequest, decoded: Option<Seq<char>>, closed: bool)
    requires
        req.method == HttpMethod::Post,
        header_value(req.headers@, "content-type".spec_bytes()) == Some("application/json"@),
        header_value(req.headers@, "content-encoding".spec_bytes()) == Some("gzip"@),
        req.path@ != "/full"@,
        req.path@ != "/clear"@,
    ensures
        response_for(route_of(req), decoded, closed) is None,
        notification_for(route_of(req), decoded) is None,
{
}

/// A POST whose content type is missing or other than `application/json` is
/// answered 400 and enqueues nothing.
pub proof fn lemma_header_gating(req: &HttpRequest, decoded: Option<Seq<char>>, closed: bool)
    requires
        req.method == HttpMethod::Post,
        header_value(req.headers@, "content-type".spec_bytes()) != Some("application/json"@),
    ensures
        response_for(route_of(req), decoded, closed) == Some(400u16),
        notification_for(route_of(req), decoded) is None,
{
}

/// A request with any method but POST is answered 404 and enqueues nothing.
pub proof fn lemma_method_gating(req: &HttpRequest, decoded: Option<Seq<char>>, closed: bool)
    requires
        req.method != HttpMethod::Post,
    ensures
        response_for(route_of(req), decoded, closed) == Some(404u16),
        notification_for(route_of(req), decoded) is None,
{
}

/// Once the writer has gone, a request that would enqueue a notification is
/// answered 500 and the queue stays as it was.
pub proof fn lemma_enqueue_after_close(req: &HttpRequest, decoded: Option<Seq<char>>, q: crate::queue::QueueState)
    requires
        q.closed,
        notification_for(route_of(req), decoded) is Some,
    ensures
        response_for(route_of(req), decoded, q.closed) == Some(500u16),
        queue_after(q, notification_for(route_of(req), decoded)) == q,
{
}

} // verus!
