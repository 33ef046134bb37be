use std::io::Write;

use flate2::write::GzEncoder;
use flate2::Compression;
use stdin_bridge::codec::serialize_notification;
use stdin_bridge::envelope::full_params;
use stdin_bridge::ingest::{
    eq_ignore_ascii_case, find_header, handle_full, handle_request, route, HttpMethod, HttpRequest,
    Route,
};
use stdin_bridge::queue::MessageQueue;

fn gzip(text: &str) -> Vec<u8> {
    let mut enc = GzEncoder::new(Vec::new(), Compression::default());
    enc.write_all(text.as_bytes()).unwrap();
    enc.finish().unwrap()
}

fn request(method: HttpMethod, path: &str, headers: &[(&str, &str)], body: Vec<u8>) -> HttpRequest {
    HttpRequest {
        method,
        path: path.to_string(),
        headers: headers.iter().map(|(f, v)| (f.to_string(), v.to_string())).collect(),
        body,
    }
}

const JSON_GZIP: [(&str, &str); 2] = [("Content-Type", "application/json"), ("Content-Encoding", "gzip")];

fn drain(q: &mut MessageQueue) -> Vec<u8> {
    let mut out = Vec::new();
    while q.deliver_next(&mut out) {}
    out
}

#[test]
fn codec_clear_is_exact() {
    let s = serialize_notification("$/plugin/clear".to_string(), None);
    assert_eq!(
        s,
        "Content-Length: 57\r\n\r\n{\"jsonrpc\":\"2.0\",\"method\":\"$/plugin/clear\",\"params\":null}"
    );
}

#[test]
fn codec_inserts_params_raw() {
    let s = serialize_notification("m".to_string(), Some("[1,\"x\"]".to_string()));
    let body = "{\"jsonrpc\":\"2.0\",\"method\":\"m\",\"params\":[1,\"x\"]}";
    assert_eq!(s, format!("Content-Length: {}\r\n\r\n{}", body.len(), body));
}

#[test]
fn codec_counts_utf8_bytes() {
    let s = serialize_notification("m".to_string(), Some("\"é\"".to_string()));
    let body = "{\"jsonrpc\":\"2.0\",\"method\":\"m\",\"params\":\"é\"}";
    assert_eq!(body.len(), 44);
    assert_eq!(s, format!("Content-Length: 44\r\n\r\n{}", body));
}

#[test]
fn codec_three_digit_length() {
    let params = "x".repeat(100);
    let s = serialize_notification("m".to_string(), Some(params.clone()));
    assert!(s.starts_with("Content-Length: 140\r\n\r\n"));
}

#[test]
fn envelope_is_stripped() {
    assert_eq!(full_params("12345678{\"k\":\"v\"}9"), Some("{\"k\":\"v\"}".to_string()));
}

#[test]
fn envelope_of_nine_bytes_is_empty() {
    assert_eq!(full_params("123456789"), Some(String::new()));
}

#[test]
fn envelope_too_short() {
    assert_eq!(full_params("12345678"), None);
    assert_eq!(full_params(""), None);
}

#[test]
fn envelope_cut_inside_character() {
    assert_eq!(full_params("1234567é{}9"), None);
    assert_eq!(full_params("12345678{}é"), None);
}

#[test]
fn header_names_ignore_ascii_case() {
    assert!(eq_ignore_ascii_case("Content-TYPE", "content-type"));
    assert!(!eq_ignore_ascii_case("content-typ", "content-type"));
    assert!(!eq_ignore_ascii_case("content_type", "content-type"));
}

#[test]
fn last_header_wins() {
    let headers = vec![
        ("content-type".to_string(), "text/plain".to_string()),
        ("X-Other".to_string(), "1".to_string()),
        ("CONTENT-TYPE".to_string(), "application/json".to_string()),
    ];
    assert_eq!(find_header(&headers, "content-type"), Some("application/json".to_string()));
    assert_eq!(find_header(&headers, "content-encoding"), None);
}

#[test]
fn get_is_not_found() {
    let mut q = MessageQueue::new();
    let req = request(HttpMethod::Other, "/clear", &JSON_GZIP, Vec::new());
    assert_eq!(route(&req), Route::Reject(404));
    assert_eq!(handle_request(&mut q, &req), Some(404));
    assert_eq!(q.len(), 0);
}

#[test]
fn wrong_content_type_is_bad_request() {
    let mut q = MessageQueue::new();
    let headers = [("content-type", "text/plain"), ("content-encoding", "gzip")];
    let req = request(HttpMethod::Post, "/full", &headers, gzip("12345678{}9"));
    assert_eq!(handle_request(&mut q, &req), Some(400));
    assert_eq!(q.len(), 0);
}

#[test]
fn missing_encoding_is_bad_request() {
    let mut q = MessageQueue::new();
    let headers = [("content-type", "application/json")];
    let req = request(HttpMethod::Post, "/clear", &headers, Vec::new());
    assert_eq!(handle_request(&mut q, &req), Some(400));
    assert_eq!(q.len(), 0);
}

#[test]
fn content_type_value_is_exact() {
    let mut q = MessageQueue::new();
    let headers = [("content-type", "Application/JSON"), ("content-encoding", "gzip")];
    let req = request(HttpMethod::Post, "/clear", &headers, Vec::new());
    assert_eq!(handle_request(&mut q, &req), Some(400));
}

#[test]
fn unknown_path_gets_no_answer() {
    let mut q = MessageQueue::new();
    let req = request(HttpMethod::Post, "/other", &JSON_GZIP, gzip("12345678{}9"));
    assert_eq!(route(&req), Route::Unrecognized);
    assert_eq!(handle_request(&mut q, &req), None);
    assert_eq!(q.len(), 0);
}

#[test]
fn clear_enqueues_notification() {
    let mut q = MessageQueue::new();
    let req = request(HttpMethod::Post, "/clear", &JSON_GZIP, b"ignored".to_vec());
    assert_eq!(handle_request(&mut q, &req), Some(200));
    assert_eq!(
        drain(&mut q),
        b"Content-Length: 57\r\n\r\n{\"jsonrpc\":\"2.0\",\"method\":\"$/plugin/clear\",\"params\":null}".to_vec()
    );
}

#[test]
fn full_enqueues_stripped_params() {
    let mut q = MessageQueue::new();
    let req = request(HttpMethod::Post, "/full", &JSON_GZIP, gzip("12345678{\"k\":\"v\"}9"));
    assert_eq!(handle_request(&mut q, &req), Some(200));
    let body = "{\"jsonrpc\":\"2.0\",\"method\":\"$/plugin/full\",\"params\":{\"k\":\"v\"}}";
    let expected = format!("Content-Length: {}\r\n\r\n{}", body.len(), body);
    assert_eq!(drain(&mut q), expected.into_bytes());
}

#[test]
fn full_with_bad_gzip_fails() {
    let mut q = MessageQueue::new();
    let req = request(HttpMethod::Post, "/full", &JSON_GZIP, b"12345678{}9".to_vec());
    assert_eq!(handle_request(&mut q, &req), Some(500));
    assert_eq!(q.len(), 0);
}

#[test]
fn full_with_short_payload_fails() {
    let mut q = MessageQueue::new();
    assert_eq!(handle_full(&mut q, Some("1234".to_string())), 500);
    assert_eq!(handle_full(&mut q, None), 500);
    assert_eq!(q.len(), 0);
}

#[test]
fn full_from_decoded_text() {
    let mut q = MessageQueue::new();
    assert_eq!(handle_full(&mut q, Some("abcdefgh[1]z".to_string())), 200);
    let body = "{\"jsonrpc\":\"2.0\",\"method\":\"$/plugin/full\",\"params\":[1]}";
    assert_eq!(drain(&mut q), format!("Content-Length: {}\r\n\r\n{}", body.len(), body).into_bytes());
}

#[test]
fn enqueue_after_writer_gone_fails() {
    let mut q = MessageQueue::new();
    q.close();
    assert!(q.is_closed());
    let req = request(HttpMethod::Post, "/clear", &JSON_GZIP, Vec::new());
    assert_eq!(handle_request(&mut q, &req), Some(500));
    let req = request(HttpMethod::Post, "/full", &JSON_GZIP, gzip("12345678{}9"));
    assert_eq!(handle_request(&mut q, &req), Some(500));
    assert_eq!(q.len(), 0);
}

#[test]
fn single_producer_order_kept() {
    let mut q = MessageQueue::new();
    for i in 0..5u8 {
        assert!(q.send(vec![i, i]).is_ok());
    }
    for i in 0..5u8 {
        assert_eq!(q.recv(), Some(vec![i, i]));
    }
    assert_eq!(q.recv(), None);
}

#[test]
fn two_producers_do_not_interleave() {
    let mut q = MessageQueue::new();
    assert!(q.forward_chunk(b"AAAA"));
    let req = request(HttpMethod::Post, "/clear", &JSON_GZIP, Vec::new());
    assert_eq!(handle_request(&mut q, &req), Some(200));
    assert!(q.forward_chunk(b"BBBB"));
    let out = drain(&mut q);
    let note = "Content-Length: 57\r\n\r\n{\"jsonrpc\":\"2.0\",\"method\":\"$/plugin/clear\",\"params\":null}";
    assert_eq!(out, format!("AAAA{}BBBB", note).into_bytes());
}

#[test]
fn passthrough_is_verbatim() {
    let mut q = MessageQueue::new();
    assert!(q.forward_chunk(b"PING\n"));
    assert_eq!(drain(&mut q), b"PING\n".to_vec());
}

#[test]
fn forwarder_stops_at_end_of_input() {
    let mut q = MessageQueue::new();
    assert!(!q.forward_chunk(b""));
    assert_eq!(q.len(), 0);
    q.close();
    assert!(!q.forward_chunk(b"x"));
    assert_eq!(q.len(), 0);
}

#[test]
fn send_after_close_returns_message() {
    let mut q = MessageQueue::new();
    q.close();
    assert_eq!(q.send(vec![1, 2, 3]), Err(vec![1, 2, 3]));
}
