//! The notification codec: a JSON-RPC 2.0 notification framed with a
//! `Content-Length` header.
use vstd::prelude::*;
use vstd::string::*;
use vstd::utf8::*;

verus! {

/// The ASCII digit for `d`, which is below ten.
pub open spec fn digit_char(d: nat) -> char {
    if d == 0 { '0' }
    else if d == 1 { '1' }
    else if d == 2 { '2' }
    else if d == 3 { '3' }
    else if d == 4 { '4' }
    else if d == 5 { '5' }
    else if d == 6 { '6' }
    else if d == 7 { '7' }
    else if d == 8 { '8' }
    else { '9' }
}

/// The decimal form of `n`, without sign or leading zeros.
pub open spec fn decimal(n: nat) -> Seq<char>
    decreases n,
{
    if n < 10 {
        seq![digit_char(n)]
    } else {
        decimal(n / 10).push(digit_char(n % 10))
    }
}

/// The text of a notification: `params` is inserted raw, or `null` when absent.
pub open spec fn notification_body(method: Seq<char>, params: Option<Seq<char>>) -> Seq<char> {
    "{\"jsonrpc\":\"2.0\",\"method\":\""@ + method + "\",\"params\":"@
        + match params {
        Some(p) => p,
        None => "null"@,
    } + "}"@
}

/// The framed notification: the header gives the body's length in UTF-8 bytes.
pub open spec fn framed_notification(method: Seq<char>, params: Option<Seq<char>>) -> Seq<char> {
    let body = notification_body(method, params);
    "Content-Length: "@ + decimal(encode_utf8(body).len()) + "\r\n\r\n"@ + body
}

pub open spec fn opt_chars(s: Option<String>) -> Option<Seq<char>> {
    match s {
        Some(t) => Some(t@),
        None => None,
    }
}

fn digit_str(d: usize) -> (r: &'static str)
    requires
        d < 10,
    ensures
        r@ == seq![digit_char(d as nat)],
{
    if d == 0 {
        proof { reveal_strlit("0"); }
        "0"
    } else if d == 1 {
        proof { reveal_strlit("1"); }
        "1"
    } else if d == 2 {
        proof { reveal_strlit("2"); }
        "2"
    } else if d == 3 {
        proof { reveal_strlit("3"); }
        "3"
    } else if d == 4 {
        proof { reveal_strlit("4"); }
        "4"
    } else if d == 5 {
        proof { reveal_strlit("5"); }
        "5"
    } else if d == 6 {
        proof { reveal_strlit("6"); }
        "6"
    } else if d == 7 {
        proof { reveal_strlit("7"); }
        "7"
    } else if d == 8 {
        proof { reveal_strlit("8"); }
        "8"
    } else {
        proof { reveal_strlit("9"); }
        "9"
    }
}

/// Appends the decimal form of `n` to `s`.
fn push_decimal(s: &mut String, n: usize)
    ensures
        final(s)@ == old(s)@ + decimal(n as nat),
    decreases n,
{
    if n >= 10 {
        push_decimal(s, n / 10);
    }
    s.append(digit_str(n % 10));
}

/// Frames a notification for `method` with the raw `params` text (or `null`).
pub fn serialize_notification(method: String, params: Option<String>) -> (r: String)
    ensures
        r@ == framed_notification(method@, opt_chars(params)),
{
    let mut content = String::from_str("{\"jsonrpc\":\"2.0\",\"method\":\"");
    content.append(method.as_str());
    content.append("\",\"params\":");
    match &params {
        Some(p) => content.append(p.as_str()),
        None => content.append("null"),
    }
    content.append("}");
    let mut framed = String::from_str("Content-Length: ");
    let text: &str = content.as_str();
    let n: usize = text.as_bytes().len();
    assert(n == encode_utf8(content@).len());
    push_decimal(&mut framed, n);
    framed.append("\r\n\r\n");
    framed.append(content.as_str());
    assert(content@ =~= notification_body(method@, opt_chars(params)));
    assert(framed@ =~= framed_notification(method@, opt_chars(params)));
    framed
}

} // verus!
