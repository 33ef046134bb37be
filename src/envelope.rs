//! The fixed wrapper around a `/full` payload: an 8-byte prefix and a 1-byte
//! suffix that are cut away before the rest is used as notification params.
use vstd::prelude::*;
use vstd::string::*;
use vstd::utf8::*;

verus! {

broadcast use {encode_utf8_valid_utf8, is_char_boundary_iff_not_is_continuation_byte, valid_utf8_split, encode_utf8_decode_utf8};

pub const PREFIX_LEN: usize = 8;

/// The bytes between the prefix and the suffix, when the text is long enough
/// and both cuts fall on character boundaries.
pub open spec fn envelope_params(b: Seq<u8>) -> Option<Seq<u8>> {
    if b.len() >= PREFIX_LEN + 1 && !is_continuation_byte(b[PREFIX_LEN as int])
        && !is_continuation_byte(b[b.len() - 1]) {
        Some(b.subrange(PREFIX_LEN as int, b.len() - 1))
    } else {
        None
    }
}

/// Cuts the prefix and the suffix from `text`; `None` where the text is too
/// short or a cut would split a character.
pub fn full_params(text: &str) -> (r: Option<String>)
    ensures
        r.is_some() == envelope_params(text.spec_bytes()).is_some(),
        r matches Some(p) ==> envelope_params(text.spec_bytes()) == Some(encode_utf8(p@)),
        r matches Some(p) ==> p@ == decode_utf8(envelope_params(text.spec_bytes()).unwrap()),
{
    let b: &[u8] = text.as_bytes();
    let n: usize = b.len();
    if n < PREFIX_LEN + 1 {
        return None;
    }
    let first: u8 = b[PREFIX_LEN];
    let last: u8 = b[n - 1];
    if (0x80 <= first && first <= 0xbf) || (0x80 <= last && last <= 0xbf) {
        return None;
    }
    let ghost whole = text.spec_bytes();
    assert(is_char_boundary(whole, PREFIX_LEN as int));
    let (_, rest) = text.split_at(PREFIX_LEN);
    let ghost tail = rest.spec_bytes();
    assert(tail[(n - 1 - PREFIX_LEN) as int] == whole[n - 1]);
    assert(is_char_boundary(tail, (n - 1 - PREFIX_LEN) as int));
    let (inner, _) = rest.split_at(n - 1 - PREFIX_LEN);
    assert(inner.spec_bytes() =~= whole.subrange(PREFIX_LEN as int, n - 1));
    let p = inner.to_owned();
    assert(decode_utf8(encode_utf8(p@)) == p@);
    Some(p)
}

} // verus!
