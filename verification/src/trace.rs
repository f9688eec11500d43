//! The trace identifier of a call: taken from a header of the request, or
//! made afresh.

use crate::options::Header;
use crate::request::{header_of, request_header};
use hyper::{Body, Request};
use uuid::Uuid;
use vstd::prelude::*;

verus! {

/// A byte that may stand in a header value read as text: visible ASCII, a
/// space or a tab.
pub open spec fn is_visible(byte: u8) -> bool {
    (32 <= byte && byte < 127) || byte == 9
}

/// A header value can be read as text when each of its bytes is visible.
pub open spec fn is_text(bytes: Seq<u8>) -> bool {
    forall|i: int| 0 <= i < bytes.len() ==> is_visible(#[trigger] bytes[i])
}

/// The characters that the bytes of a header value stand for.
pub open spec fn text_of(bytes: Seq<u8>) -> Seq<char> {
    Seq::new(bytes.len(), |i: int| bytes[i] as char)
}

/// The trace identifier that a request brings with it: the value found
/// under the trace header, where one was found and it can be read as text.
pub open spec fn inbound_trace_id(found: Option<Seq<u8>>) -> Option<Seq<char>> {
    match found {
        Some(bytes) => if is_text(bytes) {
            Some(text_of(bytes))
        } else {
            None
        },
        None => None,
    }
}

/// A digit of a lower-case hexadecimal number.
pub open spec fn is_hex_digit(c: char) -> bool {
    ('0' <= c && c <= '9') || ('a' <= c && c <= 'f')
}

/// The text of a random 128-bit identifier: 32 lower-case hexadecimal
/// digits in groups of 8, 4, 4, 4 and 12, parted by hyphens, where the
/// third group begins with the version digit `4` and the fourth with one of
/// the variant digits `8`, `9`, `a`, `b`.
pub open spec fn is_random_id(id: Seq<char>) -> bool {
    &&& id.len() == 36
    &&& forall|i: int|
        0 <= i < 36 ==> if i == 8 || i == 13 || i == 18 || i == 23 {
            #[trigger] id[i] == '-'
        } else {
            is_hex_digit(id[i])
        }
    &&& id[14] == '4'
    &&& (id[19] == '8' || id[19] == '9' || id[19] == 'a' || id[19] == 'b')
}

/// `String::push` appends the character to the end of the text.
///
/// Not proved: std is taken at its word.
pub assume_specification[ String::push ](text: &mut String, ch: char)
    ensures
        final(text)@ == old(text)@.push(ch),
;

/// Calls `Uuid::new_v4` and renders the identifier as text.
///
/// Not proved: that the text has the shape of a random identifier. Which
/// identifier comes back differs from call to call, and nothing is said of
/// it beyond its shape.
#[verifier::external_body]
fn fresh_id() -> (id: String)
    ensures
        is_random_id(id@),
{
    Uuid::new_v4().to_string()
}

/// Reads a header value as text, if all of its bytes are visible.
pub fn read_text(bytes: &Vec<u8>) -> (text: Option<String>)
    ensures
        match text {
            Some(t) => is_text(bytes@) && t@ == text_of(bytes@),
            None => !is_text(bytes@),
        },
{
    let mut text = String::new();
    let mut i: usize = 0;
    while i < bytes.len()
        invariant
            i <= bytes.len(),
            is_text(bytes@.take(i as int)),
            text@ == text_of(bytes@.take(i as int)),
        decreases bytes.len() - i,
    {
        let byte = bytes[i];
        if !((32 <= byte && byte < 127) || byte == 9) {
            return None;
        }
        text.push(byte as char);
        proof {
            let before = bytes@.take(i as int);
            let after = bytes@.take(i + 1);
            assert(after =~= before.push(byte));
            assert(text_of(after) =~= text_of(before).push(byte as char));
        }
        i = i + 1;
    }
    assert(bytes@.take(i as int) =~= bytes@);
    Some(text)
}

/// The bytes found under a header, if any were found.
pub open spec fn found_bytes(found: Option<Vec<u8>>) -> Option<Seq<u8>> {
    match found {
        Some(bytes) => Some(bytes@),
        None => None,
    }
}

/// The trace identifier of a call, given what was found under the trace
/// header: that value, where one was found and it reads as text, and else
/// a fresh random identifier.
pub fn trace_id_or_fresh(found: Option<Vec<u8>>) -> (id: String)
    ensures
        match inbound_trace_id(found_bytes(found)) {
            Some(text) => id@ == text,
            None => is_random_id(id@),
        },
{
    match found {
        Some(bytes) => match read_text(&bytes) {
            Some(text) => text,
            None => fresh_id(),
        },
        None => fresh_id(),
    }
}

/// The trace identifier of the call that `req` makes: the value of the
/// header named by `header`, where the request has one that reads as text,
/// and else a fresh random identifier.
pub fn extract(req: &Request<Body>, header: &Header) -> (id: String)
    ensures
        match inbound_trace_id(request_header(*req, header.0@)) {
            Some(text) => id@ == text,
            None => is_random_id(id@),
        },
{
    trace_id_or_fresh(header_of(req, header.0.as_str()))
}

} // verus!
