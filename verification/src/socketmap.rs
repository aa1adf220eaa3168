//! The socketmap protocol: `<map> <key>` requests and status-word
//! responses, both framed as netstrings.

use crate::backend::{BackendOutcome, Notice, Outcome};
use crate::netstring::{
    decode_netstring, encode_netstring, lemma_netstring_round_trip, netstring, netstring_payload,
};
use crate::percent::{encode_list, encoded_list, lemma_encoded_list_is_ascii};
use crate::text::{find_byte, first_index, lemma_ascii_is_utf8};
use vstd::prelude::*;
use vstd::slice::{slice_subrange, slice_to_vec};
use vstd::string::{StrSliceExecFns, StringSliceAdditionalSpecFns};
use vstd::utf8::{encode_utf8_valid_utf8, is_ascii_chars_encode_utf8, valid_utf8, valid_utf8_concat};

verus! {

/// The most bytes that the text of a response may have, before it is
/// framed.
pub const SOCKETMAP_MAXIMUM_RESPONSE_LENGTH: usize = 100000;

/// The name of the map and the key that a lookup asks for.
pub struct MapQuery {
    pub map: Vec<u8>,
    pub key: Vec<u8>,
}

/// What a request turned out to be.
pub enum SocketmapRequest {
    /// The bytes are no netstring.
    BadFrame,
    /// The payload has no space in it.
    BadRequest,
    /// A lookup.
    Query(MapQuery),
}

/// `SocketmapRequest` as a mathematical value.
pub ghost enum ParsedRequest {
    BadFrame,
    BadRequest,
    Query { map: Seq<u8>, key: Seq<u8> },
}

impl View for SocketmapRequest {
    type V = ParsedRequest;

    open spec fn view(&self) -> ParsedRequest {
        match self {
            SocketmapRequest::BadFrame => ParsedRequest::BadFrame,
            SocketmapRequest::BadRequest => ParsedRequest::BadRequest,
            SocketmapRequest::Query(q) => ParsedRequest::Query { map: q.map@, key: q.key@ },
        }
    }
}

/// A payload is the map's name, one space and the key: it is split at its
/// first space, so the key may hold more of them.
pub open spec fn socketmap_query(payload: Seq<u8>) -> ParsedRequest {
    let space = first_index(payload, 0x20);
    if space < payload.len() {
        ParsedRequest::Query {
            map: payload.take(space),
            key: payload.skip(space + 1),
        }
    } else {
        ParsedRequest::BadRequest
    }
}

/// What a request asks for.
pub open spec fn socketmap_request(request: Seq<u8>) -> ParsedRequest {
    match netstring_payload(request) {
        Some(payload) => socketmap_query(payload),
        None => ParsedRequest::BadFrame,
    }
}

/// The text of a successful response, or the fixed text in its place where
/// it is longer than the protocol allows.
pub open spec fn socketmap_capped(text: Seq<u8>) -> Seq<u8> {
    if text.len() > SOCKETMAP_MAXIMUM_RESPONSE_LENGTH {
        "TEMP Response too long".spec_bytes()
    } else {
        text
    }
}

/// The text of the response to a lookup with this outcome, before it is
/// framed.
pub open spec fn socketmap_reply_text(outcome: Outcome) -> Seq<u8> {
    match outcome {
        Outcome::Success(values) => if values.len() == 0 {
            "NOTFOUND ".spec_bytes()
        } else {
            socketmap_capped("OK ".spec_bytes() + encoded_list(values))
        },
        Outcome::EmptyResult => "NOTFOUND ".spec_bytes(),
        Outcome::NotFound => "NOTFOUND ".spec_bytes(),
        Outcome::ClientError => "PERM Configuration error".spec_bytes(),
        Outcome::ServerError => "TEMP Server error".spec_bytes(),
        Outcome::InvalidJson => "TEMP Invalid JSON".spec_bytes(),
        Outcome::UnknownStatus => "TEMP Unknown error".spec_bytes(),
        Outcome::TransportFailure(_) => "TEMP Connection failed".spec_bytes(),
    }
}

/// What the log is told about the response to a lookup: that the
/// backend's answer was no JSON, or that the values did not fit the
/// response.
pub open spec fn socketmap_notice(outcome: Outcome) -> Option<Notice> {
    match outcome {
        Outcome::InvalidJson => Some(Notice::InvalidJson),
        Outcome::Success(values) => if values.len() > 0 && ("OK ".spec_bytes() + encoded_list(
            values,
        )).len() > SOCKETMAP_MAXIMUM_RESPONSE_LENGTH {
            Some(Notice::ResponseTooLong)
        } else {
            None
        },
        _ => None,
    }
}

/// The response to a lookup with this outcome.
pub open spec fn socketmap_reply(outcome: Outcome) -> Seq<u8> {
    netstring(socketmap_reply_text(outcome))
}

/// The response to bytes that are no netstring.
pub open spec fn socketmap_bad_frame() -> Seq<u8> {
    netstring("TEMP Invalid netstring format".spec_bytes())
}

/// The response to a payload that is no lookup.
pub open spec fn socketmap_bad_request() -> Seq<u8> {
    netstring("TEMP Invalid request".spec_bytes())
}

/// The text of a response is never longer than the protocol allows.
pub proof fn lemma_socketmap_text_within_limit(outcome: Outcome)
    ensures
        socketmap_reply_text(outcome).len() <= SOCKETMAP_MAXIMUM_RESPONSE_LENGTH,
{
    reveal_strlit("TEMP Response too long");
    reveal_strlit("NOTFOUND ");
    reveal_strlit("PERM Configuration error");
    reveal_strlit("TEMP Server error");
    reveal_strlit("TEMP Invalid JSON");
    reveal_strlit("TEMP Unknown error");
    reveal_strlit("TEMP Connection failed");
    is_ascii_chars_encode_utf8("TEMP Response too long"@);
    is_ascii_chars_encode_utf8("NOTFOUND "@);
    is_ascii_chars_encode_utf8("PERM Configuration error"@);
    is_ascii_chars_encode_utf8("TEMP Server error"@);
    is_ascii_chars_encode_utf8("TEMP Invalid JSON"@);
    is_ascii_chars_encode_utf8("TEMP Unknown error"@);
    is_ascii_chars_encode_utf8("TEMP Connection failed"@);
}

/// The text of a response is UTF-8.
pub proof fn lemma_socketmap_text_is_utf8(outcome: Outcome)
    ensures
        valid_utf8(socketmap_reply_text(outcome)),
{
    encode_utf8_valid_utf8("TEMP Response too long"@);
    encode_utf8_valid_utf8("NOTFOUND "@);
    encode_utf8_valid_utf8("PERM Configuration error"@);
    encode_utf8_valid_utf8("TEMP Server error"@);
    encode_utf8_valid_utf8("TEMP Invalid JSON"@);
    encode_utf8_valid_utf8("TEMP Unknown error"@);
    encode_utf8_valid_utf8("TEMP Connection failed"@);
    encode_utf8_valid_utf8("OK "@);
    match outcome {
        Outcome::Success(values) => {
            lemma_encoded_list_is_ascii(values);
            lemma_ascii_is_utf8(encoded_list(values));
            valid_utf8_concat("OK ".spec_bytes(), encoded_list(values));
        },
        _ => {},
    }
}

/// Every response is a netstring: decoding it gives the text of the
/// response back.
pub proof fn lemma_socketmap_reply_is_framed(outcome: Outcome)
    ensures
        netstring_payload(socketmap_reply(outcome)) == Some(socketmap_reply_text(outcome)),
        netstring_payload(socketmap_bad_frame()) is Some,
        netstring_payload(socketmap_bad_request()) is Some,
{
    lemma_socketmap_text_is_utf8(outcome);
    encode_utf8_valid_utf8("TEMP Invalid netstring format"@);
    encode_utf8_valid_utf8("TEMP Invalid request"@);
    lemma_netstring_round_trip(socketmap_reply_text(outcome), Seq::empty());
    lemma_netstring_round_trip("TEMP Invalid netstring format".spec_bytes(), Seq::empty());
    lemma_netstring_round_trip("TEMP Invalid request".spec_bytes(), Seq::empty());
}

/// Takes a request apart.
pub fn parse_socketmap_request(request: &[u8]) -> (r: SocketmapRequest)
    ensures
        r@ == socketmap_request(request@),
{
    match decode_netstring(request) {
        None => SocketmapRequest::BadFrame,
        Some(payload) => {
            let space = find_byte(payload.as_slice(), 0x20);
            if space < payload.len() {
                let map = slice_to_vec(slice_subrange(payload.as_slice(), 0, space));
                let key = slice_to_vec(
                    slice_subrange(payload.as_slice(), space + 1, payload.len()),
                );
                SocketmapRequest::Query(MapQuery { map, key })
            } else {
                SocketmapRequest::BadRequest
            }
        },
    }
}

/// The text of the response to a lookup, before it is framed, and what
/// the log is told about it.
pub fn socketmap_answer_text(outcome: &BackendOutcome) -> (out: (Vec<u8>, Option<Notice>))
    ensures
        out.0@ == socketmap_reply_text(outcome@),
        out.1 == socketmap_notice(outcome@),
{
    match outcome {
        BackendOutcome::Success(values) => {
            if values.len() == 0 {
                ("NOTFOUND ".as_bytes_vec(), None)
            } else {
                let mut text = "OK ".as_bytes_vec();
                let mut joined = encode_list(values);
                text.append(&mut joined);
                if text.len() > SOCKETMAP_MAXIMUM_RESPONSE_LENGTH {
                    ("TEMP Response too long".as_bytes_vec(), Some(Notice::ResponseTooLong))
                } else {
                    (text, None)
                }
            }
        },
        BackendOutcome::EmptyResult => ("NOTFOUND ".as_bytes_vec(), None),
        BackendOutcome::NotFound => ("NOTFOUND ".as_bytes_vec(), None),
        BackendOutcome::ClientError => ("PERM Configuration error".as_bytes_vec(), None),
        BackendOutcome::ServerError => ("TEMP Server error".as_bytes_vec(), None),
        BackendOutcome::InvalidJson => (
            "TEMP Invalid JSON".as_bytes_vec(),
            Some(Notice::InvalidJson),
        ),
        BackendOutcome::UnknownStatus => ("TEMP Unknown error".as_bytes_vec(), None),
        BackendOutcome::TransportFailure(_) => ("TEMP Connection failed".as_bytes_vec(), None),
    }
}

/// The text of the response to a lookup, before it is framed.
pub fn socketmap_response_text(outcome: &BackendOutcome) -> (out: Vec<u8>)
    ensures
        out@ == socketmap_reply_text(outcome@),
{
    socketmap_answer_text(outcome).0
}

/// The response to a lookup, from its outcome, and what the log is told
/// about it.
pub fn socketmap_answer(outcome: &BackendOutcome) -> (out: (Vec<u8>, Option<Notice>))
    ensures
        out.0@ == socketmap_reply(outcome@),
        out.1 == socketmap_notice(outcome@),
{
    let (text, notice) = socketmap_answer_text(outcome);
    (encode_netstring(text.as_slice()), notice)
}

/// The response to a lookup, from its outcome.
pub fn socketmap_response(outcome: &BackendOutcome) -> (out: Vec<u8>)
    ensures
        out@ == socketmap_reply(outcome@),
{
    socketmap_answer(outcome).0
}

/// The response to a request that is no netstring.
pub fn socketmap_bad_frame_response() -> (out: Vec<u8>)
    ensures
        out@ == socketmap_bad_frame(),
{
    encode_netstring("TEMP Invalid netstring format".as_bytes())
}

/// The response to a request whose payload is no lookup.
pub fn socketmap_bad_request_response() -> (out: Vec<u8>)
    ensures
        out@ == socketmap_bad_request(),
{
    encode_netstring("TEMP Invalid request".as_bytes())
}

} // verus!
