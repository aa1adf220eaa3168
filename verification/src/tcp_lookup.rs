//! The TCP lookup protocol: `get <key>` requests, and responses of a
//! three-digit code, a space, percent-encoded text and a line feed.

use crate::backend::{BackendOutcome, Notice, Outcome};
use crate::netstring::decimal;
use crate::percent::{encode_list, encode_response, encoded_list, percent_encoded};
use crate::text::{find_token_end, skip_space, skip_spaces, text_views, token_end};
use vstd::prelude::*;
use vstd::slice::{slice_subrange, slice_to_vec};
use vstd::string::{StrSliceExecFns, StringSliceAdditionalSpecFns};
use vstd::utf8::is_ascii_chars_encode_utf8;

verus! {

/// The most bytes that a response may have, the line feed included.
pub const TCP_MAXIMUM_RESPONSE_LENGTH: usize = 4096;

/// A response line: the code, a space, the body as it stands, a line
/// feed.
pub open spec fn tcp_line(code: u16, body: Seq<u8>) -> Seq<u8> {
    decimal(code as nat) + seq![0x20u8] + body + seq![0x0Au8]
}

/// The response that takes the place of one that is too long.
pub open spec fn tcp_too_long() -> Seq<u8> {
    "500 Response%20too%20long\n".spec_bytes()
}

/// A response line, or the fixed response in its place where the line
/// is longer than the protocol allows.
pub open spec fn tcp_capped(line: Seq<u8>) -> Seq<u8> {
    if line.len() > TCP_MAXIMUM_RESPONSE_LENGTH {
        tcp_too_long()
    } else {
        line
    }
}

/// The response with this code and this text, which is percent-encoded.
pub open spec fn tcp_response(code: u16, data: Seq<u8>) -> Seq<u8> {
    tcp_capped(tcp_line(code, percent_encoded(data)))
}

/// The key of a request: the second token, where the first is `get`.
pub open spec fn tcp_lookup_key(request: Seq<u8>) -> Option<Seq<u8>> {
    let verb_start = skip_space(request, 0);
    let verb_end = token_end(request, verb_start);
    let key_start = skip_space(request, verb_end);
    let key_end = token_end(request, key_start);
    if request.subrange(verb_start, verb_end) == seq![0x67u8, 0x65u8, 0x74u8] && key_start
        < request.len() {
        Some(request.subrange(key_start, key_end))
    } else {
        None
    }
}

/// The response to a request that is no lookup.
pub open spec fn tcp_invalid_request() -> Seq<u8> {
    tcp_response(500, "Invalid request".spec_bytes())
}

/// The response to a lookup with this outcome.
pub open spec fn tcp_lookup_reply(outcome: Outcome) -> Seq<u8> {
    match outcome {
        Outcome::Success(values) => if values.len() == 0 {
            tcp_response(500, "Empty result".spec_bytes())
        } else {
            tcp_capped(tcp_line(200, encoded_list(values)))
        },
        Outcome::EmptyResult => tcp_response(500, "Empty result".spec_bytes()),
        Outcome::NotFound => tcp_response(500, "Not found".spec_bytes()),
        Outcome::ClientError => tcp_response(400, "Client error".spec_bytes()),
        Outcome::ServerError => tcp_response(400, "Server error".spec_bytes()),
        Outcome::InvalidJson => tcp_response(500, "Invalid JSON".spec_bytes()),
        Outcome::UnknownStatus => tcp_response(500, "Unknown error".spec_bytes()),
        Outcome::TransportFailure(_) => tcp_response(400, "Connection failed".spec_bytes()),
    }
}

/// What the log is told about the response to a lookup: that the
/// backend's answer was no JSON, or that the values did not fit the
/// response.
pub open spec fn tcp_lookup_notice(outcome: Outcome) -> Option<Notice> {
    match outcome {
        Outcome::InvalidJson => Some(Notice::InvalidJson),
        Outcome::Success(values) => if values.len() > 0 && tcp_line(200, encoded_list(values)).len()
            > TCP_MAXIMUM_RESPONSE_LENGTH {
            Some(Notice::ResponseTooLong)
        } else {
            None
        },
        _ => None,
    }
}

/// No response line is longer than the protocol allows, once it is
/// capped.
pub proof fn lemma_tcp_response_within_limit(line: Seq<u8>)
    ensures
        tcp_capped(line).len() <= TCP_MAXIMUM_RESPONSE_LENGTH,
{
    let fixed = "500 Response%20too%20long\n";
    reveal_strlit("500 Response%20too%20long\n");
    is_ascii_chars_encode_utf8(fixed@);
}

/// No response to a lookup is longer than the protocol allows.
pub proof fn lemma_tcp_lookup_reply_within_limit(outcome: Outcome)
    ensures
        tcp_lookup_reply(outcome).len() <= TCP_MAXIMUM_RESPONSE_LENGTH,
        tcp_invalid_request().len() <= TCP_MAXIMUM_RESPONSE_LENGTH,
{
    assert forall|line: Seq<u8>| #[trigger]
        tcp_capped(line).len() <= TCP_MAXIMUM_RESPONSE_LENGTH by {
        lemma_tcp_response_within_limit(line);
    }
}

/// Writes the line for `code` and an encoded body, or the fixed response
/// where that line is too long.
fn finish_tcp_line(code: u16, body: Vec<u8>) -> (out: (Vec<u8>, bool))
    ensures
        out.0@ == tcp_capped(tcp_line(code, body@)),
        out.1 == (tcp_line(code, body@).len() > TCP_MAXIMUM_RESPONSE_LENGTH),
{
    let mut body = body;
    let mut out: Vec<u8> = Vec::new();
    crate::netstring::push_decimal(code as usize, &mut out);
    out.push(0x20);
    out.append(&mut body);
    out.push(0x0A);
    if out.len() > TCP_MAXIMUM_RESPONSE_LENGTH {
        ("500 Response%20too%20long\n".as_bytes_vec(), true)
    } else {
        (out, false)
    }
}

/// Formats a response: `data` is percent-encoded, and a response over the
/// limit is replaced as a whole.
pub fn format_tcp_response(code: u16, data: &[u8]) -> (out: Vec<u8>)
    ensures
        out@ == tcp_response(code, data@),
{
    finish_tcp_line(code, encode_response(data)).0
}

/// Reads the key out of a request.
pub fn parse_tcp_request(request: &[u8]) -> (r: Option<Vec<u8>>)
    ensures
        match r {
            Some(key) => tcp_lookup_key(request@) == Some(key@),
            None => tcp_lookup_key(request@) is None,
        },
{
    let verb_start = skip_spaces(request, 0);
    let verb_end = find_token_end(request, verb_start);
    let key_start = skip_spaces(request, verb_end);
    let key_end = find_token_end(request, key_start);
    let ghost verb = request@.subrange(verb_start as int, verb_end as int);
    if verb_end - verb_start == 3 && request[verb_start] == 0x67 && request[verb_start + 1] == 0x65
        && request[verb_start + 2] == 0x74 && key_start < request.len() {
        assert(verb =~= seq![0x67u8, 0x65u8, 0x74u8]);
        Some(slice_to_vec(slice_subrange(request, key_start, key_end)))
    } else {
        proof {
            if verb == seq![0x67u8, 0x65u8, 0x74u8] {
                assert(verb.len() == 3);
                assert(verb[0] == 0x67u8 && verb[1] == 0x65u8 && verb[2] == 0x74u8);
            }
        }
        None
    }
}

/// The response to a lookup, from its outcome, and what the log is told
/// about it.
pub fn tcp_lookup_answer(outcome: &BackendOutcome) -> (out: (Vec<u8>, Option<Notice>))
    ensures
        out.0@ == tcp_lookup_reply(outcome@),
        out.1 == tcp_lookup_notice(outcome@),
{
    match outcome {
        BackendOutcome::Success(values) => {
            if values.len() == 0 {
                (format_tcp_response(500, "Empty result".as_bytes()), None)
            } else {
                let (line, over) = finish_tcp_line(200, encode_list(values));
                (
                    line,
                    if over {
                        Some(Notice::ResponseTooLong)
                    } else {
                        None
                    },
                )
            }
        },
        BackendOutcome::EmptyResult => (format_tcp_response(500, "Empty result".as_bytes()), None),
        BackendOutcome::NotFound => (format_tcp_response(500, "Not found".as_bytes()), None),
        BackendOutcome::ClientError => (format_tcp_response(400, "Client error".as_bytes()), None),
        BackendOutcome::ServerError => (format_tcp_response(400, "Server error".as_bytes()), None),
        BackendOutcome::InvalidJson => (
            format_tcp_response(500, "Invalid JSON".as_bytes()),
            Some(Notice::InvalidJson),
        ),
        BackendOutcome::UnknownStatus => (
            format_tcp_response(500, "Unknown error".as_bytes()),
            None,
        ),
        BackendOutcome::TransportFailure(_) => (
            format_tcp_response(400, "Connection failed".as_bytes()),
            None,
        ),
    }
}

/// The response to a lookup, from its outcome.
pub fn tcp_lookup_response(outcome: &BackendOutcome) -> (out: Vec<u8>)
    ensures
        out@ == tcp_lookup_reply(outcome@),
{
    tcp_lookup_answer(outcome).0
}

} // verus!
