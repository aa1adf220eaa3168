//! Policy delegation: a request of `name=value` lines becomes a form body,
//! and the backend's answer becomes one `action=` line and a blank line.

use crate::backend::{is_client_error, is_server_error, is_success, HttpReply, Notice};
use crate::text::{
    find_byte, first_index, has_prefix, lemma_first_index_bounds, starts_with, trim_bounds, trimmed,
};
use vstd::prelude::*;
use vstd::slice::slice_subrange;
use vstd::string::{StrSliceExecFns, StringSliceAdditionalSpecFns};
use vstd::utf8::is_ascii_chars_encode_utf8;

verus! {

/// The most bytes that a response may have, the two line feeds included.
pub const POLICY_MAXIMUM_RESPONSE_LENGTH: usize = 4096;

/// The first line of `s`, without the line feed, or the carriage return
/// and line feed, that ends it.
pub open spec fn first_line(s: Seq<u8>) -> Seq<u8> {
    let end = first_index(s, 0x0A);
    if 0 < end < s.len() && s[end - 1] == 0x0D {
        s.take(end - 1)
    } else {
        s.take(end)
    }
}

/// What follows the first line of `s`.
pub open spec fn after_first_line(s: Seq<u8>) -> Seq<u8> {
    let end = first_index(s, 0x0A);
    if end < s.len() {
        s.skip(end + 1)
    } else {
        Seq::empty()
    }
}

/// Two parts of a form body with `&` between them; an empty part adds
/// nothing.
pub open spec fn amp_joined(a: Seq<u8>, b: Seq<u8>) -> Seq<u8> {
    if a.len() == 0 {
        b
    } else if b.len() == 0 {
        a
    } else {
        a + seq![0x26u8] + b
    }
}

/// The form body for a request: its lines that are not empty, each as it
/// was received, with `&` between them.
pub open spec fn policy_body(request: Seq<u8>) -> Seq<u8>
    decreases request.len(),
    via policy_body_terminates
{
    if request.len() == 0 {
        Seq::empty()
    } else {
        amp_joined(first_line(request), policy_body(after_first_line(request)))
    }
}

#[via_fn]
proof fn policy_body_terminates(request: Seq<u8>) {
    lemma_first_index_bounds(request, 0x0A);
}

/// A response line with the blank line that ends it.
pub open spec fn policy_deferral(reason: Seq<u8>) -> Seq<u8> {
    "action=DEFER_IF_PERMIT ".spec_bytes() + reason + seq![0x0Au8, 0x0Au8]
}

/// The response for a body that the backend sent with a success status.
pub open spec fn policy_reply_to_text(text: Seq<u8>) -> Seq<u8> {
    let action = trimmed(text);
    if !starts_with(action, "action=".spec_bytes()) {
        policy_deferral("Invalid response format".spec_bytes())
    } else if action.len() + 2 > POLICY_MAXIMUM_RESPONSE_LENGTH {
        policy_deferral("Response too long".spec_bytes())
    } else {
        action + seq![0x0Au8, 0x0Au8]
    }
}

/// What the log is told about a body that the backend sent with a
/// success status: that it has no `action=` line, or that the line did
/// not fit the response.
pub open spec fn policy_notice_for_text(text: Seq<u8>) -> Option<Notice> {
    let action = trimmed(text);
    if !starts_with(action, "action=".spec_bytes()) {
        Some(Notice::InvalidPolicyResponse)
    } else if action.len() + 2 > POLICY_MAXIMUM_RESPONSE_LENGTH {
        Some(Notice::ResponseTooLong)
    } else {
        None
    }
}

/// What the log is told about the response to a policy request.
pub open spec fn policy_notice(reply: HttpReply) -> Option<Notice> {
    match reply {
        HttpReply::Response { status, body: Some(text) } => if is_success(status) {
            policy_notice_for_text(text@)
        } else {
            None
        },
        _ => None,
    }
}

/// The response to a policy request, from what the HTTP call gave.
pub open spec fn policy_reply(reply: HttpReply) -> Seq<u8> {
    match reply {
        HttpReply::Unreachable(_) => policy_deferral("Service unavailable".spec_bytes()),
        HttpReply::Response { status, body } => if is_success(status) {
            match body {
                Some(text) => policy_reply_to_text(text@),
                None => policy_deferral("Service error".spec_bytes()),
            }
        } else if is_client_error(status) {
            policy_deferral("Configuration error".spec_bytes())
        } else if is_server_error(status) {
            policy_deferral("Server error".spec_bytes())
        } else {
            policy_deferral("Unknown error".spec_bytes())
        },
    }
}

/// No response is longer than the protocol allows.
pub proof fn lemma_policy_reply_within_limit(reply: HttpReply)
    ensures
        policy_reply(reply).len() <= POLICY_MAXIMUM_RESPONSE_LENGTH,
{
    reveal_strlit("action=DEFER_IF_PERMIT ");
    reveal_strlit("Invalid response format");
    reveal_strlit("Response too long");
    reveal_strlit("Service unavailable");
    reveal_strlit("Service error");
    reveal_strlit("Configuration error");
    reveal_strlit("Server error");
    reveal_strlit("Unknown error");
    is_ascii_chars_encode_utf8("action=DEFER_IF_PERMIT "@);
    is_ascii_chars_encode_utf8("Invalid response format"@);
    is_ascii_chars_encode_utf8("Response too long"@);
    is_ascii_chars_encode_utf8("Service unavailable"@);
    is_ascii_chars_encode_utf8("Service error"@);
    is_ascii_chars_encode_utf8("Configuration error"@);
    is_ascii_chars_encode_utf8("Server error"@);
    is_ascii_chars_encode_utf8("Unknown error"@);
}

/// Every response ends with the blank line that the protocol asks for.
pub proof fn lemma_policy_reply_ends_with_blank_line(reply: HttpReply)
    ensures
        policy_reply(reply).len() >= 2,
        policy_reply(reply)[policy_reply(reply).len() - 1] == 0x0A,
        policy_reply(reply)[policy_reply(reply).len() - 2] == 0x0A,
{
}

/// Joining with `&` does not depend on how the parts are grouped.
pub proof fn lemma_amp_joined_assoc(a: Seq<u8>, b: Seq<u8>, c: Seq<u8>)
    ensures
        amp_joined(amp_joined(a, b), c) == amp_joined(a, amp_joined(b, c)),
{
    assert(amp_joined(amp_joined(a, b), c) =~= amp_joined(a, amp_joined(b, c)));
}

/// Builds the form body for a request.
pub fn policy_request_body(request: &[u8]) -> (out: Vec<u8>)
    ensures
        out@ == policy_body(request@),
{
    let mut out: Vec<u8> = Vec::new();
    let mut i: usize = 0;
    assert(request@.skip(0) =~= request@);
    while i < request.len()
        invariant
            i <= request.len(),
            amp_joined(out@, policy_body(request@.skip(i as int))) == policy_body(request@),
        decreases request.len() - i,
    {
        let rest = slice_subrange(request, i, request.len());
        assert(rest@ == request@.skip(i as int));
        let end = find_byte(rest, 0x0A);
        let stop: usize = if 0 < end && end < rest.len() && rest[end - 1] == 0x0D {
            end - 1
        } else {
            end
        };
        let line = slice_subrange(rest, 0, stop);
        assert(line@ == first_line(rest@));
        let ghost before = out@;
        if stop > 0 {
            if out.len() > 0 {
                out.push(0x26);
            }
            out.extend_from_slice(line);
        }
        assert(out@ =~= amp_joined(before, line@));
        let next: usize = if end < rest.len() {
            i + end + 1
        } else {
            request.len()
        };
        proof {
            assert(request@.skip(next as int) =~= after_first_line(rest@));
            lemma_amp_joined_assoc(before, line@, policy_body(after_first_line(rest@)));
        }
        i = next;
    }
    assert(request@.skip(request.len() as int) =~= Seq::<u8>::empty());
    assert(amp_joined(out@, Seq::<u8>::empty()) =~= out@);
    out
}

/// A response line that defers the decision, for this reason.
fn deferral(reason: &str) -> (out: Vec<u8>)
    ensures
        out@ == policy_deferral(reason.spec_bytes()),
{
    let mut out = "action=DEFER_IF_PERMIT ".as_bytes_vec();
    out.extend_from_slice(reason.as_bytes());
    out.push(0x0A);
    out.push(0x0A);
    assert(out@ =~= policy_deferral(reason.spec_bytes()));
    out
}

/// The response for a body that the backend sent with a success status,
/// and what the log is told about it.
pub fn policy_answer_to_text(text: &[u8]) -> (out: (Vec<u8>, Option<Notice>))
    ensures
        out.0@ == policy_reply_to_text(text@),
        out.1 == policy_notice_for_text(text@),
{
    let (start, end) = trim_bounds(text);
    let action = slice_subrange(text, start, end);
    if !has_prefix(action, "action=".as_bytes()) {
        (deferral("Invalid response format"), Some(Notice::InvalidPolicyResponse))
    } else if action.len() > POLICY_MAXIMUM_RESPONSE_LENGTH - 2 {
        (deferral("Response too long"), Some(Notice::ResponseTooLong))
    } else {
        let mut out: Vec<u8> = Vec::new();
        out.extend_from_slice(action);
        out.push(0x0A);
        out.push(0x0A);
        assert(out@ =~= action@ + seq![0x0Au8, 0x0Au8]);
        (out, None)
    }
}

/// The response for a body that the backend sent with a success status.
pub fn policy_response_to_text(text: &[u8]) -> (out: Vec<u8>)
    ensures
        out@ == policy_reply_to_text(text@),
{
    policy_answer_to_text(text).0
}

/// The response to a policy request, from what the HTTP call gave, and
/// what the log is told about it.
pub fn policy_answer(reply: &HttpReply) -> (out: (Vec<u8>, Option<Notice>))
    ensures
        out.0@ == policy_reply(*reply),
        out.1 == policy_notice(*reply),
{
    match reply {
        HttpReply::Unreachable(_) => (deferral("Service unavailable"), None),
        HttpReply::Response { status, body } => {
            if 200 <= *status && *status <= 299 {
                match body {
                    Some(text) => policy_answer_to_text(text.as_slice()),
                    None => (deferral("Service error"), None),
                }
            } else if 400 <= *status && *status <= 499 {
                (deferral("Configuration error"), None)
            } else if 500 <= *status && *status <= 599 {
                (deferral("Server error"), None)
            } else {
                (deferral("Unknown error"), None)
            }
        },
    }
}

/// The response to a policy request, from what the HTTP call gave.
pub fn policy_response(reply: &HttpReply) -> (out: Vec<u8>)
    ensures
        out@ == policy_reply(*reply),
{
    policy_answer(reply).0
}

} // verus!
