//! What the REST backend answered, reduced to what the protocols tell
//! apart.

use crate::text::text_views;
use vstd::prelude::*;

verus! {

/// What came back from one HTTP call.
pub enum HttpReply {
    /// No response arrived; the text says why.
    Unreachable(String),
    /// A response arrived. `body` is `None` where it could not be read.
    Response { status: u16, body: Option<Vec<u8>> },
}

/// Something that an exchange brought up and that deserves a line in the
/// log. The response says the same to the peer; this says it to the
/// operator.
#[derive(Debug, Clone, Copy, PartialEq, Eq)]
pub enum Notice {
    /// A socketmap request was no netstring.
    InvalidNetstring,
    /// The backend answered a lookup with something that is not JSON.
    InvalidJson,
    /// The response was over the protocol's limit and was replaced.
    ResponseTooLong,
    /// The backend answered a policy request with no `action=` line.
    InvalidPolicyResponse,
}

/// The outcome of a lookup.
pub enum BackendOutcome {
    /// The backend returned these values, at least one.
    Success(Vec<Vec<u8>>),
    /// The backend answered, with no value.
    EmptyResult,
    /// The backend knows no such key.
    NotFound,
    /// The backend refused the request.
    ClientError,
    /// The backend failed.
    ServerError,
    /// The backend's answer is not JSON.
    InvalidJson,
    /// The backend answered with a status that is none of the above.
    UnknownStatus,
    /// No response arrived; the text says why.
    TransportFailure(String),
}

/// The items of a JSON array: `Some` for a string, `None` for any other
/// item.
pub open spec fn item_views(items: Seq<Option<Vec<u8>>>) -> Seq<Option<Seq<u8>>> {
    Seq::new(
        items.len(),
        |i: int|
            match items[i] {
                Some(text) => Some(text@),
                None => None,
            },
    )
}

/// `BackendOutcome` as a mathematical value.
pub ghost enum Outcome {
    Success(Seq<Seq<u8>>),
    EmptyResult,
    NotFound,
    ClientError,
    ServerError,
    InvalidJson,
    UnknownStatus,
    TransportFailure(Seq<char>),
}

impl View for BackendOutcome {
    type V = Outcome;

    open spec fn view(&self) -> Outcome {
        match self {
            BackendOutcome::Success(values) => Outcome::Success(text_views(values@)),
            BackendOutcome::EmptyResult => Outcome::EmptyResult,
            BackendOutcome::NotFound => Outcome::NotFound,
            BackendOutcome::ClientError => Outcome::ClientError,
            BackendOutcome::ServerError => Outcome::ServerError,
            BackendOutcome::InvalidJson => Outcome::InvalidJson,
            BackendOutcome::UnknownStatus => Outcome::UnknownStatus,
            BackendOutcome::TransportFailure(why) => Outcome::TransportFailure(why@),
        }
    }
}

/// The statuses of success, 200 to 299.
pub open spec fn is_success(status: u16) -> bool {
    200 <= status <= 299
}

/// The statuses that blame the request, 400 to 499.
pub open spec fn is_client_error(status: u16) -> bool {
    400 <= status <= 499
}

/// The statuses that blame the server, 500 to 599.
pub open spec fn is_server_error(status: u16) -> bool {
    500 <= status <= 599
}

/// The items of an array that are strings, in their order.
pub open spec fn string_items(items: Seq<Option<Seq<u8>>>) -> Seq<Seq<u8>>
    decreases items.len(),
{
    if items.len() == 0 {
        Seq::empty()
    } else {
        match items.last() {
            Some(text) => string_items(items.drop_last()).push(text),
            None => string_items(items.drop_last()),
        }
    }
}

/// The outcome of a lookup whose answer is a JSON document with these
/// array items.
pub open spec fn outcome_of_items(items: Seq<Option<Seq<u8>>>) -> Outcome {
    if string_items(items).len() == 0 {
        Outcome::EmptyResult
    } else {
        Outcome::Success(string_items(items))
    }
}

/// The outcome of a lookup that was answered with this status.
pub open spec fn outcome_of_failure(status: u16) -> Outcome {
    if status == 404 {
        Outcome::NotFound
    } else if is_client_error(status) {
        Outcome::ClientError
    } else if is_server_error(status) {
        Outcome::ServerError
    } else {
        Outcome::UnknownStatus
    }
}

/// `serde_json::Error`, carried as it is.
#[verifier::external_type_specification]
#[verifier::external_body]
pub struct ExJsonError(serde_json::Error);

/// What `serde_json` makes of a body: `None` where it is not one JSON
/// document; else `Some(None)` for a document that is not an array, and
/// `Some(Some(items))` for an array, where an item is `Some(text)` for a
/// string, by its UTF-8 bytes, and `None` for anything else.
pub uninterp spec fn json_document(body: Seq<u8>) -> Option<Option<Seq<Option<Seq<u8>>>>>;

/// Calls `serde_json::from_slice` for a `serde_json::Value`, then
/// `Value::as_array` on the document and `Value::as_str` on each item of the
/// array. The contract gives that result a name and claims that the
/// parser fails or succeeds by the body alone; it says nothing of which
/// bodies are JSON.
#[verifier::external_body]
fn parse_json_array(body: &[u8]) -> (r: Result<Option<Vec<Option<Vec<u8>>>>, serde_json::Error>)
    ensures
        match r {
            Ok(Some(items)) => json_document(body@) == Some(Some(item_views(items@))),
            Ok(None) => json_document(body@) == Some(None::<Seq<Option<Seq<u8>>>>),
            Err(_) => json_document(body@) is None,
        },
{
    let value: serde_json::Value = serde_json::from_slice(body)?;
    Ok(
        value.as_array().map(
            |items| items.iter().map(|item| item.as_str().map(|s| s.as_bytes().to_vec())).collect(),
        ),
    )
}

/// The outcome of a lookup that the backend answered with this JSON
/// document.
pub open spec fn outcome_of_document(document: Option<Option<Seq<Option<Seq<u8>>>>>) -> Outcome {
    match document {
        None => Outcome::InvalidJson,
        Some(None) => Outcome::EmptyResult,
        Some(Some(items)) => outcome_of_items(items),
    }
}

/// The outcome of a lookup, from what the HTTP call gave.
pub open spec fn lookup_outcome_of(reply: HttpReply) -> Outcome {
    match reply {
        HttpReply::Unreachable(why) => Outcome::TransportFailure(why@),
        HttpReply::Response { status, body } => if is_success(status) {
            match body {
                Some(bytes) => outcome_of_document(json_document(bytes@)),
                None => Outcome::InvalidJson,
            }
        } else {
            outcome_of_failure(status)
        },
    }
}

/// Keeps the strings among the items of a JSON array: one or more make a
/// success, none an empty result.
pub fn outcome_from_items(items: Vec<Option<Vec<u8>>>) -> (r: BackendOutcome)
    ensures
        r@ == outcome_of_items(item_views(items@)),
{
    let ghost all = item_views(items@);
    let mut items = items;
    let mut values: Vec<Vec<u8>> = Vec::new();
    let n = items.len();
    let mut i: usize = 0;
    while i < n
        invariant
            i <= n,
            n == items.len(),
            n == all.len(),
            forall|j: int| i <= j < n ==> item_views(items@)[j] == all[j],
            text_views(values@) == string_items(all.take(i as int)),
        decreases n - i,
    {
        let ghost before = text_views(values@);
        let ghost remaining = item_views(items@);
        let mut item: Option<Vec<u8>> = None;
        std::mem::swap(&mut items[i], &mut item);
        proof {
            assert(item_views(seq![item])[0] == remaining[i as int]);
            assert(all.take(i + 1).drop_last() == all.take(i as int));
            assert(all.take(i + 1).last() == all[i as int]);
            assert forall|j: int| i + 1 <= j < n implies item_views(items@)[j] == all[j] by {
                assert(item_views(items@)[j] == remaining[j]);
            }
        }
        match item {
            Some(text) => {
                values.push(text);
                assert(text_views(values@) =~= before.push(text@));
            },
            None => {},
        }
        i = i + 1;
    }
    assert(all.take(n as int) == all);
    if values.len() == 0 {
        BackendOutcome::EmptyResult
    } else {
        BackendOutcome::Success(values)
    }
}

/// Classifies the status of a response that is no success.
pub fn outcome_from_failure(status: u16) -> (r: BackendOutcome)
    ensures
        r@ == outcome_of_failure(status),
{
    if status == 404 {
        BackendOutcome::NotFound
    } else if 400 <= status && status <= 499 {
        BackendOutcome::ClientError
    } else if 500 <= status && status <= 599 {
        BackendOutcome::ServerError
    } else {
        BackendOutcome::UnknownStatus
    }
}

/// Reduces the answer to a lookup to its outcome.
pub fn lookup_outcome(reply: HttpReply) -> (r: BackendOutcome)
    ensures
        r@ == lookup_outcome_of(reply),
{
    match reply {
        HttpReply::Unreachable(why) => BackendOutcome::TransportFailure(why),
        HttpReply::Response { status, body } => {
            if 200 <= status && status <= 299 {
                match body {
                    Some(bytes) => match parse_json_array(bytes.as_slice()) {
                        Ok(Some(items)) => outcome_from_items(items),
                        Ok(None) => BackendOutcome::EmptyResult,
                        Err(_) => BackendOutcome::InvalidJson,
                    },
                    None => BackendOutcome::InvalidJson,
                }
            } else {
                outcome_from_failure(status)
            }
        },
    }
}

} // verus!
