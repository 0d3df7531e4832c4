//! The response side of one batched redemption call: demultiplexing the
//! remote API's positional response into one outcome per submitted key,
//! index-aligned with the batch, and the fan-out applied when the call
//! itself fails.

use vstd::prelude::*;

use crate::outcome::{OutcomeView, RedeemOutcome};

verus! {

/// What the response body carries for the entry at `index`: the rendering of
/// the value at `.error.json.message` and the rendering of the value at
/// `.result.data.json.status`, each absent where its path is missing, the
/// body is not valid JSON, or the body is not an array reaching `index`.
pub uninterp spec fn entry_fields_of(body: Seq<char>, index: int) -> (
    Option<Seq<char>>,
    Option<Seq<char>>,
);

/// Whether `body` decodes as JSON: `None` when it does, the parse error's
/// rendering otherwise.
pub uninterp spec fn json_parse_of(body: Seq<char>) -> Option<Seq<char>>;

/// Relies on serde_json::from_str::<Value>: returns `None` exactly when
/// `body` is valid JSON, and the parse error under `Debug` formatting
/// otherwise.
#[verifier::external_body]
fn json_parse_error(body: &str) -> (r: Option<String>)
    ensures
        r.deep_view() == json_parse_of(body@),
{
    match serde_json::from_str::<serde_json::Value>(body) {
        Ok(_) => None,
        Err(e) => Some(format!("{:?}", e)),
    }
}

/// Relies on serde_json::from_str::<Value>, Value::get and Value's
/// `to_string`: reads the entry at `index` of the parsed body and renders
/// the values at `.error.json.message` and `.result.data.json.status`,
/// `None` wherever a step of either path is missing.
#[verifier::external_body]
fn read_entry(body: &str, index: usize) -> (r: (Option<String>, Option<String>))
    ensures
        (r.0.deep_view(), r.1.deep_view()) == entry_fields_of(body@, index as int),
{
    let parsed: serde_json::Value = match serde_json::from_str(body) {
        Ok(value) => value,
        Err(_) => return (None, None),
    };
    let entry = parsed.get(index);
    let error = entry.and_then(|e| e.get("error")).and_then(|e| e.get("json")).and_then(
        |e| e.get("message"),
    ).map(|m| m.to_string());
    let status = entry.and_then(|e| e.get("result")).and_then(|e| e.get("data")).and_then(
        |e| e.get("json"),
    ).and_then(|e| e.get("status")).map(|s| s.to_string());
    (error, status)
}

/// The outcome owed to one response entry, by the fixed precedence: a
/// reported error message is a failure; else a reported status is a success;
/// else the entry's shape is not recognized.
pub open spec fn spec_entry_outcome(fields: (Option<Seq<char>>, Option<Seq<char>>)) -> OutcomeView {
    if fields.0 is Some {
        OutcomeView::Failure(fields.0->0)
    } else if fields.1 is Some {
        OutcomeView::Success(fields.1->0)
    } else {
        OutcomeView::Failure("Invalid Response"@)
    }
}

/// The outcome owed to the key at `index` of a batch answered by `body`: a
/// transport error shared by the whole batch when the body does not decode,
/// else the entry's own outcome.
pub open spec fn spec_response_outcome(body: Seq<char>, index: int) -> OutcomeView {
    match json_parse_of(body) {
        Some(error) => OutcomeView::TransportError(error),
        None => spec_entry_outcome(entry_fields_of(body, index)),
    }
}

/// Maps one entry's fields to its outcome.
pub fn entry_outcome(error: Option<String>, status: Option<String>) -> (outcome: RedeemOutcome)
    ensures
        outcome@ == spec_entry_outcome((error.deep_view(), status.deep_view())),
{
    match error {
        Some(message) => RedeemOutcome::Failure(message),
        None => match status {
            Some(detail) => RedeemOutcome::Success(detail),
            None => RedeemOutcome::Failure(String::from_str("Invalid Response")),
        },
    }
}

/// Demultiplexes one batched response into per-key outcomes: exactly one
/// outcome per submitted key, index-aligned with the submission order.
pub fn outcomes_for_response(body: &str, batch_len: usize) -> (outcomes: Vec<RedeemOutcome>)
    ensures
        outcomes@.len() == batch_len,
        forall|i: int|
            0 <= i < batch_len ==> (#[trigger] outcomes@[i])@ == spec_response_outcome(body@, i),
{
    let mut outcomes: Vec<RedeemOutcome> = Vec::new();
    match json_parse_error(body) {
        Some(error) => {
            let mut i: usize = 0;
            while i < batch_len
                invariant
                    i <= batch_len,
                    outcomes@.len() == i,
                    json_parse_of(body@) == Some(error@),
                    forall|j: int|
                        0 <= j < i ==> (#[trigger] outcomes@[j])@ == spec_response_outcome(
                            body@,
                            j,
                        ),
                decreases batch_len - i,
            {
                outcomes.push(RedeemOutcome::TransportError(error.clone()));
                i += 1;
            }
        },
        None => {
            let mut i: usize = 0;
            while i < batch_len
                invariant
                    i <= batch_len,
                    outcomes@.len() == i,
                    json_parse_of(body@) is None,
                    forall|j: int|
                        0 <= j < i ==> (#[trigger] outcomes@[j])@ == spec_response_outcome(
                            body@,
                            j,
                        ),
                decreases batch_len - i,
            {
                let (error, status) = read_entry(body, i);
                let outcome = entry_outcome(error, status);
                outcomes.push(outcome);
                i += 1;
            }
        },
    }
    outcomes
}

/// The fan-out for a batch whose call could not be sent at all: every
/// submitted key receives the same transport-error outcome.
pub fn transport_failure_outcomes(batch_len: usize, error_text: &str) -> (outcomes: Vec<
    RedeemOutcome,
>)
    ensures
        outcomes@.len() == batch_len,
        forall|i: int|
            0 <= i < batch_len ==> (#[trigger] outcomes@[i])@ == OutcomeView::TransportError(
                error_text@,
            ),
{
    let mut outcomes: Vec<RedeemOutcome> = Vec::new();
    let mut i: usize = 0;
    while i < batch_len
        invariant
            i <= batch_len,
            outcomes@.len() == i,
            forall|j: int|
                0 <= j < i ==> (#[trigger] outcomes@[j])@ == OutcomeView::TransportError(
                    error_text@,
                ),
        decreases batch_len - i,
    {
        outcomes.push(RedeemOutcome::TransportError(String::from_str(error_text)));
        i += 1;
    }
    outcomes
}

/// Law: transport failure fans out. When the response body of a batch does
/// not decode, every key of the batch — whatever its index — receives the
/// same outcome: a transport error carrying the one underlying error text.
pub proof fn lemma_transport_fanout(body: Seq<char>, i: int, j: int)
    ensures
        json_parse_of(body) is Some ==> spec_response_outcome(body, i) == spec_response_outcome(
            body,
            j,
        ),
        json_parse_of(body) is Some ==> spec_response_outcome(body, i)
            == OutcomeView::TransportError(json_parse_of(body)->0),
{
}

} // verus!
