//! The backend boundary: what one call to the embedding service can come back
//! with, and the wording of the failures reported to callers.

use vstd::prelude::*;
use crate::outside::{encode_string_array, json_string_array};
use crate::types::EmbedResult;

verus! {

/// What one call to the backend produced.
#[derive(Clone, Debug, PartialEq, Eq)]
pub enum BackendOutcome {
    /// The response decoded into a list of embeddings; row `i` answers the
    /// `i`-th payload of the batch.
    Embeddings(Vec<EmbedResult>),
    /// The request never produced a response. Carries the transport's own
    /// description of what went wrong.
    TransportFailed(String),
    /// A response arrived but was not a list of lists of numbers. Carries the
    /// decoder's description of the mismatch.
    ParseFailed(String),
}

/// Mathematical model of a [`BackendOutcome`].
pub enum BackendOutcomeView {
    Embeddings(Seq<Seq<u32>>),
    TransportFailed(Seq<char>),
    ParseFailed(Seq<char>),
}

impl View for BackendOutcome {
    type V = BackendOutcomeView;

    open spec fn view(&self) -> BackendOutcomeView {
        match self {
            BackendOutcome::Embeddings(rows) => BackendOutcomeView::Embeddings(rows.deep_view()),
            BackendOutcome::TransportFailed(detail) => BackendOutcomeView::TransportFailed(detail@),
            BackendOutcome::ParseFailed(detail) => BackendOutcomeView::ParseFailed(detail@),
        }
    }
}

/// Text reported to callers when the request to the backend itself failed.
pub open spec fn transport_failure_text(detail: Seq<char>) -> Seq<char> {
    "Backend request failed: "@ + detail
}

/// Text reported to callers when the backend's response did not decode.
pub open spec fn parse_failure_text(detail: Seq<char>) -> Seq<char> {
    "Failed to parse backend JSON: "@ + detail
}

impl BackendOutcomeView {
    /// The message that every caller of the batch receives, if the call failed.
    pub open spec fn failure(self) -> Option<Seq<char>> {
        match self {
            BackendOutcomeView::Embeddings(_) => None,
            BackendOutcomeView::TransportFailed(detail) => Some(transport_failure_text(detail)),
            BackendOutcomeView::ParseFailed(detail) => Some(parse_failure_text(detail)),
        }
    }
}

/// Words the failure of the request itself, from the transport's description.
pub fn transport_failure_message(detail: &str) -> (message: String)
    ensures
        message@ == transport_failure_text(detail@),
{
    String::from_str("Backend request failed: ").concat(detail)
}

/// Words the failure to decode a response, from the decoder's description.
pub fn parse_failure_message(detail: &str) -> (message: String)
    ensures
        message@ == parse_failure_text(detail@),
{
    String::from_str("Failed to parse backend JSON: ").concat(detail)
}

/// Stands in for the body of a response that could not be read. It is not
/// JSON, so decoding it fails and the batch is told of a parse failure.
pub open spec fn unread_body_text() -> Seq<char> {
    "<Failed to read body>"@
}

/// The text to decode: the body as read, or the stand-in for an unreadable
/// one.
pub fn response_text(body: Option<String>) -> (text: String)
    ensures
        text@ == (match body {
            Some(read) => read@,
            None => unread_body_text(),
        }),
{
    match body {
        Some(read) => read,
        None => String::from_str("<Failed to read body>"),
    }
}

/// The request body around an already encoded array of payloads: a JSON
/// object with the single key `inputs`.
pub open spec fn request_body_text(array_text: Seq<char>) -> Seq<char> {
    "{\"inputs\":"@ + array_text + "}"@
}

/// Wraps an encoded array of payloads into the request body.
pub fn frame_request_body(array_text: &str) -> (body: String)
    ensures
        body@ == request_body_text(array_text@),
{
    String::from_str("{\"inputs\":").concat(array_text).concat("}")
}

/// Detail reported when a batch could not be put into a request body.
pub open spec fn unencodable_text() -> Seq<char> {
    "request body could not be encoded"@
}

/// The body of the one request that carries a batch to the backend. Where the
/// payloads cannot be encoded the call is over before it began, and the
/// outcome to report for the batch comes back instead.
pub fn request_body(payloads: &Vec<String>) -> (body: Result<String, BackendOutcome>)
    ensures
        match json_string_array(payloads.deep_view()) {
            Some(array_text) => body matches Ok(text) && text@ == request_body_text(array_text),
            None => body matches Err(outcome) && outcome@ == BackendOutcomeView::TransportFailed(
                unencodable_text(),
            ),
        },
{
    match encode_string_array(payloads) {
        Ok(array_text) => Ok(frame_request_body(array_text.as_str())),
        Err(_) => Err(
            BackendOutcome::TransportFailed(String::from_str("request body could not be encoded")),
        ),
    }
}

} // verus!
