//! The round trip from the gateway to the front-end: a question goes out as
//! an event, and the answer comes back as an event named after the question.

use crate::gateway::{ApiError, ApiErrorView};
use crate::ids::fresh_id;
use crate::json;
use crate::json::{json_of, json_parse, Json};
use crate::text::concat;
use vstd::prelude::*;

verus! {

/// How long the gateway waits for the front-end, in seconds.
pub const QUERY_TIMEOUT_SECS: u64 = 5;

/// The name of the event that carries a question.
pub const REQUEST_EVENT: &'static str = "nd:query-request";

/// The name of the event that carries the answer to the question `id`.
pub open spec fn response_event_name(id: Seq<char>) -> Seq<char> {
    "nd:query-response-"@ + id
}

/// The question of the kind `query_type` with the given parameters, under
/// the id `id`.
pub open spec fn question(id: Seq<char>, query_type: Seq<char>, params: Json) -> Json {
    Json::empty_object().with("id"@, Json::Str(id)).with("type"@, Json::Str(query_type)).with(
        "params"@,
        params,
    )
}

/// A question to the front-end: the event to listen for, and what is sent.
#[derive(Debug, PartialEq)]
pub struct Query {
    pub id: String,
    pub response_event: String,
    pub request: serde_json::Value,
}

/// The question of the kind `query_type` with the given parameters, under
/// the id `id`.
pub fn query_with_id(id: String, query_type: &str, params: serde_json::Value) -> (q: Query)
    ensures
        q.id == id,
        q.response_event@ == response_event_name(id@),
        json_of(q.request) == question(id@, query_type@, json_of(params)),
{
    let mut request = json::empty_object();
    json::set_str(&mut request, "id", id.as_str());
    json::set_str(&mut request, "type", query_type);
    json::insert(&mut request, "params", params);
    let response_event = concat("nd:query-response-", id.as_str());
    Query { id, response_event, request }
}

/// The question of the kind `query_type` with the given parameters, under a
/// fresh id.
pub fn query_frontend(query_type: &str, params: serde_json::Value) -> (q: Query)
    ensures
        q.response_event@ == response_event_name(q.id@),
        json_of(q.request) == question(q.id@, query_type@, json_of(params)),
{
    query_with_id(fresh_id(), query_type, params)
}

/// The answer that an event carries: the document of its payload, or null
/// where the payload is no JSON.
pub fn read_answer(payload: &str) -> (r: serde_json::Value)
    ensures
        json_of(r) == match json_parse(payload@) {
            Some(j) => j,
            None => Json::Null,
        },
{
    match json::parse(payload) {
        Ok(v) => v,
        Err(_) => json::null(),
    }
}

/// Why a question got no answer.
#[derive(Debug, Clone, Copy, PartialEq, Eq)]
pub enum QueryFailure {
    /// No answer came within the time allowed.
    TimedOut,
    /// The listener went away before an answer came.
    ChannelClosed,
}

/// What the asker is told when a question got no answer.
pub open spec fn failure_text(failure: QueryFailure) -> Seq<char> {
    match failure {
        QueryFailure::TimedOut => "Query timed out"@,
        QueryFailure::ChannelClosed => "Channel closed"@,
    }
}

/// What the asker is told when a question got no answer.
pub fn failure_message(failure: QueryFailure) -> (r: &'static str)
    ensures
        r@ == failure_text(failure),
{
    match failure {
        QueryFailure::TimedOut => "Query timed out",
        QueryFailure::ChannelClosed => "Channel closed",
    }
}

/// How the gateway reports a question that failed with the given message.
pub fn query_error(message: &str) -> (r: ApiError)
    ensures
        r@ == ApiErrorView::query_failed(message@),
{
    ApiError::query_failed(message)
}

} // verus!
