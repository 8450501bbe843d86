//! The protocol of the upstream servers: how a call is addressed and what it
//! carries, and what a response means.
//!
//! Sending a call is the caller's business. This module builds what is sent
//! and reads what came back.

use crate::error::{ErrorView, NoteDeckError};
use crate::json;
use crate::json::{json_of, json_parse, Json};
use crate::text::{concat, concat3, decimal, push_decimal};
use vstd::prelude::*;
use vstd::utf8::{decode_utf8, encode_utf8, valid_utf8};

verus! {

/// The largest response body that is read, in bytes: fifty mebibytes.
pub const MAX_RESPONSE_BYTES: usize = 52428800;

/// The seconds within which a call must be answered.
pub const REQUEST_TIMEOUT_SECS: u64 = 30;

/// The seconds within which a connection must be made.
pub const CONNECT_TIMEOUT_SECS: u64 = 10;

/// The number of idle connections that are kept for each host.
pub const MAX_IDLE_PER_HOST: usize = 4;

/// How the client names itself to the servers.
pub const USER_AGENT: &'static str = "NoteDeck/0.0.5";

/// `String::from_utf8`: the text that the bytes encode, or `None` where they
/// are not valid UTF-8.
#[verifier::external_body]
pub(crate) fn text_from_utf8(bytes: Vec<u8>) -> (r: Option<String>)
    ensures
        match r {
            Some(s) => valid_utf8(bytes@) && encode_utf8(s@) == bytes@,
            None => !valid_utf8(bytes@),
        },
{
    String::from_utf8(bytes).ok()
}

/// The address of an API endpoint of a host.
pub open spec fn api_url(host: Seq<char>, endpoint: Seq<char>) -> Seq<char> {
    "https://"@ + host + "/api/"@ + endpoint
}

/// What a call carries: the parameters, and the caller's token as the member
/// `i` where the parameters are an object.
pub open spec fn with_token(params: Json, token: Seq<char>) -> Json {
    params.with("i"@, Json::Str(token))
}

/// A call to an upstream server: a JSON body to post to an address.
#[derive(Debug, PartialEq)]
pub struct ApiRequest {
    pub endpoint: String,
    pub url: String,
    pub body: serde_json::Value,
}

/// The call to `endpoint` of `host` with the given parameters on behalf of
/// the holder of `token`.
pub fn request(host: &str, token: &str, endpoint: &str, params: serde_json::Value) -> (r:
    ApiRequest)
    ensures
        r.endpoint@ == endpoint@,
        r.url@ == api_url(host@, endpoint@),
        json_of(r.body) == with_token(json_of(params), token@),
{
    let mut body = params;
    if json::is_object(&body) {
        json::insert(&mut body, "i", json::string(token));
    }
    let base = concat3("https://", host, "/api/");
    ApiRequest { endpoint: endpoint.to_owned(), url: concat(base.as_str(), endpoint), body }
}

/// Whether a status code reports success: 200 to 299.
pub fn is_success(status: u16) -> (r: bool)
    ensures
        r == (200 <= status <= 299),
{
    200 <= status && status <= 299
}

/// What an error response says went wrong: the text of `/error/message`, or
/// of `/error/code` where there is no message.
pub open spec fn error_detail(body: Json) -> Option<Seq<char>> {
    match body.field("error"@) {
        Some(e) => match e.field("message"@) {
            Some(m) => m.as_str(),
            None => e.str_field("code"@),
        },
        None => None,
    }
}

/// The message of the fault for a failed call.
pub open spec fn failure_message(endpoint: Seq<char>, status: u16, detail: Option<Seq<char>>) -> Seq<
    char,
> {
    match detail {
        Some(d) => endpoint + ": "@ + d,
        None => endpoint + " ("@ + decimal(status as nat) + ")"@,
    }
}

/// The fault for a call that the server answered with a failure status.
pub open spec fn api_failure(endpoint: Seq<char>, status: u16, body: Option<Json>) -> ErrorView {
    ErrorView::Api {
        endpoint,
        status,
        message: failure_message(
            endpoint,
            status,
            match body {
                Some(b) => error_detail(b),
                None => None,
            },
        ),
    }
}

/// What an error response says went wrong.
pub fn read_error_detail(body: &serde_json::Value) -> (r: Option<String>)
    ensures
        r.deep_view() == error_detail(json_of(*body)),
{
    let e = match json::get(body, "error") {
        Some(e) => e,
        None => {
            return None;
        },
    };
    let text = match json::get(e, "message") {
        Some(m) => json::as_str(m),
        None => json::get_str(e, "code"),
    };
    match text {
        Some(t) => Some(t.to_owned()),
        None => None,
    }
}

/// The fault for a call that the server answered with a failure status and
/// the given body, if the body was JSON at all.
pub fn failure(endpoint: &str, status: u16, body: Option<&serde_json::Value>) -> (e: NoteDeckError)
    ensures
        e@ == api_failure(
            endpoint@,
            status,
            match body {
                Some(b) => Some(json_of(*b)),
                None => None,
            },
        ),
{
    let detail = match body {
        Some(b) => read_error_detail(b),
        None => None,
    };
    let message = match detail {
        Some(d) => concat3(endpoint, ": ", d.as_str()),
        None => {
            let mut m = concat(endpoint, " (");
            push_decimal(&mut m, status as u64);
            let ghost before = m@;
            m.push(')');
            proof {
                reveal_strlit(")");
                assert(")"@ == seq![')']);
                assert(before.push(')') == before + ")"@);
            }
            m
        },
    };
    proof {
        match body {
            Some(b) => {
                assert(detail.deep_view() == error_detail(json_of(*b)));
            },
            None => {},
        }
    }
    NoteDeckError::Api { endpoint: endpoint.to_owned(), status, message }
}

/// The fault for a response that is too large or no text.
pub open spec fn unreadable(endpoint: Seq<char>, message: Seq<char>) -> ErrorView {
    ErrorView::Api { endpoint, status: 0, message }
}

fn unreadable_response(endpoint: &str, message: &str) -> (e: NoteDeckError)
    ensures
        e@ == unreadable(endpoint@, message@),
{
    NoteDeckError::Api { endpoint: endpoint.to_owned(), status: 0, message: message.to_owned() }
}

/// Refuses a response that announces more than fifty mebibytes, before any
/// of it is read.
pub fn check_declared_length(endpoint: &str, content_length: Option<u64>) -> (r: Result<
    (),
    NoteDeckError,
>)
    ensures
        match r {
            Ok(_) => content_length matches Some(n) ==> n <= MAX_RESPONSE_BYTES,
            Err(e) => content_length matches Some(n) && n > MAX_RESPONSE_BYTES && e@ == unreadable(
                endpoint@,
                "Response too large"@,
            ),
        },
{
    match content_length {
        Some(n) => if n > MAX_RESPONSE_BYTES as u64 {
            Err(unreadable_response(endpoint, "Response too large"))
        } else {
            Ok(())
        },
        None => Ok(()),
    }
}

/// The text of a response body: a body of more than fifty mebibytes is
/// refused, and so is one that is not valid UTF-8.
pub fn read_body_limited(endpoint: &str, bytes: Vec<u8>) -> (r: Result<String, NoteDeckError>)
    ensures
        match r {
            Ok(text) => bytes@.len() <= MAX_RESPONSE_BYTES && valid_utf8(bytes@) && encode_utf8(
                text@,
            ) == bytes@,
            Err(e) => if bytes@.len() > MAX_RESPONSE_BYTES {
                e@ == unreadable(endpoint@, "Response too large"@)
            } else {
                !valid_utf8(bytes@) && e@ == unreadable(endpoint@, "Invalid UTF-8 in response"@)
            },
        },
{
    if bytes.len() > MAX_RESPONSE_BYTES {
        return Err(unreadable_response(endpoint, "Response too large"));
    }
    match text_from_utf8(bytes) {
        Some(text) => Ok(text),
        None => Err(unreadable_response(endpoint, "Invalid UTF-8 in response")),
    }
}

/// The document of a successful response: null for an empty body, else what
/// the text parses to; a text that is no JSON is a parse fault.
pub fn parse_body(text: &str) -> (r: Result<serde_json::Value, NoteDeckError>)
    ensures
        match r {
            Ok(v) => if text@.len() == 0 {
                json_of(v) == Json::Null
            } else {
                json_parse(text@) == Some(json_of(v))
            },
            Err(e) => text@.len() > 0 && json_parse(text@) is None && e@ is Json,
        },
{
    if text.is_empty() {
        Ok(json::null())
    } else {
        match json::parse(text) {
            Ok(v) => Ok(v),
            Err(e) => Err(NoteDeckError::Json(json::error_text(&e))),
        }
    }
}

/// What a response to a call means, once its status and all of its body are
/// known: a failure status is an API fault that says what the body reports;
/// a success yields the document of the body, unless the body is too large,
/// no text or no JSON.
pub fn read_response(endpoint: &str, status: u16, bytes: Vec<u8>) -> (r: Result<
    serde_json::Value,
    NoteDeckError,
>)
    ensures
        match r {
            Ok(v) => {
                &&& 200 <= status <= 299
                &&& bytes@.len() <= MAX_RESPONSE_BYTES
                &&& valid_utf8(bytes@)
                &&& if bytes@.len() == 0 {
                    json_of(v) == Json::Null
                } else {
                    json_parse(decode_utf8(bytes@)) == Some(json_of(v))
                }
            },
            Err(e) => if !(200 <= status <= 299) {
                e@ == api_failure(
                    endpoint@,
                    status,
                    if valid_utf8(bytes@) {
                        json_parse(decode_utf8(bytes@))
                    } else {
                        None
                    },
                )
            } else if bytes@.len() > MAX_RESPONSE_BYTES {
                e@ == unreadable(endpoint@, "Response too large"@)
            } else if !valid_utf8(bytes@) {
                e@ == unreadable(endpoint@, "Invalid UTF-8 in response"@)
            } else {
                bytes@.len() > 0 && json_parse(decode_utf8(bytes@)) is None && e@ is Json
            },
        },
{
    broadcast use vstd::utf8::encode_utf8_decode_utf8;

    if !is_success(status) {
        let body = match text_from_utf8(bytes) {
            Some(text) => {
                proof {
                    assert(decode_utf8(encode_utf8(text@)) == text@);
                }
                match json::parse(text.as_str()) {
                    Ok(v) => Some(v),
                    Err(_) => None,
                }
            },
            None => None,
        };
        return Err(failure(endpoint, status, body.as_ref()));
    }
    let ghost len = bytes@.len();
    let text = match read_body_limited(endpoint, bytes) {
        Ok(t) => t,
        Err(e) => {
            return Err(e);
        },
    };
    proof {
        assert(decode_utf8(encode_utf8(text@)) == text@);
        if text@.len() == 0 {
            assert(encode_utf8(text@).len() == 0);
        }
        if len == 0 && text@.len() > 0 {
            assert(encode_utf8(text@).len() > 0) by {
                reveal_with_fuel(encode_utf8, 2);
            }
        }
    }
    parse_body(text.as_str())
}

/// What the registry call yields for its caller: nothing where the server
/// holds an empty object or answers with an API fault, the document
/// otherwise; any other fault is passed on.
pub fn registry_result(data: Result<serde_json::Value, NoteDeckError>) -> (r: Result<
    Option<serde_json::Value>,
    NoteDeckError,
>)
    ensures
        match data {
            Ok(v) => if json_of(v) == Json::empty_object() {
                r matches Ok(None)
            } else {
                r matches Ok(Some(w)) && w == v
            },
            Err(e) => if e@ is Api {
                r matches Ok(None)
            } else {
                r matches Err(f) && f == e
            },
        },
{
    match data {
        Ok(v) => {
            let empty = match json::object_keys(&v) {
                Some(keys) => {
                    proof {
                        let m = json_of(v)->Object_0;
                        let views = keys.deep_view();
                        if keys.len() == 0 {
                            assert forall|k: Seq<char>| !m.contains_key(k) by {
                                assert(!views.contains(k));
                            }
                            assert(m =~= Map::empty());
                        } else {
                            assert(views.contains(views[0]));
                            assert(m.contains_key(views[0]));
                        }
                    }
                    keys.len() == 0
                },
                None => false,
            };
            if empty {
                Ok(None)
            } else {
                Ok(Some(v))
            }
        },
        Err(NoteDeckError::Api { .. }) => Ok(None),
        Err(e) => Err(e),
    }
}

} // verus!
