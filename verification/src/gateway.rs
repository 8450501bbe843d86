//! The decisions of the local HTTP gateway: who may call, which account
//! serves a host, which events a subscriber receives, and how a fault is
//! reported.

use crate::error::{ErrorView, NoteDeckError};
use crate::models::{Account, CreateNoteParams};
use crate::text::{
    chars_eq, chars_of, concat, split, split_chars, starts_with, str_eq, string_from,
    sub_chars, trim, trimmed, views_of,
};
use crate::timeline::TimelineOptions;
use vstd::prelude::*;

verus! {

/// The port on the loopback interface at which the gateway listens.
pub const PORT: u16 = 19820;

/// The number of events that the event bus holds for a slow subscriber
/// before the oldest are dropped.
pub const EVENT_BUS_CAPACITY: usize = 256;

/// How a cached image may be kept by its receiver.
pub const IMAGE_CACHE_CONTROL: &'static str = "public, max-age=86400, immutable";

/// A fault as the gateway reports it: the status of the response, and the
/// code and the message of its body.
#[derive(Debug, Clone, PartialEq, Eq)]
pub struct ApiError {
    pub status: u16,
    pub code: String,
    pub message: String,
}

/// An error of the gateway, as a value.
pub ghost struct ApiErrorView {
    pub status: u16,
    pub code: Seq<char>,
    pub message: Seq<char>,
}

impl View for ApiError {
    type V = ApiErrorView;

    open spec fn view(&self) -> ApiErrorView {
        ApiErrorView { status: self.status, code: self.code@, message: self.message@ }
    }
}

impl ApiErrorView {
    /// Nothing is there: status 404.
    pub open spec fn not_found(message: Seq<char>) -> ApiErrorView {
        ApiErrorView { status: 404, code: "NOT_FOUND"@, message }
    }

    /// The caller did not show the token: status 401.
    pub open spec fn unauthorized() -> ApiErrorView {
        ApiErrorView {
            status: 401,
            code: "UNAUTHORIZED"@,
            message: "Missing or invalid Bearer token"@,
        }
    }

    /// The request cannot be understood: status 400.
    pub open spec fn bad_request(message: Seq<char>) -> ApiErrorView {
        ApiErrorView { status: 400, code: "BAD_REQUEST"@, message }
    }

    /// The front end gave no answer: status 500.
    pub open spec fn query_failed(message: Seq<char>) -> ApiErrorView {
        ApiErrorView { status: 500, code: "QUERY_FAILED"@, message }
    }

    /// How a fault of the backend is reported: as an internal error with the
    /// code of its kind and its description.
    pub open spec fn of(e: ErrorView) -> ApiErrorView {
        ApiErrorView { status: 500, code: e.code(), message: e.description() }
    }
}

impl ApiError {
    /// Nothing is there: status 404.
    pub fn not_found(msg: &str) -> (r: ApiError)
        ensures
            r@ == ApiErrorView::not_found(msg@),
    {
        ApiError { status: 404, code: "NOT_FOUND".to_owned(), message: msg.to_owned() }
    }

    /// The caller did not show the token: status 401.
    pub fn unauthorized() -> (r: ApiError)
        ensures
            r@ == ApiErrorView::unauthorized(),
    {
        ApiError {
            status: 401,
            code: "UNAUTHORIZED".to_owned(),
            message: "Missing or invalid Bearer token".to_owned(),
        }
    }

    /// The request cannot be understood: status 400.
    pub fn bad_request(msg: &str) -> (r: ApiError)
        ensures
            r@ == ApiErrorView::bad_request(msg@),
    {
        ApiError { status: 400, code: "BAD_REQUEST".to_owned(), message: msg.to_owned() }
    }

    /// The front end gave no answer: status 500.
    pub fn query_failed(msg: &str) -> (r: ApiError)
        ensures
            r@ == ApiErrorView::query_failed(msg@),
    {
        ApiError { status: 500, code: "QUERY_FAILED".to_owned(), message: msg.to_owned() }
    }

    /// How a fault of the backend is reported.
    pub fn from_error(e: &NoteDeckError) -> (r: ApiError)
        ensures
            r@ == ApiErrorView::of(e@),
    {
        ApiError { status: 500, code: e.code().to_owned(), message: e.description() }
    }
}

/// The token that an `Authorization` header presents: what follows
/// `Bearer `.
pub open spec fn bearer_token(header: Seq<char>) -> Option<Seq<char>> {
    if "Bearer "@.is_prefix_of(header) {
        Some(header.skip(7))
    } else {
        None
    }
}

/// Whether a request may pass: the index at `/api` is open to all, anything
/// else takes the token of this process as a bearer token.
pub open spec fn is_authorized(path: Seq<char>, header: Option<Seq<char>>, api_token: Seq<char>) -> bool {
    path == "/api"@ || (header matches Some(h) && bearer_token(h) == Some(api_token))
}

/// Decides whether a request to `path` with the given `Authorization`
/// header, if it has one that is text, may pass.
pub fn authorize(path: &str, authorization: Option<&str>, api_token: &str) -> (r: Result<
    (),
    ApiError,
>)
    ensures
        match r {
            Ok(_) => is_authorized(
                path@,
                match authorization {
                    Some(h) => Some(h@),
                    None => None,
                },
                api_token@,
            ),
            Err(e) => !is_authorized(
                path@,
                match authorization {
                    Some(h) => Some(h@),
                    None => None,
                },
                api_token@,
            ) && e@ == ApiErrorView::unauthorized(),
        },
{
    if str_eq(path, "/api") {
        return Ok(());
    }
    let header = match authorization {
        Some(h) => chars_of(h),
        None => {
            return Err(ApiError::unauthorized());
        },
    };
    if !starts_with(&header, "Bearer ") {
        return Err(ApiError::unauthorized());
    }
    proof {
        reveal_strlit("Bearer ");
    }
    let presented = sub_chars(&header, 7, header.len());
    let expected = chars_of(api_token);
    if chars_eq(&presented, &expected) {
        Ok(())
    } else {
        Err(ApiError::unauthorized())
    }
}

/// The account that serves a host: the first one of that host.
pub fn account_id_for_host(accounts: &Vec<Account>, host: &str) -> (r: Result<String, ApiError>)
    ensures
        match r {
            Ok(id) => exists|i: int|
                0 <= i < accounts@.len() && (#[trigger] accounts@[i]).host@ == host@ && id
                    == accounts@[i].id && forall|j: int|
                    0 <= j < i ==> (#[trigger] accounts@[j]).host@ != host@,
            Err(e) => (forall|i: int| 0 <= i < accounts@.len() ==> (#[trigger] accounts@[i]).host@ != host@)
                && e@ == ApiErrorView::not_found("No account for host: "@ + host@),
        },
{
    let mut i: usize = 0;
    while i < accounts.len()
        invariant
            i <= accounts.len(),
            forall|j: int| 0 <= j < i ==> (#[trigger] accounts@[j]).host@ != host@,
        decreases accounts.len() - i,
    {
        if str_eq(accounts[i].host.as_str(), host) {
            return Ok(accounts[i].id.clone());
        }
        i += 1;
    }
    let msg = concat("No account for host: ", host);
    Err(ApiError::not_found(msg.as_str()))
}

/// The kinds of events that a subscriber asks for: the pieces of the
/// parameter between commas, each without surrounding whitespace. Without a
/// parameter every event is asked for.
pub open spec fn type_filter(param: Option<Seq<char>>) -> Option<Seq<Seq<char>>> {
    match param {
        Some(p) => Some(split(p, ',').map_values(|s: Seq<char>| trim(s))),
        None => None,
    }
}

/// Whether an event of the given type is sent to a subscriber with the
/// given filter: always without a filter, else if the type begins with one
/// of the kinds asked for.
pub open spec fn passes(filter: Option<Seq<Seq<char>>>, event_type: Seq<char>) -> bool {
    match filter {
        Some(kinds) => begins_with_any(event_type, kinds),
        None => true,
    }
}

/// Whether `text` begins with one of `prefixes`.
pub open spec fn begins_with_any(text: Seq<char>, prefixes: Seq<Seq<char>>) -> bool {
    exists|i: int| 0 <= i < prefixes.len() && (#[trigger] prefixes[i]).is_prefix_of(text)
}

/// The kinds of events that a subscriber asks for.
pub fn parse_type_filter(param: Option<&str>) -> (r: Option<Vec<String>>)
    ensures
        r.deep_view() == type_filter(
            match param {
                Some(p) => Some(p@),
                None => None,
            },
        ),
{
    let p = match param {
        Some(p) => p,
        None => {
            return None;
        },
    };
    let cs = chars_of(p);
    let pieces = split_chars(&cs, ',');
    let ghost want = split(p@, ',').map_values(|s: Seq<char>| trim(s));
    let mut out: Vec<String> = Vec::new();
    let mut i: usize = 0;
    proof {
        assert(out.deep_view() =~= want.take(0));
    }
    while i < pieces.len()
        invariant
            i <= pieces.len(),
            views_of(pieces@) == split(p@, ','),
            want == split(p@, ',').map_values(|s: Seq<char>| trim(s)),
            out.deep_view() == want.take(i as int),
        decreases pieces.len() - i,
    {
        let t = trimmed(&pieces[i]);
        let ghost before = out.deep_view();
        out.push(string_from(&t));
        proof {
            assert(views_of(pieces@)[i as int] == pieces@[i as int]@);
            assert(out.deep_view() =~= before.push(t@));
            assert(want.take(i + 1) =~= want.take(i as int).push(want[i as int]));
        }
        i += 1;
    }
    proof {
        assert(want.take(pieces.len() as int) =~= want);
    }
    Some(out)
}

/// Whether an event of the given type is sent to a subscriber with the
/// given filter.
pub fn event_passes(filter: &Option<Vec<String>>, event_type: &str) -> (r: bool)
    ensures
        r == passes(filter.deep_view(), event_type@),
{
    let f = match filter {
        Some(f) => f,
        None => {
            return true;
        },
    };
    let ev = chars_of(event_type);
    let mut i: usize = 0;
    while i < f.len()
        invariant
            i <= f.len(),
            ev@ == event_type@,
            filter.deep_view() == Some(f.deep_view()),
            forall|k: int| 0 <= k < i ==> !(#[trigger] f.deep_view()[k]).is_prefix_of(event_type@),
        decreases f.len() - i,
    {
        proof {
            assert(f.deep_view()[i as int] == f@[i as int]@);
        }
        if starts_with(&ev, f[i].as_str()) {
            proof {
                let kinds = f.deep_view();
                let k = i as int;
                assert(0 <= k < kinds.len());
                assert(kinds[k].is_prefix_of(event_type@));
                assert(begins_with_any(event_type@, kinds));
            }
            return true;
        }
        i += 1;
    }
    proof {
        assert(!begins_with_any(event_type@, f.deep_view()));
    }
    false
}

/// The query of a search request: refused where it is missing or empty.
pub fn search_query(q: Option<String>) -> (r: Result<String, ApiError>)
    ensures
        match r {
            Ok(query) => q == Some(query) && query@.len() > 0,
            Err(e) => (q matches Some(s) ==> s@.len() == 0) && e@ == ApiErrorView::bad_request(
                "Missing query parameter: q"@,
            ),
        },
{
    match q {
        Some(query) => {
            if query.as_str().is_empty() {
                Err(ApiError::bad_request("Missing query parameter: q"))
            } else {
                Ok(query)
            }
        },
        None => Err(ApiError::bad_request("Missing query parameter: q")),
    }
}

/// The options of a timeline request of the gateway: a limit of 20 unless
/// one is given, and the bounds as given.
pub fn into_timeline_options(
    limit: Option<i64>,
    since_id: Option<String>,
    until_id: Option<String>,
) -> (r: TimelineOptions)
    ensures
        r.requested_limit == match limit {
            Some(n) => n,
            None => 20,
        },
        r.since_id == since_id,
        r.until_id == until_id,
        r.filters is None,
{
    let n = match limit {
        Some(n) => n,
        None => 20,
    };
    TimelineOptions::new(n, since_id, until_id)
}

/// The limit of a request of the gateway for a note's reactions, children
/// or conversation: 20 unless one is given.
pub fn list_limit(limit: Option<u32>) -> (r: u32)
    ensures
        r == match limit {
            Some(n) => n,
            None => 20,
        },
{
    match limit {
        Some(n) => n,
        None => 20,
    }
}

/// The note that a request of the gateway creates: the text is always
/// given, and no mode flags are.
pub fn create_note_params(
    text: String,
    cw: Option<String>,
    visibility: Option<String>,
    local_only: Option<bool>,
    reply_id: Option<String>,
    renote_id: Option<String>,
    file_ids: Option<Vec<String>>,
) -> (r: CreateNoteParams)
    ensures
        r.text == Some(text),
        r.cw == cw,
        r.visibility == visibility,
        r.local_only == local_only,
        r.mode_flags is None,
        r.reply_id == reply_id,
        r.renote_id == renote_id,
        r.file_ids == file_ids,
{
    CreateNoteParams {
        text: Some(text),
        cw,
        visibility,
        local_only,
        mode_flags: None,
        reply_id,
        renote_id,
        file_ids,
    }
}

/// The status with which the image proxy answers when an image cannot be
/// had from upstream.
pub const BAD_GATEWAY: u16 = 502;

} // verus!
