//! Timeline kinds and the paging options of list requests.

use crate::error::{ErrorView, NoteDeckError};
use crate::text::{concat, str_eq};
use vstd::prelude::*;

verus! {

/// The API endpoint that serves the timeline called `name`.
pub open spec fn endpoint_of(name: Seq<char>) -> Option<Seq<char>> {
    if name == "home"@ {
        Some("notes/timeline"@)
    } else if name == "local"@ {
        Some("notes/local-timeline"@)
    } else if name == "social"@ {
        Some("notes/hybrid-timeline"@)
    } else if name == "global"@ {
        Some("notes/global-timeline"@)
    } else {
        None
    }
}

/// The streaming channel that carries the timeline called `name`.
pub open spec fn channel_of(name: Seq<char>) -> Option<Seq<char>> {
    if name == "home"@ {
        Some("homeTimeline"@)
    } else if name == "local"@ {
        Some("localTimeline"@)
    } else if name == "social"@ {
        Some("hybridTimeline"@)
    } else if name == "global"@ {
        Some("globalTimeline"@)
    } else {
        None
    }
}

/// The fault for a timeline name that is none of the four.
pub open spec fn unknown_timeline(name: Seq<char>) -> ErrorView {
    ErrorView::InvalidInput("Unknown timeline type: "@ + name)
}

/// `value` brought into the range from `low` to `high`.
pub open spec fn clamped(value: int, low: int, high: int) -> int {
    if value < low {
        low
    } else if value > high {
        high
    } else {
        value
    }
}

/// The name of a timeline as a caller gave it: `home`, `local`, `social` or
/// `global`. Any other name is kept and rejected when it is used.
#[derive(Debug, Clone, PartialEq, Eq)]
pub struct TimelineType(String);

impl View for TimelineType {
    type V = Seq<char>;

    closed spec fn view(&self) -> Seq<char> {
        self.0@
    }
}

impl TimelineType {
    /// The timeline type with the given name; whether there is such a timeline
    /// is decided where the name is used.
    pub fn new(name: String) -> (r: Self)
        ensures
            r@ == name@,
    {
        TimelineType(name)
    }

    /// The name.
    pub fn as_str(&self) -> (r: &str)
        ensures
            r@ == self@,
    {
        self.0.as_str()
    }

    fn unknown(&self) -> (e: NoteDeckError)
        ensures
            e@ == unknown_timeline(self@),
    {
        NoteDeckError::InvalidInput(concat("Unknown timeline type: ", self.0.as_str()))
    }

    /// The API endpoint of this timeline; an unknown name is an invalid input.
    pub fn api_endpoint(&self) -> (r: Result<String, NoteDeckError>)
        ensures
            match r {
                Ok(e) => endpoint_of(self@) == Some(e@),
                Err(e) => endpoint_of(self@) is None && e@ == unknown_timeline(self@),
            },
    {
        let name = self.0.as_str();
        if str_eq(name, "home") {
            Ok("notes/timeline".to_owned())
        } else if str_eq(name, "local") {
            Ok("notes/local-timeline".to_owned())
        } else if str_eq(name, "social") {
            Ok("notes/hybrid-timeline".to_owned())
        } else if str_eq(name, "global") {
            Ok("notes/global-timeline".to_owned())
        } else {
            Err(self.unknown())
        }
    }

    /// The streaming channel of this timeline; an unknown name is an invalid
    /// input.
    pub fn ws_channel(&self) -> (r: Result<String, NoteDeckError>)
        ensures
            match r {
                Ok(c) => channel_of(self@) == Some(c@),
                Err(e) => channel_of(self@) is None && e@ == unknown_timeline(self@),
            },
    {
        let name = self.0.as_str();
        if str_eq(name, "home") {
            Ok("homeTimeline".to_owned())
        } else if str_eq(name, "local") {
            Ok("localTimeline".to_owned())
        } else if str_eq(name, "social") {
            Ok("hybridTimeline".to_owned())
        } else if str_eq(name, "global") {
            Ok("globalTimeline".to_owned())
        } else {
            Err(self.unknown())
        }
    }
}

/// Which notes a timeline request asks for; an unset filter is left to the
/// server.
#[derive(Debug, Clone, Default, PartialEq, Eq)]
pub struct TimelineFilter {
    pub with_renotes: Option<bool>,
    pub with_replies: Option<bool>,
    pub with_files: Option<bool>,
    pub with_bots: Option<bool>,
    pub with_sensitive: Option<bool>,
}

/// The limit of a list request when the caller names none.
pub fn default_limit() -> (r: i64)
    ensures
        r == 20,
{
    20
}

fn clamp_limit(limit: i64, high: i64) -> (r: i64)
    requires
        1 <= high,
    ensures
        r == clamped(limit as int, 1, high as int),
{
    if limit < 1 {
        1
    } else if limit > high {
        high
    } else {
        limit
    }
}

/// Paging and filters of a timeline request. The limit is kept as the caller
/// gave it; [`TimelineOptions::limit`] is what a request carries.
#[derive(Debug, Clone, PartialEq, Eq)]
pub struct TimelineOptions {
    pub requested_limit: i64,
    pub since_id: Option<String>,
    pub until_id: Option<String>,
    pub filters: Option<TimelineFilter>,
}

impl TimelineOptions {
    /// Options with the given limit and bounds, and no filter.
    pub fn new(limit: i64, since_id: Option<String>, until_id: Option<String>) -> (r: Self)
        ensures
            r.requested_limit == limit,
            r.since_id == since_id,
            r.until_id == until_id,
            r.filters is None,
    {
        TimelineOptions { requested_limit: limit, since_id, until_id, filters: None }
    }

    /// The requested limit brought into the range from 1 to 100.
    pub fn limit(&self) -> (r: i64)
        ensures
            r == clamped(self.requested_limit as int, 1, 100),
    {
        clamp_limit(self.requested_limit, 100)
    }
}

impl Default for TimelineOptions {
    fn default() -> (r: Self)
        ensures
            r.requested_limit == 20,
            r.since_id is None,
            r.until_id is None,
            r.filters is None,
    {
        TimelineOptions {
            requested_limit: default_limit(),
            since_id: None,
            until_id: None,
            filters: None,
        }
    }
}

/// Paging of a search request.
#[derive(Debug, Clone, PartialEq, Eq)]
pub struct SearchOptions {
    pub requested_limit: i64,
    pub since_id: Option<String>,
    pub until_id: Option<String>,
}

impl SearchOptions {
    /// Options with the given limit and bounds.
    pub fn new(limit: i64, since_id: Option<String>, until_id: Option<String>) -> (r: Self)
        ensures
            r.requested_limit == limit,
            r.since_id == since_id,
            r.until_id == until_id,
    {
        SearchOptions { requested_limit: limit, since_id, until_id }
    }

    /// The requested limit brought into the range from 1 to 100.
    pub fn limit(&self) -> (r: i64)
        ensures
            r == clamped(self.requested_limit as int, 1, 100),
    {
        clamp_limit(self.requested_limit, 100)
    }
}

impl Default for SearchOptions {
    fn default() -> (r: Self)
        ensures
            r.requested_limit == 20,
            r.since_id is None,
            r.until_id is None,
    {
        SearchOptions { requested_limit: default_limit(), since_id: None, until_id: None }
    }
}

/// The limit of a cached-timeline read: 40 unless given, within 1 to 200.
pub fn cached_timeline_limit(limit: Option<i64>) -> (r: i64)
    ensures
        r == clamped(
            match limit {
                Some(n) => n as int,
                None => 40,
            },
            1,
            200,
        ),
{
    match limit {
        Some(n) => clamp_limit(n, 200),
        None => 40,
    }
}

/// The limit of a local search: 30 unless given, within 1 to 200.
pub fn local_search_limit(limit: Option<i64>) -> (r: i64)
    ensures
        r == clamped(
            match limit {
                Some(n) => n as int,
                None => 30,
            },
            1,
            200,
        ),
{
    match limit {
        Some(n) => clamp_limit(n, 200),
        None => 30,
    }
}

/// The limit of a request for a note's reactions, children or conversation:
/// `fallback` unless given, within 1 to 100.
pub fn bounded_limit(limit: Option<u32>, fallback: u32) -> (r: u32)
    ensures
        r == clamped(
            match limit {
                Some(n) => n as int,
                None => fallback as int,
            },
            1,
            100,
        ),
{
    let n = match limit {
        Some(n) => n,
        None => fallback,
    };
    if n < 1 {
        1
    } else if n > 100 {
        100
    } else {
        n
    }
}

} // verus!
