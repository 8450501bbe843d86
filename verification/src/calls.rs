//! The calls of the upstream API: for each operation the endpoint and the
//! parameters. The caller's token is added when the call is turned into a
//! request, see [`crate::api::request`].

use crate::error::NoteDeckError;
use crate::json;
use crate::json::{json_of, Json};
use crate::models::CreateNoteParams;
use crate::timeline::{
    clamped, endpoint_of, unknown_timeline, SearchOptions, TimelineFilter, TimelineOptions,
    TimelineType,
};
use vstd::prelude::*;

verus! {

/// A call: an endpoint and its parameters.
#[derive(Debug, PartialEq)]
pub struct ApiCall {
    pub endpoint: String,
    pub params: serde_json::Value,
}

impl ApiCall {
    /// Whether the call goes to `endpoint` with the parameters `params`.
    pub open spec fn targets(self, endpoint: Seq<char>, params: Json) -> bool {
        self.endpoint@ == endpoint && json_of(self.params) == params
    }
}

/// The bounds of a page: the members `sinceId` and `untilId`, where given.
pub open spec fn paged(base: Json, since_id: Option<Seq<char>>, until_id: Option<Seq<char>>) -> Json {
    base.with_opt_str("sinceId"@, since_id).with_opt_str("untilId"@, until_id)
}

/// The opposite of an optional boolean.
pub open spec fn negated(b: Option<bool>) -> Option<bool> {
    match b {
        Some(v) => Some(!v),
        None => None,
    }
}

/// The filters of a timeline call. What is asked of bots and of sensitive
/// notes is said twice, once each way round, for the servers that know only
/// one of the two.
pub open spec fn filtered(base: Json, filters: Option<TimelineFilter>) -> Json {
    match filters {
        None => base,
        Some(f) => base.with_opt_bool("withRenotes"@, f.with_renotes).with_opt_bool(
            "withReplies"@,
            f.with_replies,
        ).with_opt_bool("withFiles"@, f.with_files).with_opt_bool(
            "withBots"@,
            f.with_bots,
        ).with_opt_bool("excludeBots"@, negated(f.with_bots)).with_opt_bool(
            "withSensitive"@,
            f.with_sensitive,
        ).with_opt_bool("excludeNsfw"@, negated(f.with_sensitive)),
    }
}

/// The limit that a call carries for the requested limit.
pub open spec fn limit_of(requested: i64) -> Json {
    Json::integer(clamped(requested as int, 1, 100))
}

/// The parameters of a timeline call.
pub open spec fn timeline_params(options: TimelineOptions) -> Json {
    filtered(
        paged(
            Json::empty_object().with("limit"@, limit_of(options.requested_limit)),
            options.since_id.deep_view(),
            options.until_id.deep_view(),
        ),
        options.filters,
    )
}

/// An object with one text member.
pub open spec fn one(key: Seq<char>, value: Seq<char>) -> Json {
    Json::empty_object().with(key, Json::Str(value))
}

/// An object with the mode flags of a note set on it, one after the other.
pub open spec fn with_flags(base: Json, flags: Seq<(String, bool)>) -> Json
    decreases flags.len(),
{
    if flags.len() == 0 {
        base
    } else {
        with_flags(base, flags.drop_last()).with(flags.last().0@, Json::Bool(flags.last().1))
    }
}

/// The parameters of the call that creates a note.
pub open spec fn create_note_params(p: CreateNoteParams) -> Json {
    let head = Json::empty_object().with_opt_str("text"@, p.text.deep_view()).with_opt_str(
        "cw"@,
        p.cw.deep_view(),
    ).with_opt_str("visibility"@, p.visibility.deep_view()).with_opt_bool(
        "localOnly"@,
        p.local_only,
    );
    let flagged = match p.mode_flags {
        Some(flags) => with_flags(head, flags@),
        None => head,
    };
    flagged.with_opt_str("replyId"@, p.reply_id.deep_view()).with_opt_str(
        "renoteId"@,
        p.renote_id.deep_view(),
    ).with_opt(
        "fileIds"@,
        match p.file_ids {
            Some(ids) => Some(Json::strings(ids.deep_view())),
            None => None,
        },
    )
}

/// The parameters of the call that changes a note.
pub open spec fn update_note_params(note_id: Seq<char>, p: CreateNoteParams) -> Json {
    one("noteId"@, note_id).with_opt_str("text"@, p.text.deep_view()).with_opt_str(
        "cw"@,
        p.cw.deep_view(),
    ).with_opt(
        "fileIds"@,
        match p.file_ids {
            Some(ids) => Some(Json::strings(ids.deep_view())),
            None => None,
        },
    )
}

fn call(endpoint: &str, params: serde_json::Value) -> (r: ApiCall)
    ensures
        r.targets(endpoint@, json_of(params)),
{
    ApiCall { endpoint: endpoint.to_owned(), params }
}

fn one_member(key: &str, value: &str) -> (r: serde_json::Value)
    ensures
        json_of(r) == one(key@, value@),
{
    let mut params = json::empty_object();
    json::set_str(&mut params, key, value);
    params
}

fn set_paging(
    params: &mut serde_json::Value,
    since_id: &Option<String>,
    until_id: &Option<String>,
)
    requires
        json_of(*old(params)) is Object,
    ensures
        json_of(*final(params)) == paged(
            json_of(*old(params)),
            since_id.deep_view(),
            until_id.deep_view(),
        ),
        json_of(*final(params)) is Object,
{
    json::set_opt_str(params, "sinceId", since_id);
    json::set_opt_str(params, "untilId", until_id);
}

fn negate(b: Option<bool>) -> (r: Option<bool>)
    ensures
        r == negated(b),
{
    match b {
        Some(v) => Some(!v),
        None => None,
    }
}

fn set_file_ids(params: &mut serde_json::Value, file_ids: &Option<Vec<String>>)
    requires
        json_of(*old(params)) is Object,
    ensures
        json_of(*final(params)) == json_of(*old(params)).with_opt(
            "fileIds"@,
            match *file_ids {
                Some(ids) => Some(Json::strings(ids.deep_view())),
                None => None,
            },
        ),
        json_of(*final(params)) is Object,
{
    match file_ids {
        Some(ids) => {
            json::insert(params, "fileIds", json::string_array(ids));
        },
        None => {},
    }
}

impl ApiCall {
    /// Reads a timeline. An unknown timeline is an invalid input.
    pub fn get_timeline(timeline_type: &TimelineType, options: &TimelineOptions) -> (r: Result<
        ApiCall,
        NoteDeckError,
    >)
        ensures
            match r {
                Ok(c) => endpoint_of(timeline_type@) matches Some(e) && c.targets(
                    e,
                    timeline_params(*options),
                ),
                Err(e) => endpoint_of(timeline_type@) is None && e@ == unknown_timeline(
                    timeline_type@,
                ),
            },
    {
        let endpoint = match timeline_type.api_endpoint() {
            Ok(e) => e,
            Err(e) => {
                return Err(e);
            },
        };
        let mut params = json::empty_object();
        json::set_int(&mut params, "limit", options.limit());
        set_paging(&mut params, &options.since_id, &options.until_id);
        match &options.filters {
            Some(f) => {
                json::set_opt_bool(&mut params, "withRenotes", f.with_renotes);
                json::set_opt_bool(&mut params, "withReplies", f.with_replies);
                json::set_opt_bool(&mut params, "withFiles", f.with_files);
                json::set_opt_bool(&mut params, "withBots", f.with_bots);
                json::set_opt_bool(&mut params, "excludeBots", negate(f.with_bots));
                json::set_opt_bool(&mut params, "withSensitive", f.with_sensitive);
                json::set_opt_bool(&mut params, "excludeNsfw", negate(f.with_sensitive));
            },
            None => {},
        }
        Ok(call(endpoint.as_str(), params))
    }

    /// Reads one note.
    pub fn get_note(note_id: &str) -> (r: ApiCall)
        ensures
            r.targets("notes/show"@, one("noteId"@, note_id@)),
    {
        call("notes/show", one_member("noteId", note_id))
    }

    /// Creates a note.
    pub fn create_note(params: &CreateNoteParams) -> (r: ApiCall)
        ensures
            r.targets("notes/create"@, create_note_params(*params)),
    {
        let mut body = json::empty_object();
        json::set_opt_str(&mut body, "text", &params.text);
        json::set_opt_str(&mut body, "cw", &params.cw);
        json::set_opt_str(&mut body, "visibility", &params.visibility);
        json::set_opt_bool(&mut body, "localOnly", params.local_only);
        match &params.mode_flags {
            Some(flags) => {
                let ghost head = json_of(body);
                let mut i: usize = 0;
                proof {
                    assert(flags@.take(0) =~= Seq::empty());
                }
                while i < flags.len()
                    invariant
                        i <= flags.len(),
                        json_of(body) is Object,
                        json_of(body) == with_flags(head, flags@.take(i as int)),
                    decreases flags.len() - i,
                {
                    proof {
                        assert(flags@.take(i + 1).drop_last() == flags@.take(i as int));
                        assert(flags@.take(i + 1).last() == flags@[i as int]);
                    }
                    json::set_bool(&mut body, flags[i].0.as_str(), flags[i].1);
                    i += 1;
                }
                proof {
                    assert(flags@.take(flags.len() as int) == flags@);
                }
            },
            None => {},
        }
        json::set_opt_str(&mut body, "replyId", &params.reply_id);
        json::set_opt_str(&mut body, "renoteId", &params.renote_id);
        set_file_ids(&mut body, &params.file_ids);
        call("notes/create", body)
    }

    /// Changes the text, the warning and the files of a note.
    pub fn update_note(note_id: &str, params: &CreateNoteParams) -> (r: ApiCall)
        ensures
            r.targets("notes/update"@, update_note_params(note_id@, *params)),
    {
        let mut body = one_member("noteId", note_id);
        json::set_opt_str(&mut body, "text", &params.text);
        json::set_opt_str(&mut body, "cw", &params.cw);
        set_file_ids(&mut body, &params.file_ids);
        call("notes/update", body)
    }

    /// Deletes a note.
    pub fn delete_note(note_id: &str) -> (r: ApiCall)
        ensures
            r.targets("notes/delete"@, one("noteId"@, note_id@)),
    {
        call("notes/delete", one_member("noteId", note_id))
    }

    /// Reacts to a note.
    pub fn create_reaction(note_id: &str, reaction: &str) -> (r: ApiCall)
        ensures
            r.targets(
                "notes/reactions/create"@,
                one("noteId"@, note_id@).with("reaction"@, Json::Str(reaction@)),
            ),
    {
        let mut params = one_member("noteId", note_id);
        json::set_str(&mut params, "reaction", reaction);
        call("notes/reactions/create", params)
    }

    /// Takes the account's reaction off a note.
    pub fn delete_reaction(note_id: &str) -> (r: ApiCall)
        ensures
            r.targets("notes/reactions/delete"@, one("noteId"@, note_id@)),
    {
        call("notes/reactions/delete", one_member("noteId", note_id))
    }

    /// Lists who reacted to a note, with one kind of reaction if a kind is
    /// given.
    pub fn get_note_reactions(note_id: &str, reaction_type: Option<&str>, limit: u32) -> (r:
        ApiCall)
        ensures
            r.targets(
                "notes/reactions"@,
                one("noteId"@, note_id@).with("limit"@, Json::integer(limit as int)).with_opt_str(
                    "type"@,
                    match reaction_type {
                        Some(t) => Some(t@),
                        None => None,
                    },
                ),
            ),
    {
        let mut params = one_member("noteId", note_id);
        json::set_int(&mut params, "limit", limit as i64);
        match reaction_type {
            Some(t) => {
                json::set_str(&mut params, "type", t);
            },
            None => {},
        }
        call("notes/reactions", params)
    }

    /// Marks a note as a favorite.
    pub fn create_favorite(note_id: &str) -> (r: ApiCall)
        ensures
            r.targets("notes/favorites/create"@, one("noteId"@, note_id@)),
    {
        call("notes/favorites/create", one_member("noteId", note_id))
    }

    /// Takes the favorite mark off a note.
    pub fn delete_favorite(note_id: &str) -> (r: ApiCall)
        ensures
            r.targets("notes/favorites/delete"@, one("noteId"@, note_id@)),
    {
        call("notes/favorites/delete", one_member("noteId", note_id))
    }

    /// Reads a user; the answer serves both the short and the full profile.
    pub fn get_user(user_id: &str) -> (r: ApiCall)
        ensures
            r.targets("users/show"@, one("userId"@, user_id@)),
    {
        call("users/show", one_member("userId", user_id))
    }

    /// Finds a user by name, on the given host if one is given.
    pub fn lookup_user(username: &str, user_host: Option<&str>) -> (r: ApiCall)
        ensures
            r.targets(
                "users/show"@,
                one("username"@, username@).with_opt_str(
                    "host"@,
                    match user_host {
                        Some(h) => Some(h@),
                        None => None,
                    },
                ),
            ),
    {
        let mut params = one_member("username", username);
        match user_host {
            Some(h) => {
                json::set_str(&mut params, "host", h);
            },
            None => {},
        }
        call("users/show", params)
    }

    /// Reads the custom emojis of the server.
    pub fn get_server_emojis() -> (r: ApiCall)
        ensures
            r.targets("emojis"@, Json::empty_object()),
    {
        call("emojis", json::empty_object())
    }

    /// Reads the notes of a user.
    pub fn get_user_notes(user_id: &str, options: &TimelineOptions) -> (r: ApiCall)
        ensures
            r.targets(
                "users/notes"@,
                paged(
                    one("userId"@, user_id@).with("limit"@, limit_of(options.requested_limit)),
                    options.since_id.deep_view(),
                    options.until_id.deep_view(),
                ),
            ),
    {
        let mut params = one_member("userId", user_id);
        json::set_int(&mut params, "limit", options.limit());
        set_paging(&mut params, &options.since_id, &options.until_id);
        call("users/notes", params)
    }

    /// Searches the notes of the server.
    pub fn search_notes(query: &str, options: &SearchOptions) -> (r: ApiCall)
        ensures
            r.targets(
                "notes/search"@,
                paged(
                    one("query"@, query@).with("limit"@, limit_of(options.requested_limit)),
                    options.since_id.deep_view(),
                    options.until_id.deep_view(),
                ),
            ),
    {
        let mut params = one_member("query", query);
        json::set_int(&mut params, "limit", options.limit());
        set_paging(&mut params, &options.since_id, &options.until_id);
        call("notes/search", params)
    }

    /// Reads the notifications of the account.
    pub fn get_notifications(options: &TimelineOptions) -> (r: ApiCall)
        ensures
            r.targets(
                "i/notifications"@,
                paged(
                    Json::empty_object().with("limit"@, limit_of(options.requested_limit)),
                    options.since_id.deep_view(),
                    options.until_id.deep_view(),
                ),
            ),
    {
        let mut params = json::empty_object();
        json::set_int(&mut params, "limit", options.limit());
        set_paging(&mut params, &options.since_id, &options.until_id);
        call("i/notifications", params)
    }

    /// Reads all keys of a scope of the registry.
    pub fn get_registry_all(scope: &Vec<String>) -> (r: ApiCall)
        ensures
            r.targets(
                "i/registry/get-all"@,
                Json::empty_object().with("scope"@, Json::strings(scope.deep_view())),
            ),
    {
        let mut params = json::empty_object();
        json::insert(&mut params, "scope", json::string_array(scope));
        call("i/registry/get-all", params)
    }

    /// Reads the replies to a note.
    pub fn get_note_children(note_id: &str, limit: u32) -> (r: ApiCall)
        ensures
            r.targets(
                "notes/children"@,
                one("noteId"@, note_id@).with("limit"@, Json::integer(limit as int)),
            ),
    {
        let mut params = one_member("noteId", note_id);
        json::set_int(&mut params, "limit", limit as i64);
        call("notes/children", params)
    }

    /// Reads the notes that a note answers, up the thread.
    pub fn get_note_conversation(note_id: &str, limit: u32) -> (r: ApiCall)
        ensures
            r.targets(
                "notes/conversation"@,
                one("noteId"@, note_id@).with("limit"@, Json::integer(limit as int)),
            ),
    {
        let mut params = one_member("noteId", note_id);
        json::set_int(&mut params, "limit", limit as i64);
        call("notes/conversation", params)
    }

    /// Follows a user.
    pub fn follow_user(user_id: &str) -> (r: ApiCall)
        ensures
            r.targets("following/create"@, one("userId"@, user_id@)),
    {
        call("following/create", one_member("userId", user_id))
    }

    /// Stops following a user.
    pub fn unfollow_user(user_id: &str) -> (r: ApiCall)
        ensures
            r.targets("following/delete"@, one("userId"@, user_id@)),
    {
        call("following/delete", one_member("userId", user_id))
    }

    /// Reads what the server says of itself.
    pub fn get_meta() -> (r: ApiCall)
        ensures
            r.targets("meta"@, Json::empty_object()),
    {
        call("meta", json::empty_object())
    }

    /// Reads the account itself, for its policies and mode flags.
    pub fn get_user_policies() -> (r: ApiCall)
        ensures
            r.targets("i"@, Json::empty_object()),
    {
        call("i", json::empty_object())
    }

    /// Sets one boolean setting of the account.
    pub fn update_user_setting(key: &str, value: bool) -> (r: ApiCall)
        ensures
            r.targets("i/update"@, Json::empty_object().with(key@, Json::Bool(value))),
    {
        let mut params = json::empty_object();
        json::set_bool(&mut params, key, value);
        call("i/update", params)
    }

    /// Asks for the description of an endpoint. The call carries no token.
    pub fn get_endpoint_params(endpoint: &str) -> (r: ApiCall)
        ensures
            r.targets("endpoint"@, one("endpoint"@, endpoint@)),
    {
        call("endpoint", one_member("endpoint", endpoint))
    }

    /// Asks for the list of endpoints. The call carries no token.
    pub fn get_endpoints() -> (r: ApiCall)
        ensures
            r.targets("endpoints"@, Json::empty_object()),
    {
        call("endpoints", json::empty_object())
    }
}

} // verus!
