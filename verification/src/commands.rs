//! What the entry points of the front-end check before anything is sent, and
//! the beginning and the end of an authorization.

use crate::error::{ErrorView, NoteDeckError};
use crate::host::{host_rejection, host_verdict, normalize_host, validate_host};
use crate::ids::fresh_id;
use crate::models::{
    user_of, Account, AuthResult, AuthSession, NormalizedUser, RawMiAuthResponse,
};
use crate::session::{live_sessions, AuthSessionTracker};
use crate::text::{
    byte_len, chars_of, concat, concat3, decimal, ends_with, letter_or_digit, join, join_strings,
    push_decimal, starts_with, utf8_len,
};
use vstd::prelude::*;

verus! {

/// The largest file that is uploaded, in bytes: fifty mebibytes.
pub const MAX_UPLOAD_BYTES: usize = 52428800;

/// The longest search query, in bytes.
pub const MAX_QUERY_BYTES: usize = 1000;

fn invalid(message: &str) -> (e: NoteDeckError)
    ensures
        e@ == ErrorView::InvalidInput(message@),
{
    NoteDeckError::InvalidInput(message.to_owned())
}

/// Whether a key names a setting that may be changed: a mode flag of the
/// account, `isIn…Mode`, of at most thirty bytes.
pub open spec fn is_setting_key(key: Seq<char>) -> bool {
    "isIn"@.is_prefix_of(key) && "Mode"@.is_suffix_of(key) && utf8_len(key) <= 30
}

/// Refuses a setting that is no mode flag.
pub fn check_setting_key(key: &str) -> (r: Result<(), NoteDeckError>)
    ensures
        match r {
            Ok(_) => is_setting_key(key@),
            Err(e) => !is_setting_key(key@) && e@ == ErrorView::InvalidInput(
                "Disallowed setting key: "@ + key@,
            ),
        },
{
    let k = chars_of(key);
    if starts_with(&k, "isIn") && ends_with(&k, "Mode") && byte_len(key) <= 30 {
        Ok(())
    } else {
        Err(NoteDeckError::InvalidInput(concat("Disallowed setting key: ", key)))
    }
}

/// A character of an endpoint name: a letter, a digit, a slash or a hyphen.
pub open spec fn is_endpoint_char(c: char) -> bool {
    letter_or_digit(c) || c == '/' || c == '-'
}

/// Whether a text names an endpoint: at most a hundred bytes of letters,
/// digits, slashes and hyphens.
pub open spec fn is_endpoint_name(name: Seq<char>) -> bool {
    utf8_len(name) <= 100 && forall|i: int| 0 <= i < name.len() ==> is_endpoint_char(#[trigger] name[i])
}

/// Refuses a text that names no endpoint.
pub fn check_endpoint_name(endpoint: &str) -> (r: Result<(), NoteDeckError>)
    ensures
        match r {
            Ok(_) => is_endpoint_name(endpoint@),
            Err(e) => !is_endpoint_name(endpoint@) && e@ == ErrorView::InvalidInput(
                "Invalid endpoint name"@,
            ),
        },
{
    if byte_len(endpoint) > 100 {
        return Err(invalid("Invalid endpoint name"));
    }
    let cs = chars_of(endpoint);
    let mut i: usize = 0;
    while i < cs.len()
        invariant
            i <= cs.len(),
            cs@ == endpoint@,
            forall|k: int| 0 <= k < i ==> is_endpoint_char(#[trigger] cs@[k]),
        decreases cs.len() - i,
    {
        let c = cs[i];
        if !(c.is_alphanumeric() || c == '/' || c == '-') {
            proof {
                assert(!is_endpoint_char(endpoint@[i as int]));
            }
            return Err(invalid("Invalid endpoint name"));
        }
        i += 1;
    }
    Ok(())
}

/// Refuses a search query of more than a thousand bytes.
pub fn check_search_query(query: &str) -> (r: Result<(), NoteDeckError>)
    ensures
        match r {
            Ok(_) => utf8_len(query@) <= 1000,
            Err(e) => utf8_len(query@) > 1000 && e@ == ErrorView::InvalidInput(
                "Search query too long"@,
            ),
        },
{
    if byte_len(query) > MAX_QUERY_BYTES {
        Err(invalid("Search query too long"))
    } else {
        Ok(())
    }
}

/// Refuses a file of more than fifty mebibytes.
pub fn check_upload_size(len: usize) -> (r: Result<(), NoteDeckError>)
    ensures
        match r {
            Ok(_) => len <= MAX_UPLOAD_BYTES,
            Err(e) => len > MAX_UPLOAD_BYTES && e@ == ErrorView::InvalidInput("File too large"@),
        },
{
    if len > MAX_UPLOAD_BYTES {
        Err(invalid("File too large"))
    } else {
        Ok(())
    }
}

/// Refuses a user name that is empty or longer than 255 bytes.
pub fn check_username(username: &str) -> (r: Result<(), NoteDeckError>)
    ensures
        match r {
            Ok(_) => 0 < utf8_len(username@) <= 255,
            Err(e) => !(0 < utf8_len(username@) <= 255) && e@ == ErrorView::InvalidInput(
                "Invalid username"@,
            ),
        },
{
    let n = byte_len(username);
    if n == 0 || n > 255 {
        Err(invalid("Invalid username"))
    } else {
        Ok(())
    }
}

/// The host on which a user is looked up, validated if one is given.
pub fn check_lookup_host(host: Option<&str>) -> (r: Result<Option<String>, NoteDeckError>)
    ensures
        match host {
            None => r matches Ok(None),
            Some(h) => match r {
                Ok(v) => v matches Some(n) && n@ == normalize_host(h@) && host_verdict(n@)
                    is Accepted,
                Err(e) => !(host_verdict(normalize_host(h@)) is Accepted) && e@ == host_rejection(
                    normalize_host(h@),
                ),
            },
        },
{
    match host {
        None => Ok(None),
        Some(h) => match validate_host(h) {
            Ok(n) => Ok(Some(n)),
            Err(e) => Err(e),
        },
    }
}

/// The permissions that are asked for when the caller names none.
pub open spec fn default_permissions() -> Seq<Seq<char>> {
    seq![
        "read:account"@,
        "write:account"@,
        "read:notifications"@,
        "read:reactions"@,
        "read:favorites"@,
        "write:drive"@,
        "write:favorites"@,
        "write:following"@,
        "write:notes"@,
        "write:reactions"@,
        "write:votes"@,
    ]
}

/// A character of a permission: a letter, a digit, a colon or a hyphen.
pub open spec fn is_permission_char(c: char) -> bool {
    letter_or_digit(c) || c == ':' || c == '-'
}

/// Whether a text names a permission: at most fifty bytes of letters,
/// digits, colons and hyphens.
pub open spec fn is_permission(p: Seq<char>) -> bool {
    utf8_len(p) <= 50 && forall|i: int| 0 <= i < p.len() ==> is_permission_char(#[trigger] p[i])
}

/// The address that the user opens to grant the permissions to the session.
pub open spec fn auth_url(host: Seq<char>, session_id: Seq<char>, perms: Seq<Seq<char>>) -> Seq<
    char,
> {
    "https://"@ + host + "/miauth/"@ + session_id + "?name=notedeck&permission="@ + join(
        perms,
        ","@,
    )
}

/// The permissions that are asked for when the caller names none.
pub fn default_permission_list() -> (r: Vec<String>)
    ensures
        r.deep_view() == default_permissions(),
{
    let mut v: Vec<String> = Vec::new();
    v.push("read:account".to_owned());
    v.push("write:account".to_owned());
    v.push("read:notifications".to_owned());
    v.push("read:reactions".to_owned());
    v.push("read:favorites".to_owned());
    v.push("write:drive".to_owned());
    v.push("write:favorites".to_owned());
    v.push("write:following".to_owned());
    v.push("write:notes".to_owned());
    v.push("write:reactions".to_owned());
    v.push("write:votes".to_owned());
    proof {
        assert(v.deep_view() =~= default_permissions());
    }
    v
}

/// Whether a text names a permission.
pub fn permission_ok(perm: &str) -> (r: bool)
    ensures
        r == is_permission(perm@),
{
    let cs = chars_of(perm);
    let mut i: usize = 0;
    while i < cs.len()
        invariant
            i <= cs.len(),
            cs@ == perm@,
            forall|k: int| 0 <= k < i ==> is_permission_char(#[trigger] cs@[k]),
        decreases cs.len() - i,
    {
        let c = cs[i];
        if !(c.is_alphanumeric() || c == ':' || c == '-') {
            proof {
                assert(!is_permission_char(perm@[i as int]));
            }
            return false;
        }
        i += 1;
    }
    byte_len(perm) <= 50
}

/// The permissions that an authorization asks for: those given, or the
/// defaults.
pub open spec fn requested_permissions(permissions: Option<Vec<String>>) -> Seq<Seq<char>> {
    match permissions {
        Some(p) => p.deep_view(),
        None => default_permissions(),
    }
}

/// Whether `e` is the fault for the first text among `perms` that names no
/// permission.
pub open spec fn first_bad_permission(perms: Seq<Seq<char>>, e: ErrorView) -> bool {
    exists|i: int|
        {
            &&& 0 <= i < perms.len()
            &&& !is_permission(#[trigger] perms[i])
            &&& e == ErrorView::InvalidInput("Invalid permission: "@ + perms[i])
            &&& forall|j: int| 0 <= j < i ==> is_permission(#[trigger] perms[j])
        }
}

/// Begins an authorization on `host` under the session `session_id` at the
/// time `now`: the host is validated, the permissions are checked, and the
/// session is registered. On a fault nothing is registered.
pub fn auth_start_with(
    tracker: &mut AuthSessionTracker,
    host: &str,
    permissions: Option<Vec<String>>,
    session_id: String,
    now: u64,
) -> (r: Result<AuthSession, NoteDeckError>)
    requires
        old(tracker).wf(),
    ensures
        final(tracker).wf(),
        match r {
            Ok(s) => {
                &&& host_verdict(normalize_host(host@)) is Accepted
                &&& forall|i: int|
                    0 <= i < requested_permissions(permissions).len() ==> is_permission(
                        #[trigger] requested_permissions(permissions)[i],
                    )
                &&& s.session_id == session_id
                &&& s.host@ == normalize_host(host@)
                &&& s.url@ == auth_url(
                    normalize_host(host@),
                    session_id@,
                    requested_permissions(permissions),
                )
                &&& final(tracker)@.dom() == live_sessions(old(tracker)@, now).dom().insert(
                    session_id@,
                )
                &&& final(tracker)@[session_id@].0@ == s.host@
                &&& final(tracker)@[session_id@].1 == now
            },
            Err(e) => {
                &&& final(tracker)@ == old(tracker)@
                &&& if !(host_verdict(normalize_host(host@)) is Accepted) {
                    e@ == host_rejection(normalize_host(host@))
                } else {
                    first_bad_permission(requested_permissions(permissions), e@)
                }
            },
        },
{
    let normalized = match validate_host(host) {
        Ok(h) => h,
        Err(e) => {
            return Err(e);
        },
    };
    let perms = match permissions {
        Some(p) => p,
        None => default_permission_list(),
    };
    let mut i: usize = 0;
    while i < perms.len()
        invariant
            i <= perms.len(),
            perms.deep_view() == requested_permissions(permissions),
            forall|k: int| 0 <= k < i ==> is_permission(#[trigger] perms.deep_view()[k]),
            tracker.wf(),
            tracker@ == old(tracker)@,
            host_verdict(normalize_host(host@)) is Accepted,
        decreases perms.len() - i,
    {
        if !permission_ok(perms[i].as_str()) {
            let e = NoteDeckError::InvalidInput(
                concat("Invalid permission: ", perms[i].as_str()),
            );
            proof {
                let all = requested_permissions(permissions);
                let bad = i as int;
                assert(all[bad] == perms@[bad]@);
                assert(!is_permission(all[bad]));
                assert(e@ == ErrorView::InvalidInput("Invalid permission: "@ + all[bad]));
                assert forall|j: int| 0 <= j < bad implies is_permission(#[trigger] all[j]) by {}
                assert(first_bad_permission(all, e@));
            }
            return Err(e);
        }
        proof {
            assert(perms.deep_view()[i as int] == perms@[i as int]@);
        }
        i += 1;
    }
    let permission_str = join_strings(&perms, ",");
    let head = concat3("https://", normalized.as_str(), "/miauth/");
    let mid = concat3(head.as_str(), session_id.as_str(), "?name=notedeck&permission=");
    let url = concat(mid.as_str(), permission_str.as_str());
    tracker.register_at(session_id.as_str(), normalized.as_str(), now);
    Ok(AuthSession { session_id, url, host: normalized })
}

/// Begins an authorization on `host` under a fresh session, now.
pub fn auth_start(tracker: &mut AuthSessionTracker, host: &str, permissions: Option<Vec<String>>) -> (r:
    Result<AuthSession, NoteDeckError>)
    requires
        old(tracker).wf(),
    ensures
        final(tracker).wf(),
        match r {
            Ok(s) => {
                &&& host_verdict(normalize_host(host@)) is Accepted
                &&& s.host@ == normalize_host(host@)
                &&& s.url@ == auth_url(
                    normalize_host(host@),
                    s.session_id@,
                    requested_permissions(permissions),
                )
                &&& final(tracker)@.contains_key(s.session_id@)
                &&& final(tracker)@[s.session_id@].0@ == s.host@
            },
            Err(e) => {
                &&& final(tracker)@ == old(tracker)@
                &&& if !(host_verdict(normalize_host(host@)) is Accepted) {
                    e@ == host_rejection(normalize_host(host@))
                } else {
                    first_bad_permission(requested_permissions(permissions), e@)
                }
            },
        },
{
    let session_id = fresh_id();
    let now = tracker.now();
    auth_start_with(tracker, host, permissions, session_id, now)
}

/// The address at which the outcome of an authorization is fetched.
pub open spec fn auth_check_url(host: Seq<char>, session_id: Seq<char>) -> Seq<char> {
    "https://"@ + host + "/api/miauth/"@ + session_id + "/check"@
}

/// The address at which the outcome of an authorization is fetched.
pub fn complete_auth_url(host: &str, session_id: &str) -> (r: String)
    ensures
        r@ == auth_check_url(host@, session_id@),
{
    let head = concat3("https://", host, "/api/miauth/");
    concat3(head.as_str(), session_id, "/check")
}

/// The fault for an authorization check that the server answered with a
/// failure status.
pub fn auth_check_failed(status: u16) -> (e: NoteDeckError)
    ensures
        e@ == ErrorView::Auth("MiAuth check failed: "@ + decimal(status as nat)),
{
    let mut m = "MiAuth check failed: ".to_owned();
    push_decimal(&mut m, status as u64);
    NoteDeckError::Auth(m)
}

/// What a completed authorization yields: the token and the user, if the
/// server confirms the authorization and sends both.
pub fn complete_auth(data: RawMiAuthResponse) -> (r: Result<AuthResult, NoteDeckError>)
    ensures
        match r {
            Ok(a) => {
                &&& data.ok
                &&& data.token == Some(a.token)
                &&& data.user matches Some(u)
                &&& a.user == user_of(u)
            },
            Err(e) => if !data.ok {
                e@ == ErrorView::Auth("MiAuth authentication was not completed"@)
            } else if data.token is None {
                e@ == ErrorView::Auth("MiAuth response missing token"@)
            } else {
                data.user is None && e@ == ErrorView::Auth("MiAuth response missing user"@)
            },
        },
{
    if !data.ok {
        return Err(NoteDeckError::Auth("MiAuth authentication was not completed".to_owned()));
    }
    let token = match data.token {
        Some(t) => t,
        None => {
            return Err(NoteDeckError::Auth("MiAuth response missing token".to_owned()));
        },
    };
    let user = match data.user {
        Some(u) => u,
        None => {
            return Err(NoteDeckError::Auth("MiAuth response missing user".to_owned()));
        },
    };
    Ok(AuthResult { token, user: NormalizedUser::from(user) })
}

/// The account that a completed authorization on `host` yields, under the
/// id `id`. The token is part of the record until the keychain holds it.
pub fn account_from_auth(id: String, host: &str, auth: &AuthResult, software: String) -> (a:
    Account)
    ensures
        a.id == id,
        a.host@ == host@,
        a.token == auth.token,
        a.user_id == auth.user.id,
        a.username == auth.user.username,
        a.display_name == auth.user.name,
        a.avatar_url == auth.user.avatar_url,
        a.software == software,
{
    Account {
        id,
        host: host.to_owned(),
        token: auth.token.clone(),
        user_id: auth.user.id.clone(),
        username: auth.user.username.clone(),
        display_name: match &auth.user.name {
            Some(n) => Some(n.clone()),
            None => None,
        },
        avatar_url: match &auth.user.avatar_url {
            Some(u) => Some(u.clone()),
            None => None,
        },
        software,
    }
}

} // verus!
