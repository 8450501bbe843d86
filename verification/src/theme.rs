//! The theme of an account, gathered from up to three places: the synced
//! preferences, the older base settings, and the defaults of the server.
//!
//! Each place is asked only if the places before it yielded nothing, and a
//! place that does not answer is passed over.

use crate::json;
use crate::json::{json_of, Json};
use vstd::prelude::*;

verus! {

/// The registry scope of the synced preferences.
pub open spec fn sync_scope_view() -> Seq<Seq<char>> {
    seq!["client"@, "preferences"@, "sync"@]
}

/// The registry scope of the older base settings.
pub open spec fn base_scope_view() -> Seq<Seq<char>> {
    seq!["client"@, "base"@]
}

/// The registry scope of the synced preferences.
pub fn sync_scope() -> (r: Vec<String>)
    ensures
        r.deep_view() == sync_scope_view(),
{
    let mut v: Vec<String> = Vec::new();
    v.push("client".to_owned());
    v.push("preferences".to_owned());
    v.push("sync".to_owned());
    proof {
        assert(v.deep_view() =~= sync_scope_view());
    }
    v
}

/// The registry scope of the older base settings.
pub fn base_scope() -> (r: Vec<String>)
    ensures
        r.deep_view() == base_scope_view(),
{
    let mut v: Vec<String> = Vec::new();
    v.push("client".to_owned());
    v.push("base".to_owned());
    proof {
        assert(v.deep_view() =~= base_scope_view());
    }
    v
}

/// `found` with the member `from` of `data`, if there is data and it has the
/// member, taken over under the name `to`.
pub open spec fn taken_over(found: Json, data: Option<Json>, from: Seq<char>, to: Seq<char>) -> Json {
    match data {
        Some(d) => found.with_opt(to, d.field(from)),
        None => found,
    }
}

/// What is found once the synced preferences have answered.
pub open spec fn after_sync(found: Json, sync: Option<Json>) -> Json {
    taken_over(
        taken_over(found, sync, "default:darkTheme"@, "syncDark"@),
        sync,
        "default:lightTheme"@,
        "syncLight"@,
    )
}

/// Whether the base settings are asked: only if the synced preferences
/// yielded neither theme.
pub open spec fn wants_base(found: Json) -> bool {
    found.field("syncDark"@) is None && found.field("syncLight"@) is None
}

/// What is found once the base settings have answered, where they were
/// asked.
pub open spec fn after_base(found: Json, base: Option<Json>) -> Json {
    if wants_base(found) {
        taken_over(
            taken_over(found, base, "darkTheme"@, "baseDark"@),
            base,
            "lightTheme"@,
            "baseLight"@,
        )
    } else {
        found
    }
}

/// Whether the server is asked for its defaults: only if nothing was found
/// so far.
pub open spec fn wants_meta(found: Json) -> bool {
    &&& found.field("syncDark"@) is None
    &&& found.field("syncLight"@) is None
    &&& found.field("baseDark"@) is None
    &&& found.field("baseLight"@) is None
}

/// What is found once the server has answered, where it was asked.
pub open spec fn after_meta(found: Json, meta: Option<Json>) -> Json {
    if wants_meta(found) {
        taken_over(
            taken_over(found, meta, "defaultDarkTheme"@, "metaDark"@),
            meta,
            "defaultLightTheme"@,
            "metaLight"@,
        )
    } else {
        found
    }
}

/// The theme of an account, given what the three places answered.
pub open spec fn account_theme(sync: Option<Json>, base: Option<Json>, meta: Option<Json>) -> Json {
    after_meta(after_base(after_sync(Json::empty_object(), sync), base), meta)
}

/// The document of an optional value.
pub open spec fn json_opt(v: Option<&serde_json::Value>) -> Option<Json> {
    match v {
        Some(x) => Some(json_of(*x)),
        None => None,
    }
}

fn take_over(found: &mut serde_json::Value, data: Option<&serde_json::Value>, from: &str, to: &str)
    requires
        json_of(*old(found)) is Object,
    ensures
        json_of(*final(found)) is Object,
        json_of(*final(found)) == taken_over(json_of(*old(found)), json_opt(data), from@, to@),
{
    match data {
        Some(d) => match json::get(d, from) {
            Some(v) => {
                json::insert(found, to, json::duplicate(v));
            },
            None => {},
        },
        None => {},
    }
}

/// Nothing found yet.
pub fn start() -> (found: serde_json::Value)
    ensures
        json_of(found) == Json::empty_object(),
{
    json::empty_object()
}

/// What a step makes of what was found so far: nothing new where that is
/// no object.
pub open spec fn stepped(before: Json, after: Json) -> Json {
    if before is Object {
        after
    } else {
        before
    }
}

/// Takes over what the synced preferences hold, if they answered.
pub fn absorb_sync(found: &mut serde_json::Value, sync: Option<&serde_json::Value>)
    ensures
        json_of(*final(found)) == stepped(
            json_of(*old(found)),
            after_sync(json_of(*old(found)), json_opt(sync)),
        ),
{
    if json::is_object(found) {
        take_over(found, sync, "default:darkTheme", "syncDark");
        take_over(found, sync, "default:lightTheme", "syncLight");
    }
}

/// Whether the base settings are to be asked.
pub fn needs_base(found: &serde_json::Value) -> (r: bool)
    ensures
        r == wants_base(json_of(*found)),
{
    json::get(found, "syncDark").is_none() && json::get(found, "syncLight").is_none()
}

/// Takes over what the base settings hold, if they were asked and answered.
pub fn absorb_base(found: &mut serde_json::Value, base: Option<&serde_json::Value>)
    ensures
        json_of(*final(found)) == stepped(
            json_of(*old(found)),
            after_base(json_of(*old(found)), json_opt(base)),
        ),
{
    if json::is_object(found) && needs_base(found) {
        take_over(found, base, "darkTheme", "baseDark");
        take_over(found, base, "lightTheme", "baseLight");
    }
}

/// Whether the server is to be asked for its defaults.
pub fn needs_meta(found: &serde_json::Value) -> (r: bool)
    ensures
        r == wants_meta(json_of(*found)),
{
    json::get(found, "syncDark").is_none() && json::get(found, "syncLight").is_none() && json::get(
        found,
        "baseDark",
    ).is_none() && json::get(found, "baseLight").is_none()
}

/// Takes over the defaults of the server, if it was asked and answered.
pub fn absorb_meta(found: &mut serde_json::Value, meta: Option<&serde_json::Value>)
    ensures
        json_of(*final(found)) == stepped(
            json_of(*old(found)),
            after_meta(json_of(*old(found)), json_opt(meta)),
        ),
{
    if json::is_object(found) && needs_meta(found) {
        take_over(found, meta, "defaultDarkTheme", "metaDark");
        take_over(found, meta, "defaultLightTheme", "metaLight");
    }
}

/// The theme of an account, given what the three places answered; `None`
/// stands for a place that did not answer or was not asked. The result is
/// always an object, with the themes that were found and nothing else.
pub fn api_fetch_account_theme(
    sync: Option<&serde_json::Value>,
    base: Option<&serde_json::Value>,
    meta: Option<&serde_json::Value>,
) -> (found: serde_json::Value)
    ensures
        json_of(found) is Object,
        json_of(found) == account_theme(json_opt(sync), json_opt(base), json_opt(meta)),
{
    let mut found = start();
    absorb_sync(&mut found, sync);
    absorb_base(&mut found, base);
    absorb_meta(&mut found, meta);
    found
}

} // verus!
