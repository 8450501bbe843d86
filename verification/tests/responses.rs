use notedeck::assoc::{find_key, lookup, upsert};
use notedeck::models::{RawEmoji, RawEmojisResponse};
use notedeck::responses::{get_endpoint_params, get_server_emojis, get_user_policies, user_mode_key};
use notedeck::theme::{
    absorb_base, absorb_meta, absorb_sync, api_fetch_account_theme, base_scope, needs_base,
    needs_meta, start, sync_scope,
};
use serde_json::Value;

fn json(text: &str) -> Value {
    serde_json::from_str(text).unwrap()
}

fn sorted<T: Ord>(mut v: Vec<T>) -> Vec<T> {
    v.sort();
    v
}

#[test]
fn policies_and_mode_flags_are_flattened() {
    let data = json(
        r#"{"id":"u1","isInYamiMode":true,"isInHanaMode":"no","isCat":true,
            "policies":{"ltlAvailable":true,"gtlAvailable":false,"driveCapacityMb":100,
                        "isInYamiMode":false,"isInOtherMode":true}}"#,
    );
    assert_eq!(
        sorted(get_user_policies(&data)),
        vec![
            ("gtlAvailable".to_string(), false),
            ("isInOtherMode".to_string(), true),
            ("isInYamiMode".to_string(), true),
            ("ltlAvailable".to_string(), true),
        ]
    );
}

#[test]
fn answers_without_policies() {
    assert_eq!(get_user_policies(&json(r#"{"isInYamiMode":false}"#)), vec![("isInYamiMode".to_string(), false)]);
    for data in ["{}", "[]", "null", r#"{"policies":[true]}"#, r#"{"policies":"x"}"#, r#"{"policies":{}}"#, r#"{"policies":{"a":1}}"#] {
        assert!(get_user_policies(&json(data)).is_empty(), "{}", data);
    }
    assert!(user_mode_key("isInYamiMode"));
    assert!(user_mode_key("isInMode"));
    assert!(!user_mode_key("isNoteYamiMode"));
    assert!(!user_mode_key("isInYami"));
}

#[test]
fn endpoint_parameters_in_both_shapes() {
    let modern = json(r#"{"params":{"type":"object","properties":{"noteId":{"type":"string"},"limit":{}}}}"#);
    assert_eq!(sorted(get_endpoint_params(&modern)), vec!["limit".to_string(), "noteId".to_string()]);
    let older = json(r#"{"params":[{"name":"noteId","type":"String"},{"type":"x"},{"name":5},"x",{"name":"limit"}]}"#);
    assert_eq!(get_endpoint_params(&older), vec!["noteId".to_string(), "limit".to_string()]);
    for data in ["{}", "null", r#"{"params":{}}"#, r#"{"params":{"properties":{}}}"#, r#"{"params":{"properties":[1]}}"#, r#"{"params":[]}"#, r#"{"params":"x"}"#] {
        assert!(get_endpoint_params(&json(data)).is_empty(), "{}", data);
    }
}

#[test]
fn emojis_by_name() {
    let e = |name: &str, url: &str| RawEmoji { name: name.to_string(), url: url.to_string() };
    let list = get_server_emojis(RawEmojisResponse {
        emojis: vec![e("blob", "1"), e("cat", "2"), e("blob", "3")],
    });
    assert_eq!(list, vec![("blob".to_string(), "3".to_string()), ("cat".to_string(), "2".to_string())]);
    assert_eq!(lookup(&list, "cat"), Some(&"2".to_string()));
    assert_eq!(lookup(&list, "dog"), None);
    assert!(get_server_emojis(RawEmojisResponse { emojis: vec![] }).is_empty());
}

#[test]
fn lists_of_entries() {
    let mut entries: Vec<(String, i32)> = vec![];
    upsert(&mut entries, "a".to_string(), 1);
    upsert(&mut entries, "b".to_string(), 2);
    upsert(&mut entries, "a".to_string(), 3);
    assert_eq!(entries, vec![("a".to_string(), 3), ("b".to_string(), 2)]);
    assert_eq!(find_key(&entries, "b"), Some(1));
    assert_eq!(find_key(&entries, "c"), None);
    assert_eq!(lookup(&entries, "a"), Some(&3));
}

#[test]
fn theme_from_the_synced_preferences() {
    let sync = json(r#"{"default:darkTheme":{"id":"d"},"default:lightTheme":"l","other":1}"#);
    let base = json(r#"{"darkTheme":"bd"}"#);
    let meta = json(r#"{"defaultDarkTheme":"md"}"#);
    assert_eq!(
        api_fetch_account_theme(Some(&sync), Some(&base), Some(&meta)),
        json(r#"{"syncDark":{"id":"d"},"syncLight":"l"}"#)
    );
    let only_light = json(r#"{"default:lightTheme":null}"#);
    assert_eq!(
        api_fetch_account_theme(Some(&only_light), Some(&base), Some(&meta)),
        json(r#"{"syncLight":null}"#)
    );
}

#[test]
fn theme_falls_back_to_base_and_then_to_the_server() {
    let base = json(r#"{"darkTheme":"bd","lightTheme":"bl"}"#);
    let meta = json(r#"{"defaultDarkTheme":"md","defaultLightTheme":"ml"}"#);
    assert_eq!(
        api_fetch_account_theme(Some(&json("{}")), Some(&base), Some(&meta)),
        json(r#"{"baseDark":"bd","baseLight":"bl"}"#)
    );
    assert_eq!(
        api_fetch_account_theme(None, Some(&json(r#"{"lightTheme":"bl"}"#)), Some(&meta)),
        json(r#"{"baseLight":"bl"}"#)
    );
    assert_eq!(
        api_fetch_account_theme(None, None, Some(&meta)),
        json(r#"{"metaDark":"md","metaLight":"ml"}"#)
    );
    assert_eq!(
        api_fetch_account_theme(None, Some(&json("[]")), Some(&json(r#"{"defaultLightTheme":"ml"}"#))),
        json(r#"{"metaLight":"ml"}"#)
    );
    assert_eq!(api_fetch_account_theme(None, None, None), json("{}"));
    assert_eq!(api_fetch_account_theme(Some(&Value::Null), Some(&json("3")), Some(&json("[]"))), json("{}"));
}

#[test]
fn theme_step_by_step() {
    let mut found = start();
    assert_eq!(found, json("{}"));
    absorb_sync(&mut found, None);
    assert!(needs_base(&found));
    absorb_base(&mut found, Some(&json(r#"{"darkTheme":"bd"}"#)));
    assert_eq!(found, json(r#"{"baseDark":"bd"}"#));
    assert!(needs_base(&found));
    assert!(!needs_meta(&found));
    absorb_meta(&mut found, Some(&json(r#"{"defaultDarkTheme":"md"}"#)));
    assert_eq!(found, json(r#"{"baseDark":"bd"}"#));

    let mut found = start();
    absorb_sync(&mut found, Some(&json(r#"{"default:darkTheme":1}"#)));
    assert!(!needs_base(&found));
    assert!(!needs_meta(&found));
    absorb_base(&mut found, Some(&json(r#"{"darkTheme":"bd"}"#)));
    assert_eq!(found, json(r#"{"syncDark":1}"#));
    assert_eq!(sync_scope(), vec!["client", "preferences", "sync"]);
    assert_eq!(base_scope(), vec!["client", "base"]);
}
