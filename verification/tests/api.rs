use notedeck::api::{
    check_declared_length, failure, is_success, parse_body, read_body_limited, read_error_detail,
    read_response, registry_result, request, MAX_RESPONSE_BYTES,
};
use notedeck::calls::ApiCall;
use notedeck::error::NoteDeckError;
use notedeck::models::CreateNoteParams;
use notedeck::timeline::{SearchOptions, TimelineFilter, TimelineOptions, TimelineType};
use serde_json::Value;

fn json(text: &str) -> Value {
    serde_json::from_str(text).unwrap()
}

fn api(endpoint: &str, status: u16, message: &str) -> NoteDeckError {
    NoteDeckError::Api {
        endpoint: endpoint.to_string(),
        status,
        message: message.to_string(),
    }
}

#[test]
fn timeline_fetch_scenario() {
    let options = TimelineOptions::new(20, None, None);
    let call = ApiCall::get_timeline(&TimelineType::new("home".to_string()), &options).unwrap();
    assert_eq!(call.endpoint, "notes/timeline");
    let r = request("h.example", "tok1", &call.endpoint, call.params);
    assert_eq!(r.url, "https://h.example/api/notes/timeline");
    assert_eq!(r.endpoint, "notes/timeline");
    assert_eq!(r.body, json(r#"{"i":"tok1","limit":20}"#));
}

#[test]
fn token_is_added_to_objects_only() {
    assert_eq!(request("h", "t", "e", json("{}")).body, json(r#"{"i":"t"}"#));
    assert_eq!(request("h", "t", "e", json(r#"{"i":"x","a":1}"#)).body, json(r#"{"i":"t","a":1}"#));
    assert_eq!(request("h", "t", "e", json("[1]")).body, json("[1]"));
    assert_eq!(request("h", "t", "e", Value::Null).body, Value::Null);
    assert_eq!(request("h", "t", "a/b", json("7")).url, "https://h/api/a/b");
}

#[test]
fn timeline_paging_and_filters() {
    let mut options =
        TimelineOptions::new(500, Some("s1".to_string()), Some("u1".to_string()));
    options.filters = Some(TimelineFilter {
        with_renotes: Some(false),
        with_replies: None,
        with_files: Some(true),
        with_bots: Some(true),
        with_sensitive: Some(false),
    });
    let call = ApiCall::get_timeline(&TimelineType::new("social".to_string()), &options).unwrap();
    assert_eq!(call.endpoint, "notes/hybrid-timeline");
    assert_eq!(
        call.params,
        json(
            r#"{"limit":100,"sinceId":"s1","untilId":"u1","withRenotes":false,"withFiles":true,
                "withBots":true,"excludeBots":false,"withSensitive":false,"excludeNsfw":true}"#
        )
    );
    options.filters = Some(TimelineFilter::default());
    options.since_id = None;
    let call = ApiCall::get_timeline(&TimelineType::new("local".to_string()), &options).unwrap();
    assert_eq!(call.params, json(r#"{"limit":100,"untilId":"u1"}"#));
}

#[test]
fn unknown_timeline_is_an_invalid_input() {
    assert_eq!(
        ApiCall::get_timeline(&TimelineType::new("x".to_string()), &TimelineOptions::default()),
        Err(NoteDeckError::InvalidInput("Unknown timeline type: x".to_string()))
    );
}

fn note_params() -> CreateNoteParams {
    CreateNoteParams {
        text: None,
        cw: None,
        visibility: None,
        local_only: None,
        mode_flags: None,
        reply_id: None,
        renote_id: None,
        file_ids: None,
    }
}

#[test]
fn create_note_body() {
    assert_eq!(ApiCall::create_note(&note_params()).params, json("{}"));
    assert_eq!(ApiCall::create_note(&note_params()).endpoint, "notes/create");
    let full = CreateNoteParams {
        text: Some("hello".to_string()),
        cw: Some("cw".to_string()),
        visibility: Some("home".to_string()),
        local_only: Some(true),
        mode_flags: Some(vec![
            ("isNoteInYamiMode".to_string(), true),
            ("isNoteInYamiMode".to_string(), false),
            ("replyId".to_string(), true),
        ]),
        reply_id: Some("r".to_string()),
        renote_id: Some("n".to_string()),
        file_ids: Some(vec!["f1".to_string(), "f2".to_string()]),
    };
    assert_eq!(
        ApiCall::create_note(&full).params,
        json(
            r#"{"text":"hello","cw":"cw","visibility":"home","localOnly":true,
                "isNoteInYamiMode":false,"replyId":"r","renoteId":"n","fileIds":["f1","f2"]}"#
        )
    );
    let update = ApiCall::update_note("n1", &full);
    assert_eq!(update.endpoint, "notes/update");
    assert_eq!(
        update.params,
        json(r#"{"noteId":"n1","text":"hello","cw":"cw","fileIds":["f1","f2"]}"#)
    );
    let empty_files = CreateNoteParams { file_ids: Some(vec![]), ..note_params() };
    assert_eq!(ApiCall::update_note("n1", &empty_files).params, json(r#"{"noteId":"n1","fileIds":[]}"#));
}

#[test]
fn calls_with_one_id() {
    for (call, endpoint, key) in [
        (ApiCall::get_note("x"), "notes/show", "noteId"),
        (ApiCall::delete_note("x"), "notes/delete", "noteId"),
        (ApiCall::delete_reaction("x"), "notes/reactions/delete", "noteId"),
        (ApiCall::create_favorite("x"), "notes/favorites/create", "noteId"),
        (ApiCall::delete_favorite("x"), "notes/favorites/delete", "noteId"),
        (ApiCall::get_user("x"), "users/show", "userId"),
        (ApiCall::follow_user("x"), "following/create", "userId"),
        (ApiCall::unfollow_user("x"), "following/delete", "userId"),
        (ApiCall::get_endpoint_params("x"), "endpoint", "endpoint"),
    ] {
        assert_eq!(call.endpoint, endpoint);
        assert_eq!(call.params, json(&format!(r#"{{"{}":"x"}}"#, key)), "{}", endpoint);
    }
}

#[test]
fn calls_without_parameters() {
    for (call, endpoint) in [
        (ApiCall::get_server_emojis(), "emojis"),
        (ApiCall::get_meta(), "meta"),
        (ApiCall::get_user_policies(), "i"),
        (ApiCall::get_endpoints(), "endpoints"),
    ] {
        assert_eq!(call.endpoint, endpoint);
        assert_eq!(call.params, json("{}"));
    }
}

#[test]
fn other_calls() {
    let c = ApiCall::create_reaction("n", ":blob:");
    assert_eq!((c.endpoint.as_str(), c.params), ("notes/reactions/create", json(r#"{"noteId":"n","reaction":":blob:"}"#)));
    let c = ApiCall::get_note_reactions("n", Some("👍"), 11);
    assert_eq!((c.endpoint.as_str(), c.params), ("notes/reactions", json(r#"{"noteId":"n","limit":11,"type":"👍"}"#)));
    let c = ApiCall::get_note_reactions("n", None, u32::MAX);
    assert_eq!(c.params, json(r#"{"noteId":"n","limit":4294967295}"#));
    let c = ApiCall::lookup_user("alice", Some("remote.example"));
    assert_eq!((c.endpoint.as_str(), c.params), ("users/show", json(r#"{"username":"alice","host":"remote.example"}"#)));
    assert_eq!(ApiCall::lookup_user("alice", None).params, json(r#"{"username":"alice"}"#));
    let opts = TimelineOptions::new(0, Some("a".to_string()), None);
    let c = ApiCall::get_user_notes("u", &opts);
    assert_eq!((c.endpoint.as_str(), c.params), ("users/notes", json(r#"{"userId":"u","limit":1,"sinceId":"a"}"#)));
    let c = ApiCall::get_notifications(&opts);
    assert_eq!((c.endpoint.as_str(), c.params), ("i/notifications", json(r#"{"limit":1,"sinceId":"a"}"#)));
    let c = ApiCall::search_notes("世界", &SearchOptions::new(1000, None, Some("z".to_string())));
    assert_eq!((c.endpoint.as_str(), c.params), ("notes/search", json(r#"{"query":"世界","limit":100,"untilId":"z"}"#)));
    let c = ApiCall::get_registry_all(&vec!["client".to_string(), "base".to_string()]);
    assert_eq!((c.endpoint.as_str(), c.params), ("i/registry/get-all", json(r#"{"scope":["client","base"]}"#)));
    let c = ApiCall::get_note_children("n", 30);
    assert_eq!((c.endpoint.as_str(), c.params), ("notes/children", json(r#"{"noteId":"n","limit":30}"#)));
    let c = ApiCall::get_note_conversation("n", 5);
    assert_eq!((c.endpoint.as_str(), c.params), ("notes/conversation", json(r#"{"noteId":"n","limit":5}"#)));
    let c = ApiCall::update_user_setting("isInYamiMode", true);
    assert_eq!((c.endpoint.as_str(), c.params), ("i/update", json(r#"{"isInYamiMode":true}"#)));
}

#[test]
fn success_statuses() {
    for s in [0u16, 100, 199, 300, 404, 500, u16::MAX] {
        assert!(!is_success(s), "{}", s);
    }
    for s in [200u16, 201, 204, 299] {
        assert!(is_success(s), "{}", s);
    }
}

#[test]
fn failure_says_what_the_body_reports() {
    let body = json(r#"{"error":{"message":"No such note","code":"NO_SUCH_NOTE"}}"#);
    assert_eq!(failure("notes/show", 404, Some(&body)), api("notes/show", 404, "notes/show: No such note"));
    let body = json(r#"{"error":{"code":"NO_SUCH_NOTE"}}"#);
    assert_eq!(failure("notes/show", 404, Some(&body)), api("notes/show", 404, "notes/show: NO_SUCH_NOTE"));
    // a message that is no text hides the code
    let body = json(r#"{"error":{"message":5,"code":"NO_SUCH_NOTE"}}"#);
    assert_eq!(failure("notes/show", 400, Some(&body)), api("notes/show", 400, "notes/show (400)"));
    for body in [r#"{"error":"x"}"#, r#"{"error":{}}"#, r#"{"error":["message"]}"#, "{}", "[]", "null", r#"{"error":{"code":1}}"#] {
        let v = json(body);
        assert_eq!(read_error_detail(&v), None, "{}", body);
        assert_eq!(failure("i", 503, Some(&v)), api("i", 503, "i (503)"));
    }
    assert_eq!(failure("i", 0, None), api("i", 0, "i (0)"));
    assert_eq!(failure("i", 65535, None), api("i", 65535, "i (65535)"));
    let body = json(r#"{"error":{"message":"m"}}"#);
    assert_eq!(read_error_detail(&body), Some("m".to_string()));
}

#[test]
fn responses_with_a_failure_status() {
    assert_eq!(
        read_response("notes/show", 404, br#"{"error":{"message":"No such note"}}"#.to_vec()),
        Err(api("notes/show", 404, "notes/show: No such note"))
    );
    assert_eq!(read_response("i", 500, b"<html>".to_vec()), Err(api("i", 500, "i (500)")));
    assert_eq!(read_response("i", 500, vec![0xff, 0xfe]), Err(api("i", 500, "i (500)")));
    assert_eq!(read_response("i", 302, vec![]), Err(api("i", 302, "i (302)")));
}

#[test]
fn responses_with_a_success_status() {
    assert_eq!(read_response("i", 200, br#"{"a":[1,2]}"#.to_vec()), Ok(json(r#"{"a":[1,2]}"#)));
    assert_eq!(read_response("i", 204, vec![]), Ok(Value::Null));
    assert_eq!(
        read_response("i", 200, vec![0xff]),
        Err(api("i", 0, "Invalid UTF-8 in response"))
    );
    match read_response("i", 200, b"{".to_vec()) {
        Err(NoteDeckError::Json(detail)) => assert!(!detail.is_empty()),
        other => panic!("{:?}", other),
    }
    assert_eq!(parse_body(""), Ok(Value::Null));
    assert_eq!(parse_body("\"x\""), Ok(json("\"x\"")));
    assert_eq!(parse_body(" ").unwrap_err().code(), "JSON");
    assert_eq!(parse_body(" ").unwrap_err().safe_message(), "Invalid response format");
}

#[test]
fn body_size_cap() {
    assert_eq!(MAX_RESPONSE_BYTES, 50 * 1024 * 1024);
    let too_large = vec![b' '; MAX_RESPONSE_BYTES + 1];
    assert_eq!(
        read_body_limited("notes/timeline", too_large.clone()),
        Err(api("notes/timeline", 0, "Response too large"))
    );
    let e = read_response("notes/timeline", 200, too_large).unwrap_err();
    assert_eq!(e, api("notes/timeline", 0, "Response too large"));
    assert_eq!(e.safe_message(), "Response too large");
    let mut largest = vec![b' '; MAX_RESPONSE_BYTES];
    largest[0] = b'1';
    assert_eq!(read_body_limited("e", largest.clone()).map(|t| t.len()), Ok(MAX_RESPONSE_BYTES));
    assert_eq!(read_response("e", 200, largest), Ok(json("1")));
    assert_eq!(read_body_limited("e", "世界".as_bytes().to_vec()), Ok("世界".to_string()));
    assert_eq!(
        read_body_limited("e", vec![0xe4, 0xb8]),
        Err(api("e", 0, "Invalid UTF-8 in response"))
    );
}

#[test]
fn declared_length_cap() {
    assert_eq!(check_declared_length("e", None), Ok(()));
    assert_eq!(check_declared_length("e", Some(0)), Ok(()));
    assert_eq!(check_declared_length("e", Some(MAX_RESPONSE_BYTES as u64)), Ok(()));
    assert_eq!(
        check_declared_length("e", Some(MAX_RESPONSE_BYTES as u64 + 1)),
        Err(api("e", 0, "Response too large"))
    );
    assert_eq!(check_declared_length("e", Some(u64::MAX)), Err(api("e", 0, "Response too large")));
}

#[test]
fn registry_swallows_api_faults_only() {
    assert_eq!(registry_result(Ok(json("{}"))), Ok(None));
    assert_eq!(registry_result(Ok(json(r#"{"a":1}"#))), Ok(Some(json(r#"{"a":1}"#))));
    assert_eq!(registry_result(Ok(json("[]"))), Ok(Some(json("[]"))));
    assert_eq!(registry_result(Ok(Value::Null)), Ok(Some(Value::Null)));
    assert_eq!(registry_result(Err(api("i/registry/get-all", 400, "x"))), Ok(None));
    for e in [
        NoteDeckError::Network("down".to_string()),
        NoteDeckError::Json("bad".to_string()),
        NoteDeckError::ConnectionClosed,
    ] {
        assert_eq!(registry_result(Err(e.clone())), Err(e));
    }
}
