use notedeck::error::NoteDeckError;
use notedeck::models::Account;
use notedeck::store::{
    cleanup_cutoff, is_expired, note_row, search_plan, AccountTable, SearchPlan,
    CACHE_RETENTION_SECS,
};

fn account(id: &str, host: &str, user_id: &str, token: &str) -> Account {
    Account {
        id: id.to_string(),
        host: host.to_string(),
        token: token.to_string(),
        user_id: user_id.to_string(),
        username: format!("name-{}", token),
        display_name: None,
        avatar_url: Some(format!("https://{}/{}.png", host, token)),
        software: "misskey".to_string(),
    }
}

fn pairs(table: &AccountTable) -> Vec<(String, String)> {
    table.load_accounts().iter().map(|a| (a.host.clone(), a.user_id.clone())).collect()
}

#[test]
fn reauthentication_keeps_the_id() {
    let mut table = AccountTable::new();
    assert_eq!(table.upsert_account(account("id-1", "h.example", "u1", "tok1")), Ok(()));
    assert_eq!(table.upsert_account(account("id-2", "h.example", "u1", "tok2")), Ok(()));
    assert_eq!(table.load_accounts().len(), 1);
    let saved = table.get_account_by_host_user("h.example", "u1").unwrap();
    assert_eq!(saved.id, "id-1");
    assert_eq!(saved.token, "tok2");
    assert_eq!(saved.username, "name-tok2");
    assert_eq!(saved.avatar_url.as_deref(), Some("https://h.example/tok2.png"));
    assert!(table.get_account("id-2").is_none());
    assert_eq!(table.get_account("id-1"), Some(saved));
}

#[test]
fn no_two_accounts_share_host_and_user() {
    let mut table = AccountTable::new();
    let mut n = 0;
    for round in 0..3 {
        for host in ["a.example", "b.example"] {
            for user in ["u1", "u2", "u3"] {
                n += 1;
                let a = account(&format!("id-{}", n), host, user, &format!("t{}", round));
                assert_eq!(table.upsert_account(a), Ok(()));
            }
        }
    }
    let mut seen = pairs(&table);
    assert_eq!(seen.len(), 6);
    seen.sort();
    seen.dedup();
    assert_eq!(seen.len(), 6);
    let ids: Vec<&str> = table.load_accounts().iter().map(|a| a.id.as_str()).collect();
    assert_eq!(ids, vec!["id-1", "id-2", "id-3", "id-4", "id-5", "id-6"]);
    assert!(table.load_accounts().iter().all(|a| a.token == "t2"));
}

#[test]
fn same_user_id_on_another_host_is_another_account() {
    let mut table = AccountTable::new();
    table.upsert_account(account("id-1", "a.example", "u1", "t")).unwrap();
    table.upsert_account(account("id-2", "b.example", "u1", "t")).unwrap();
    table.upsert_account(account("id-3", "a.example", "u2", "t")).unwrap();
    assert_eq!(table.load_accounts().len(), 3);
    assert_eq!(table.get_account_by_host_user("b.example", "u1").unwrap().id, "id-2");
    assert!(table.get_account_by_host_user("b.example", "u2").is_none());
}

#[test]
fn a_taken_id_is_refused() {
    let mut table = AccountTable::new();
    table.upsert_account(account("id-1", "a.example", "u1", "t")).unwrap();
    let e = table.upsert_account(account("id-1", "b.example", "u9", "t")).unwrap_err();
    assert!(matches!(e, NoteDeckError::Database(_)));
    assert_eq!(e.safe_message(), "Database operation failed");
    assert_eq!(pairs(&table), vec![("a.example".to_string(), "u1".to_string())]);
}

#[test]
fn deleting_and_clearing() {
    let mut table = AccountTable::new();
    table.upsert_account(account("id-1", "a.example", "u1", "t1")).unwrap();
    table.upsert_account(account("id-2", "a.example", "u2", "t2")).unwrap();
    table.clear_token("id-1");
    table.clear_token("missing");
    assert_eq!(table.get_account("id-1").unwrap().token, "");
    assert_eq!(table.get_account("id-1").unwrap().username, "name-t1");
    assert_eq!(table.get_account("id-2").unwrap().token, "t2");
    table.delete_account("id-1");
    table.delete_account("missing");
    assert_eq!(pairs(&table), vec![("a.example".to_string(), "u2".to_string())]);
    // the user can authorize again and gets the new id
    table.upsert_account(account("id-3", "a.example", "u1", "t3")).unwrap();
    assert_eq!(table.get_account_by_host_user("a.example", "u1").unwrap().id, "id-3");
}

#[test]
fn search_fallback_scenario() {
    assert_eq!(search_plan("世"), SearchPlan::Substring { pattern: "%世%".to_string() });
    assert_eq!(search_plan("世界"), SearchPlan::Substring { pattern: "%世界%".to_string() });
    assert_eq!(
        search_plan("世界平和"),
        SearchPlan::Phrase { match_expr: "\"世界平和\"".to_string() }
    );
}

#[test]
fn queries_are_measured_in_characters() {
    assert_eq!(search_plan(""), SearchPlan::Substring { pattern: "%%".to_string() });
    assert_eq!(search_plan("ab"), SearchPlan::Substring { pattern: "%ab%".to_string() });
    assert_eq!(search_plan("abc"), SearchPlan::Phrase { match_expr: "\"abc\"".to_string() });
    // three characters of nine bytes
    assert_eq!(search_plan("こんに"), SearchPlan::Phrase { match_expr: "\"こんに\"".to_string() });
    // two characters of eight bytes
    assert_eq!(search_plan("😀😀"), SearchPlan::Substring { pattern: "%😀😀%".to_string() });
}

#[test]
fn quotes_in_phrases_are_doubled() {
    assert_eq!(
        search_plan("say \"hi\""),
        SearchPlan::Phrase { match_expr: "\"say \"\"hi\"\"\"".to_string() }
    );
    assert_eq!(search_plan("\"\"\""), SearchPlan::Phrase { match_expr: "\"\"\"\"\"\"\"\"".to_string() });
    assert_eq!(search_plan("a\""), SearchPlan::Substring { pattern: "%a\"%".to_string() });
    for q in ["abc", "a\"b\"c", "100% sure", "\"\"\"\""] {
        if let SearchPlan::Phrase { match_expr } = search_plan(q) {
            assert_eq!(match_expr, format!("\"{}\"", q.replace('"', "\"\"")));
        } else {
            panic!("{:?}", q);
        }
    }
}

#[test]
fn notes_older_than_thirty_days_are_dropped() {
    assert_eq!(CACHE_RETENTION_SECS, 30 * 24 * 60 * 60);
    let now: u64 = 1_700_000_000;
    assert_eq!(cleanup_cutoff(now), 1_700_000_000 - 2_592_000);
    assert!(is_expired(1_700_000_000 - 2_592_001, now));
    assert!(!is_expired(1_700_000_000 - 2_592_000, now));
    assert!(!is_expired(1_700_000_000, now));
    assert_eq!(cleanup_cutoff(0), -2_592_000);
    assert!(!is_expired(0, 0));
    assert_eq!(cleanup_cutoff(u64::MAX), i64::MAX - 2_592_000);
    assert!(is_expired(i64::MIN, 0));
}

#[test]
fn rows_of_the_cache() {
    let raw = notedeck::models::RawNote {
        id: "n1".to_string(),
        created_at: "2024-01-01T00:00:00.000Z".to_string(),
        text: Some("こんにちは世界".to_string()),
        cw: None,
        user: notedeck::models::RawUser {
            id: "u".to_string(),
            username: "n".to_string(),
            host: None,
            name: None,
            avatar_url: None,
            is_bot: false,
            avatar_decorations: vec![],
        },
        visibility: "public".to_string(),
        emojis: vec![],
        reaction_emojis: vec![],
        reactions: vec![],
        my_reaction: None,
        renote_count: 0,
        replies_count: 0,
        files: vec![],
        poll: None,
        reply_id: None,
        renote_id: None,
        channel_id: None,
        reaction_acceptance: None,
        uri: None,
        url: None,
        updated_at: None,
        local_only: false,
        is_favorited: false,
        reply: None,
        renote: None,
        extra: vec![],
    };
    let note = raw.normalize("A", "h.example");
    let row = note_row(&note, "{}".to_string(), 42);
    assert_eq!(row.note_id, "n1");
    assert_eq!(row.account_id, "A");
    assert_eq!(row.server_host, "h.example");
    assert_eq!(row.created_at, "2024-01-01T00:00:00.000Z");
    assert_eq!(row.text.as_deref(), Some("こんにちは世界"));
    assert_eq!(row.note_json, "{}");
    assert_eq!(row.cached_at, 42);
}
