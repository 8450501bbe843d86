use notedeck::error::NoteDeckError;
use notedeck::models::{
    note_mode_key, normalize_notes, public_accounts, scrub, Account, AccountPublic,
    AvatarDecoration, NormalizedDriveFile, NormalizedNoteReaction, NormalizedPoll,
    NormalizedPollChoice, NormalizedUser, RawDriveFile, RawNote, RawNoteReaction,
    RawNotification, RawPoll, RawPollChoice, RawUser, RawUserDetail,
};
use notedeck::timeline::{
    bounded_limit, cached_timeline_limit, default_limit, local_search_limit, SearchOptions,
    TimelineOptions, TimelineType,
};
use serde_json::Value;

fn user(id: &str) -> RawUser {
    RawUser {
        id: id.to_string(),
        username: format!("user-{}", id),
        host: None,
        name: Some("Name".to_string()),
        avatar_url: None,
        is_bot: false,
        avatar_decorations: vec![AvatarDecoration {
            id: "d".to_string(),
            url: "https://h.example/d.png".to_string(),
            angle: Some(0.5f64.to_bits()),
            flip_h: Some(true),
            offset_x: None,
            offset_y: None,
        }],
    }
}

fn note(id: &str) -> RawNote {
    RawNote {
        id: id.to_string(),
        created_at: "2024-01-01T00:00:00.000Z".to_string(),
        text: Some(format!("text of {}", id)),
        cw: None,
        user: user("u1"),
        visibility: "public".to_string(),
        emojis: vec![("blob".to_string(), "https://h.example/blob.png".to_string())],
        reaction_emojis: vec![],
        reactions: vec![("👍".to_string(), 3)],
        my_reaction: None,
        renote_count: 1,
        replies_count: 2,
        files: vec![],
        poll: None,
        reply_id: None,
        renote_id: None,
        channel_id: None,
        reaction_acceptance: None,
        uri: None,
        url: None,
        updated_at: None,
        local_only: false,
        is_favorited: true,
        reply: None,
        renote: None,
        extra: vec![],
    }
}

#[test]
fn normalized_note_carries_account_and_host() {
    let n = note("n1").normalize("A", "h.example");
    assert_eq!(n.id, "n1");
    assert_eq!(n.account_id, "A");
    assert_eq!(n.server_host, "h.example");
    assert_eq!(n.created_at, "2024-01-01T00:00:00.000Z");
    assert_eq!(n.text.as_deref(), Some("text of n1"));
    assert_eq!(n.visibility, "public");
    assert_eq!(n.emojis, vec![("blob".to_string(), "https://h.example/blob.png".to_string())]);
    assert_eq!(n.reactions, vec![("👍".to_string(), 3)]);
    assert_eq!(n.renote_count, 1);
    assert_eq!(n.replies_count, 2);
    assert!(n.is_favorited);
    assert!(!n.local_only);
    assert_eq!(n.user, NormalizedUser::from(user("u1")));
    assert!(n.reply.is_none() && n.renote.is_none() && n.poll.is_none());
    assert!(n.mode_flags.is_empty());
}

#[test]
fn embedded_notes_carry_the_same_account_and_host() {
    let mut inner = note("n3");
    inner.renote = Some(Box::new(note("n4")));
    let mut outer = note("n1");
    outer.reply = Some(Box::new(note("n2")));
    outer.renote = Some(Box::new(inner));
    let n = outer.normalize("A", "h.example");
    let reply = n.reply.as_ref().unwrap();
    let renote = n.renote.as_ref().unwrap();
    let deepest = renote.renote.as_ref().unwrap();
    for (x, id) in [(reply, "n2"), (renote, "n3"), (deepest, "n4")] {
        assert_eq!(x.id, id);
        assert_eq!(x.account_id, "A");
        assert_eq!(x.server_host, "h.example");
    }
    assert!(reply.reply.is_none() && deepest.renote.is_none());
}

#[test]
fn mode_flags_are_picked_from_the_extra_members() {
    let mut raw = note("n1");
    raw.extra = vec![
        ("isNoteInYamiMode".to_string(), Value::Bool(true)),
        ("isNoteInHanaMode".to_string(), Value::Bool(false)),
        ("isNoteInOddMode".to_string(), Value::String("yes".to_string())),
        ("isInYamiMode".to_string(), Value::Bool(true)),
        ("isNoteInYami".to_string(), Value::Bool(true)),
        ("Mode".to_string(), Value::Bool(true)),
        ("isNoteInMode".to_string(), Value::Bool(true)),
        ("tags".to_string(), Value::Array(vec![])),
    ];
    let n = raw.normalize("A", "h.example");
    assert_eq!(
        n.mode_flags,
        vec![
            ("isNoteInYamiMode".to_string(), true),
            ("isNoteInHanaMode".to_string(), false),
            ("isNoteInMode".to_string(), true),
        ]
    );
}

#[test]
fn keys_of_note_mode_flags() {
    assert!(note_mode_key("isNoteInYamiMode"));
    assert!(note_mode_key("isNoteInMode"));
    assert!(!note_mode_key("isNoteInMod"));
    assert!(!note_mode_key("isInYamiMode"));
    assert!(!note_mode_key("IsNoteInYamiMode"));
    assert!(!note_mode_key(""));
}

#[test]
fn files_and_poll_are_normalized_in_order() {
    let file = |id: &str| RawDriveFile {
        id: id.to_string(),
        name: format!("{}.png", id),
        file_type: "image/png".to_string(),
        url: format!("https://h.example/{}.png", id),
        thumbnail_url: None,
        size: 12,
        is_sensitive: id == "f2",
    };
    let mut raw = note("n1");
    raw.files = vec![file("f1"), file("f2"), file("f3")];
    raw.poll = Some(RawPoll {
        choices: vec![
            RawPollChoice { text: "yes".to_string(), votes: 2, is_voted: true },
            RawPollChoice { text: "no".to_string(), votes: 5, is_voted: false },
        ],
        multiple: true,
        expires_at: Some("2024-02-01T00:00:00.000Z".to_string()),
    });
    let n = raw.normalize("A", "h.example");
    assert_eq!(
        n.files,
        vec![
            NormalizedDriveFile::from(file("f1")),
            NormalizedDriveFile::from(file("f2")),
            NormalizedDriveFile::from(file("f3")),
        ]
    );
    assert_eq!(n.files[1].id, "f2");
    assert!(n.files[1].is_sensitive);
    assert_eq!(n.files[0].file_type, "image/png");
    assert_eq!(
        n.poll,
        Some(NormalizedPoll {
            choices: vec![
                NormalizedPollChoice { text: "yes".to_string(), votes: 2, is_voted: true },
                NormalizedPollChoice { text: "no".to_string(), votes: 5, is_voted: false },
            ],
            multiple: true,
            expires_at: Some("2024-02-01T00:00:00.000Z".to_string()),
        })
    );
}

#[test]
fn lists_of_notes_are_normalized_in_order() {
    let notes = normalize_notes(vec![note("a"), note("b"), note("c")], "A", "h.example");
    let ids: Vec<&str> = notes.iter().map(|n| n.id.as_str()).collect();
    assert_eq!(ids, vec!["a", "b", "c"]);
    assert!(notes.iter().all(|n| n.account_id == "A" && n.server_host == "h.example"));
    assert!(normalize_notes(vec![], "A", "h.example").is_empty());
}

#[test]
fn notification_is_normalized_with_its_note() {
    let raw = RawNotification {
        id: "x".to_string(),
        created_at: "2024-01-01T00:00:00.000Z".to_string(),
        notification_type: "reaction".to_string(),
        user: Some(user("u2")),
        note: Some(note("n1")),
        reaction: Some("👍".to_string()),
    };
    let n = raw.normalize("A", "h.example");
    assert_eq!(n.id, "x");
    assert_eq!(n.account_id, "A");
    assert_eq!(n.server_host, "h.example");
    assert_eq!(n.notification_type, "reaction");
    assert_eq!(n.user, Some(NormalizedUser::from(user("u2"))));
    assert_eq!(n.reaction.as_deref(), Some("👍"));
    let inner = n.note.unwrap();
    assert_eq!((inner.id.as_str(), inner.account_id.as_str(), inner.server_host.as_str()), ("n1", "A", "h.example"));
    let bare = RawNotification {
        id: "y".to_string(),
        created_at: String::new(),
        notification_type: "follow".to_string(),
        user: None,
        note: None,
        reaction: None,
    }
    .normalize("A", "h.example");
    assert!(bare.user.is_none() && bare.note.is_none() && bare.reaction.is_none());
}

#[test]
fn user_detail_and_reaction_are_taken_over() {
    let d = RawUserDetail {
        id: "u".to_string(),
        username: "name".to_string(),
        host: Some("remote.example".to_string()),
        name: None,
        avatar_url: Some("a".to_string()),
        banner_url: Some("b".to_string()),
        description: Some("d".to_string()),
        followers_count: 1,
        following_count: 2,
        notes_count: 3,
        is_bot: true,
        is_cat: false,
        is_following: true,
        is_followed: false,
        created_at: "2020".to_string(),
        avatar_decorations: vec![],
    }
    .normalize();
    assert_eq!(d.id, "u");
    assert_eq!(d.host.as_deref(), Some("remote.example"));
    assert_eq!((d.followers_count, d.following_count, d.notes_count), (1, 2, 3));
    assert_eq!((d.is_bot, d.is_cat, d.is_following, d.is_followed), (true, false, true, false));
    assert_eq!(d.banner_url.as_deref(), Some("b"));
    assert_eq!(d.created_at, "2020");

    let r = NormalizedNoteReaction::from(RawNoteReaction {
        id: "r".to_string(),
        created_at: "2021".to_string(),
        user: user("u9"),
        reaction_type: ":blob:".to_string(),
    });
    assert_eq!(r.id, "r");
    assert_eq!(r.reaction_type, ":blob:");
    assert_eq!(r.user, NormalizedUser::from(user("u9")));
    assert_eq!(r.user.avatar_decorations[0].angle, Some(0.5f64.to_bits()));
}

fn account(id: &str, token: &str) -> Account {
    Account {
        id: id.to_string(),
        host: "h.example".to_string(),
        token: token.to_string(),
        user_id: "u1".to_string(),
        username: "alice".to_string(),
        display_name: Some("Alice".to_string()),
        avatar_url: None,
        software: "misskey".to_string(),
    }
}

#[test]
fn public_account_has_everything_but_the_token() {
    let a = account("A", "tok_SECRET-REDACTED");
    let p = AccountPublic::from(&a);
    assert_eq!(
        p,
        AccountPublic {
            id: "A".to_string(),
            host: "h.example".to_string(),
            user_id: "u1".to_string(),
            username: "alice".to_string(),
            display_name: Some("Alice".to_string()),
            avatar_url: None,
            software: "misskey".to_string(),
        }
    );
    assert!(!format!("{:?}", p).contains("tok_SECRET-REDACTED"));
    assert!(!format!("{:?}", p).contains("token"));
    let list = public_accounts(&vec![account("A", "t1"), account("B", "t2")]);
    assert_eq!(list.iter().map(|p| p.id.as_str()).collect::<Vec<_>>(), vec!["A", "B"]);
}

#[test]
fn secrets_are_scrubbed() {
    let mut a = account("A", "tok1");
    a.scrub_token();
    assert_eq!(a.token, "");
    assert_eq!(a, account("A", ""));
    let mut s = "secret".to_string();
    scrub(&mut s);
    assert!(s.is_empty());
}

#[test]
fn timeline_names_map_to_endpoints_and_channels() {
    let t = |name: &str| TimelineType::new(name.to_string());
    assert_eq!(t("home").as_str(), "home");
    assert_eq!(t("home").api_endpoint(), Ok("notes/timeline".to_string()));
    assert_eq!(t("local").api_endpoint(), Ok("notes/local-timeline".to_string()));
    assert_eq!(t("social").api_endpoint(), Ok("notes/hybrid-timeline".to_string()));
    assert_eq!(t("global").api_endpoint(), Ok("notes/global-timeline".to_string()));
    assert_eq!(t("home").ws_channel(), Ok("homeTimeline".to_string()));
    assert_eq!(t("local").ws_channel(), Ok("localTimeline".to_string()));
    assert_eq!(t("social").ws_channel(), Ok("hybridTimeline".to_string()));
    assert_eq!(t("global").ws_channel(), Ok("globalTimeline".to_string()));
    for bad in ["", "Home", "home ", "list"] {
        let e = NoteDeckError::InvalidInput(format!("Unknown timeline type: {}", bad));
        assert_eq!(t(bad).api_endpoint(), Err(e.clone()));
        assert_eq!(t(bad).ws_channel(), Err(e));
    }
}

#[test]
fn limits_are_clamped() {
    for (given, used) in [(i64::MIN, 1), (-5, 1), (0, 1), (1, 1), (20, 20), (100, 100), (101, 100), (i64::MAX, 100)] {
        assert_eq!(TimelineOptions::new(given, None, None).limit(), used);
        assert_eq!(SearchOptions::new(given, None, None).limit(), used);
    }
    assert_eq!(TimelineOptions::default().limit(), 20);
    assert_eq!(SearchOptions::default().limit(), 20);
    assert_eq!(default_limit(), 20);
    let d = TimelineOptions::default();
    assert!(d.since_id.is_none() && d.until_id.is_none() && d.filters.is_none());
    assert_eq!(cached_timeline_limit(None), 40);
    assert_eq!(cached_timeline_limit(Some(0)), 1);
    assert_eq!(cached_timeline_limit(Some(200)), 200);
    assert_eq!(cached_timeline_limit(Some(201)), 200);
    assert_eq!(local_search_limit(None), 30);
    assert_eq!(local_search_limit(Some(-1)), 1);
    assert_eq!(local_search_limit(Some(1000)), 200);
    assert_eq!(bounded_limit(None, 11), 11);
    assert_eq!(bounded_limit(None, 30), 30);
    assert_eq!(bounded_limit(Some(0), 11), 1);
    assert_eq!(bounded_limit(Some(55), 11), 55);
    assert_eq!(bounded_limit(Some(u32::MAX), 30), 100);
}
