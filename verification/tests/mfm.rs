use notedeck::mfm::{char_to_twemoji_url, is_boundary, TWEMOJI_BASE};

#[test]
fn test_twemoji_url() {
    let url = char_to_twemoji_url("😀");
    assert!(url.ends_with("/1f600.svg"));
}

#[test]
fn twemoji_url_is_exact() {
    assert_eq!(char_to_twemoji_url("😀"), format!("{}/1f600.svg", TWEMOJI_BASE));
}

#[test]
fn twemoji_url_drops_selector_without_joiner() {
    assert_eq!(char_to_twemoji_url("\u{2764}\u{FE0F}"), format!("{}/2764.svg", TWEMOJI_BASE));
}

#[test]
fn twemoji_url_keeps_selector_in_joined_sequence() {
    let emoji = "\u{1F3F3}\u{FE0F}\u{200D}\u{1F308}";
    assert_eq!(
        char_to_twemoji_url(emoji),
        format!("{}/1f3f3-fe0f-200d-1f308.svg", TWEMOJI_BASE)
    );
}

#[test]
fn twemoji_url_of_empty_text() {
    assert_eq!(char_to_twemoji_url(""), format!("{}/.svg", TWEMOJI_BASE));
}

#[test]
fn boundary_at_start_after_space_and_parenthesis() {
    assert!(is_boundary("@user", 0));
    assert!(is_boundary("hi @user", 3));
    assert!(is_boundary("(@user", 1));
    assert!(is_boundary("\u{3000}@user", 3));
    assert!(!is_boundary("email@example.com", 5));
}

use notedeck::mfm::{
    checked_slice, find_bytes, parse_mfm, parse_mfm_batch, MfmPatterns, MfmToken, MAX_MFM_LENGTH,
};
use serde_json::Value;

fn text(value: &str) -> MfmToken {
    MfmToken::Text { value: value.to_string() }
}

#[test]
fn test_plain_text() {
    let tokens = parse_mfm("hello world");
    assert_eq!(tokens.len(), 1);
    assert!(matches!(&tokens[0], MfmToken::Text { value } if value == "hello world"));
}

#[test]
fn test_bold() {
    let tokens = parse_mfm("before **bold** after");
    assert_eq!(tokens.len(), 3);
    assert!(matches!(&tokens[1], MfmToken::Bold { value } if value == "bold"));
}

#[test]
fn test_italic() {
    let tokens = parse_mfm("before *italic* after");
    assert_eq!(tokens.len(), 3);
    assert!(matches!(&tokens[1], MfmToken::Italic { value } if value == "italic"));
}

#[test]
fn test_bold_not_italic() {
    let tokens = parse_mfm("**bold**");
    assert_eq!(tokens.len(), 1);
    assert!(matches!(&tokens[0], MfmToken::Bold { .. }));
}

#[test]
fn test_inline_code() {
    let tokens = parse_mfm("say `hello`!");
    assert_eq!(tokens.len(), 3);
    assert!(matches!(&tokens[1], MfmToken::InlineCode { value } if value == "hello"));
}

#[test]
fn test_url() {
    let tokens = parse_mfm("visit https://example.com ok");
    assert_eq!(tokens.len(), 3);
    assert!(matches!(&tokens[1], MfmToken::Url { value } if value == "https://example.com"));
}

#[test]
fn test_link() {
    let tokens = parse_mfm("[label](https://example.com)");
    assert_eq!(tokens.len(), 1);
    assert!(
        matches!(&tokens[0], MfmToken::Link { label, url } if label == "label" && url == "https://example.com")
    );
}

#[test]
fn test_mention() {
    let tokens = parse_mfm("hello @user@host.example");
    assert_eq!(tokens.len(), 2);
    assert!(
        matches!(&tokens[1], MfmToken::Mention { username, host, .. } if username == "user" && host.as_deref() == Some("host.example"))
    );
}

#[test]
fn test_mention_boundary() {
    let tokens = parse_mfm("email@example.com");
    // Should not parse as mention because 'l' is not boundary
    assert_eq!(tokens.len(), 1);
    assert!(matches!(&tokens[0], MfmToken::Text { .. } | MfmToken::Url { .. }));
}

#[test]
fn test_hashtag() {
    let tokens = parse_mfm("post #tag here");
    assert_eq!(tokens.len(), 3);
    assert!(matches!(&tokens[1], MfmToken::Hashtag { value } if value == "tag"));
}

#[test]
fn test_custom_emoji() {
    let tokens = parse_mfm("hello :emoji_name: world");
    assert_eq!(tokens.len(), 3);
    assert!(
        matches!(&tokens[1], MfmToken::CustomEmoji { shortcode } if shortcode == "emoji_name")
    );
}

#[test]
fn test_strike() {
    let tokens = parse_mfm("~~deleted~~");
    assert_eq!(tokens.len(), 1);
    assert!(matches!(&tokens[0], MfmToken::Strike { value } if value == "deleted"));
}

#[test]
fn test_fn_block() {
    let tokens = parse_mfm("$[spin hello]");
    assert_eq!(tokens.len(), 1);
    if let MfmToken::Fn { name, children, .. } = &tokens[0] {
        assert_eq!(name, "spin");
        assert_eq!(children.len(), 1);
    } else {
        panic!("Expected Fn token");
    }
}

fn arg<'a>(args: &'a Vec<(String, Value)>, key: &str) -> Option<&'a Value> {
    args.iter().find(|(k, _)| k == key).map(|(_, v)| v)
}

#[test]
fn test_fn_with_args() {
    let tokens = parse_mfm("$[spin.speed=2s,direction text]");
    assert_eq!(tokens.len(), 1);
    if let MfmToken::Fn { name, args, .. } = &tokens[0] {
        assert_eq!(name, "spin");
        assert_eq!(arg(args, "speed"), Some(&serde_json::Value::String("2s".to_string())));
        assert_eq!(arg(args, "direction"), Some(&serde_json::Value::Bool(true)));
    } else {
        panic!("Expected Fn token");
    }
}

#[test]
fn test_plain_tag() {
    let tokens = parse_mfm("<plain>**not bold**</plain>");
    assert_eq!(tokens.len(), 1);
    assert!(matches!(&tokens[0], MfmToken::Plain { value } if value == "**not bold**"));
}

#[test]
fn test_small_tag() {
    let tokens = parse_mfm("<small>tiny</small>");
    assert_eq!(tokens.len(), 1);
    if let MfmToken::Small { children } = &tokens[0] {
        assert_eq!(children.len(), 1);
        assert!(matches!(&children[0], MfmToken::Text { value } if value == "tiny"));
    } else {
        panic!("Expected Small token");
    }
}

#[test]
fn test_center_tag() {
    let tokens = parse_mfm("<center>middle</center>");
    assert_eq!(tokens.len(), 1);
    if let MfmToken::Center { children } = &tokens[0] {
        assert_eq!(children.len(), 1);
    } else {
        panic!("Expected Center token");
    }
}

#[test]
fn test_max_length() {
    let long = "a".repeat(MAX_MFM_LENGTH + 1);
    let tokens = parse_mfm(&long);
    assert_eq!(tokens.len(), 1);
    assert!(matches!(&tokens[0], MfmToken::Text { .. }));
}

#[test]
fn test_batch() {
    let results = parse_mfm_batch(vec!["hello".to_string(), "**bold**".to_string()]);
    assert_eq!(results.len(), 2);
    assert!(matches!(&results[0][0], MfmToken::Text { .. }));
    assert!(matches!(&results[1][0], MfmToken::Bold { .. }));
}

#[test]
fn empty_and_overlong_texts() {
    assert_eq!(parse_mfm(""), Vec::<MfmToken>::new());
    let longest = format!("{}**b**", "a".repeat(MAX_MFM_LENGTH - 5));
    assert_eq!(parse_mfm(&longest).len(), 2);
    let too_long = format!("{}**b**", "a".repeat(MAX_MFM_LENGTH - 4));
    assert_eq!(parse_mfm(&too_long), vec![text(&too_long)]);
    // the limit is in bytes
    let wide = "あ".repeat(3334);
    assert_eq!(parse_mfm(&wide), vec![text(&wide)]);
    assert_eq!(parse_mfm_batch(vec![]), Vec::<Vec<MfmToken>>::new());
    assert_eq!(parse_mfm_batch(vec![String::new()]), vec![Vec::<MfmToken>::new()]);
}

#[test]
fn pieces_in_order_with_the_text_between_them() {
    assert_eq!(
        parse_mfm("a **b** c ~~d~~ `e` :f: #g (@h) https://i.example j"),
        vec![
            text("a "),
            MfmToken::Bold { value: "b".to_string() },
            text(" c "),
            MfmToken::Strike { value: "d".to_string() },
            text(" "),
            MfmToken::InlineCode { value: "e".to_string() },
            text(" "),
            MfmToken::CustomEmoji { shortcode: "f".to_string() },
            text(" "),
            MfmToken::Hashtag { value: "g".to_string() },
            text(" ("),
            MfmToken::Mention { username: "h".to_string(), host: None, acct: "@h".to_string() },
            text(") "),
            MfmToken::Url { value: "https://i.example".to_string() },
            text(" j"),
        ]
    );
}

#[test]
fn the_earliest_piece_wins_and_the_first_kind_on_a_tie() {
    // a link begins where its address would begin later
    assert_eq!(
        parse_mfm("?[x](https://a.example)"),
        vec![MfmToken::Link { label: "x".to_string(), url: "https://a.example".to_string() }]
    );
    // inline code is looked for before bold
    assert_eq!(parse_mfm("`**a**`"), vec![MfmToken::InlineCode { value: "**a**".to_string() }]);
    // a remote custom emoji is no mention
    assert_eq!(
        parse_mfm(":blob@remote.example:"),
        vec![MfmToken::CustomEmoji { shortcode: "blob@remote.example".to_string() }]
    );
}

#[test]
fn italic_needs_single_asterisks() {
    assert_eq!(parse_mfm("***a***").len(), 2);
    assert_eq!(
        parse_mfm("x *a* **b**"),
        vec![
            text("x "),
            MfmToken::Italic { value: "a".to_string() },
            text(" "),
            MfmToken::Bold { value: "b".to_string() },
        ]
    );
    assert_eq!(parse_mfm("2 * 3 = 6"), vec![text("2 * 3 = 6")]);
}

#[test]
fn mentions_and_hashtags_need_a_boundary() {
    assert_eq!(parse_mfm("a#b"), vec![text("a#b")]);
    assert_eq!(
        parse_mfm("#日本語 と\u{3000}@user"),
        vec![
            MfmToken::Hashtag { value: "日本語".to_string() },
            text(" と\u{3000}"),
            MfmToken::Mention {
                username: "user".to_string(),
                host: None,
                acct: "@user".to_string()
            },
        ]
    );
    // the second candidate counts when the first does not
    assert_eq!(
        parse_mfm("a@b @c@d.example"),
        vec![
            text("a@b "),
            MfmToken::Mention {
                username: "c".to_string(),
                host: Some("d.example".to_string()),
                acct: "@c@d.example".to_string()
            },
        ]
    );
}

#[test]
fn unicode_emoji_with_its_image() {
    let tokens = parse_mfm("ok 😀!");
    assert_eq!(
        tokens,
        vec![
            text("ok "),
            MfmToken::UnicodeEmoji {
                value: "😀".to_string(),
                url: "https://cdn.jsdelivr.net/gh/jdecked/twemoji@v15.1.0/assets/svg/1f600.svg"
                    .to_string(),
            },
            text("!"),
        ]
    );
    // digits and signs are no emoji
    assert_eq!(parse_mfm("1 2 3 * 9"), vec![text("1 2 3 * 9")]);
    let family = "👨\u{200D}👩\u{200D}👧";
    match &parse_mfm(family)[..] {
        [MfmToken::UnicodeEmoji { value, url }] => {
            assert_eq!(value, family);
            assert!(url.ends_with("/1f468-200d-1f469-200d-1f467.svg"));
        }
        other => panic!("{:?}", other),
    }
}

#[test]
fn nested_blocks() {
    let tokens = parse_mfm("a $[x2 $[spin **b**] c] <center>d <small>e</small></center>");
    assert_eq!(
        tokens,
        vec![
            text("a "),
            MfmToken::Fn {
                name: "x2".to_string(),
                args: vec![],
                children: vec![
                    MfmToken::Fn {
                        name: "spin".to_string(),
                        args: vec![],
                        children: vec![MfmToken::Bold { value: "b".to_string() }],
                    },
                    text(" c"),
                ],
            },
            text(" "),
            MfmToken::Center {
                children: vec![
                    text("d "),
                    MfmToken::Small { children: vec![text("e")] },
                ],
            },
        ]
    );
}

#[test]
fn function_arguments() {
    match &parse_mfm("$[fg.color=f00,color=0f0,bold,=x,y= t]")[..] {
        [MfmToken::Fn { name, args, children }] => {
            assert_eq!(name, "fg");
            assert_eq!(
                args,
                &vec![
                    ("color".to_string(), Value::String("0f0".to_string())),
                    ("bold".to_string(), Value::Bool(true)),
                    ("".to_string(), Value::String("x".to_string())),
                    ("y".to_string(), Value::String("".to_string())),
                ]
            );
            assert_eq!(children, &vec![text("t")]);
        }
        other => panic!("{:?}", other),
    }
    // a dot without arguments
    match &parse_mfm("$[spin. x]")[..] {
        [MfmToken::Fn { name, args, .. }] => {
            assert_eq!(name, "spin");
            assert!(args.is_empty());
        }
        other => panic!("{:?}", other),
    }
}

#[test]
fn blocks_that_are_not_closed_are_text() {
    assert_eq!(parse_mfm("$[spin hello"), vec![text("$[spin hello")]);
    assert_eq!(parse_mfm("$[ hello]"), vec![text("$[ hello]")]);
    assert_eq!(parse_mfm("$[spin]"), vec![text("$[spin]")]);
    assert_eq!(parse_mfm("<small>tiny"), vec![text("<small>tiny")]);
    assert_eq!(parse_mfm("$["), vec![text("$[")]);
    assert_eq!(parse_mfm("$"), vec![text("$")]);
    assert_eq!(
        parse_mfm("<plain>a</plain><plain>b"),
        vec![MfmToken::Plain { value: "a".to_string() }, text("<plain>b")]
    );
    // the second opening is taken when the first has no end
    assert_eq!(
        parse_mfm("$[a $[b c]"),
        vec![
            text("$[a "),
            MfmToken::Fn { name: "b".to_string(), args: vec![], children: vec![text("c")] },
        ]
    );
}

#[test]
fn compiled_patterns_can_be_reused() {
    let patterns = MfmPatterns::new().unwrap();
    assert_eq!(patterns.parse("**a**"), parse_mfm("**a**"));
    assert_eq!(patterns.parse_tokens(""), vec![]);
    let long = "a".repeat(MAX_MFM_LENGTH + 1);
    assert_eq!(patterns.parse(&long), vec![text(&long)]);
    assert_eq!(patterns.parse_tokens(&long), vec![text(&long)]);
}

#[test]
fn slices_and_searches_in_bytes() {
    assert_eq!(checked_slice("aあb", 1, 4), Some("あ"));
    assert_eq!(checked_slice("aあb", 0, 5), Some("aあb"));
    assert_eq!(checked_slice("aあb", 2, 4), None);
    assert_eq!(checked_slice("aあb", 1, 3), None);
    assert_eq!(checked_slice("aあb", 4, 1), None);
    assert_eq!(checked_slice("aあb", 0, 6), None);
    assert_eq!(checked_slice("", 0, 0), Some(""));
    assert_eq!(find_bytes(b"a$[b$[", b"$[", 0), Some(1));
    assert_eq!(find_bytes(b"a$[b$[", b"$[", 2), Some(4));
    assert_eq!(find_bytes(b"a$[b$[", b"$[", 5), None);
    assert_eq!(find_bytes(b"abc", b"", 3), Some(3));
    assert_eq!(find_bytes(b"abc", b"", 4), None);
    assert_eq!(find_bytes(b"abc", b"abcd", 0), None);
}
