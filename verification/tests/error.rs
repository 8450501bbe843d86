use notedeck::error::NoteDeckError;
use notedeck::text;
use notedeck::text::{
    byte_len, chars_of, ends_with, index_of, join_strings, push_decimal, push_hex, split_chars,
    starts_with, str_eq, string_from, sub_chars, to_lowercase, trimmed, utf8_len_exceeds,
};

fn all() -> Vec<NoteDeckError> {
    vec![
        NoteDeckError::Database("no such table: accounts".to_string()),
        NoteDeckError::Network("connection refused 10.1.2.3:443".to_string()),
        NoteDeckError::Json("expected value at line 1 column 1".to_string()),
        NoteDeckError::AccountNotFound("acct-1".to_string()),
        NoteDeckError::Api {
            endpoint: "notes/show".to_string(),
            status: 404,
            message: "notes/show: No such note".to_string(),
        },
        NoteDeckError::Auth("Auth session expired".to_string()),
        NoteDeckError::WebSocket("tls handshake eof".to_string()),
        NoteDeckError::NoConnection("acct-1".to_string()),
        NoteDeckError::ConnectionClosed,
        NoteDeckError::InvalidInput("Host too long".to_string()),
        NoteDeckError::Keychain("dbus not running".to_string()),
    ]
}

#[test]
fn codes_of_all_kinds() {
    let codes: Vec<&str> = all().iter().map(|e| e.code()).collect();
    assert_eq!(
        codes,
        vec![
            "DATABASE",
            "NETWORK",
            "JSON",
            "ACCOUNT_NOT_FOUND",
            "API",
            "AUTH",
            "WEBSOCKET",
            "NO_CONNECTION",
            "CONNECTION_CLOSED",
            "INVALID_INPUT",
            "KEYCHAIN",
        ]
    );
}

#[test]
fn safe_messages_of_all_kinds() {
    let messages: Vec<String> = all().iter().map(|e| e.safe_message()).collect();
    assert_eq!(
        messages,
        vec![
            "Database operation failed",
            "Network request failed",
            "Invalid response format",
            "Account not found: acct-1",
            "notes/show: No such note",
            "Auth session expired",
            "Connection error",
            "No connection for account: acct-1",
            "Connection closed",
            "Invalid input: Host too long",
            "Credential storage error",
        ]
    );
}

#[test]
fn safe_message_never_holds_internal_detail() {
    for detail in ["SELECT token FROM accounts", "tok_SECRET", ""] {
        for e in [
            NoteDeckError::Database(detail.to_string()),
            NoteDeckError::Network(detail.to_string()),
            NoteDeckError::Json(detail.to_string()),
            NoteDeckError::WebSocket(detail.to_string()),
            NoteDeckError::Keychain(detail.to_string()),
        ] {
            assert!(detail.is_empty() || !e.safe_message().contains(detail));
            assert_eq!(
                e.safe_message(),
                match e {
                    NoteDeckError::Database(_) => "Database operation failed",
                    NoteDeckError::Network(_) => "Network request failed",
                    NoteDeckError::Json(_) => "Invalid response format",
                    NoteDeckError::WebSocket(_) => "Connection error",
                    _ => "Credential storage error",
                }
            );
        }
    }
}

#[test]
fn log_lines_of_all_kinds() {
    let lines: Vec<Option<String>> = all().iter().map(|e| e.log_line()).collect();
    assert_eq!(
        lines,
        vec![
            Some("[error] Database: no such table: accounts".to_string()),
            Some("[error] Network: connection refused 10.1.2.3:443".to_string()),
            Some("[error] JSON: expected value at line 1 column 1".to_string()),
            None,
            None,
            None,
            Some("[error] WebSocket: tls handshake eof".to_string()),
            None,
            None,
            None,
            Some("[error] Keychain: dbus not running".to_string()),
        ]
    );
}

#[test]
fn descriptions_of_all_kinds() {
    let texts: Vec<String> = all().iter().map(|e| e.description()).collect();
    assert_eq!(
        texts,
        vec![
            "Database error",
            "Network error",
            "JSON parse error",
            "Account not found: acct-1",
            "notes/show: No such note",
            "Auth session expired",
            "WebSocket: tls handshake eof",
            "No connection for account: acct-1",
            "Connection closed",
            "Invalid input: Host too long",
            "Keychain error: dbus not running",
        ]
    );
}

#[test]
fn characters_and_strings_round_trip() {
    for s in ["", "abc", "こんにちは世界", "a😀b"] {
        assert_eq!(chars_of(s), s.chars().collect::<Vec<char>>());
        assert_eq!(string_from(&chars_of(s)), s);
        assert_eq!(byte_len(s), s.len());
    }
}

#[test]
fn numbers_in_decimal_and_hexadecimal() {
    for n in [0u64, 7, 9, 10, 15, 16, 255, 256, 404, 65535, 0x1f600, u64::MAX] {
        let mut decimal = String::from("n=");
        push_decimal(&mut decimal, n);
        assert_eq!(decimal, format!("n={}", n));
        let mut hex = String::from("0x");
        push_hex(&mut hex, n);
        assert_eq!(hex, format!("0x{:x}", n));
    }
}

#[test]
fn concatenation() {
    assert_eq!(text::concat("ab", "cd"), "abcd");
    assert_eq!(text::concat("", ""), "");
    assert_eq!(text::concat3("a", "ü", "c"), "aüc");
}

#[test]
fn joining() {
    let parts = |v: &[&str]| v.iter().map(|s| s.to_string()).collect::<Vec<String>>();
    assert_eq!(join_strings(&parts(&[]), ","), "");
    assert_eq!(join_strings(&parts(&["a"]), ","), "a");
    assert_eq!(join_strings(&parts(&["a", "b", "c"]), ","), "a,b,c");
    assert_eq!(join_strings(&parts(&["", ""]), "--"), "--");
}

#[test]
fn splitting() {
    for s in ["", "a", "a,b", ",a,", ",,", "note, stream ,x"] {
        let pieces: Vec<String> =
            split_chars(&chars_of(s), ',').iter().map(|p| string_from(p)).collect();
        let expected: Vec<String> = s.split(',').map(|p| p.to_string()).collect();
        assert_eq!(pieces, expected, "{:?}", s);
    }
}

#[test]
fn trimming_follows_unicode_white_space() {
    for s in ["", "  a b  ", "\u{85}x\u{2003}", "\u{200b}x", "\u{1680}\u{2028}\u{2029}\u{202f}\u{205f}y", "\u{feff}z"] {
        assert_eq!(string_from(&trimmed(&chars_of(s))), s.trim(), "{:?}", s);
    }
    for c in 0u32..0x3100 {
        if let Some(ch) = char::from_u32(c) {
            let s = format!("{}a{}", ch, ch);
            assert_eq!(string_from(&trimmed(&chars_of(&s))), s.trim(), "U+{:04X}", c);
        }
    }
}

#[test]
fn lowercasing_touches_ascii_only() {
    for s in ["ABCxyz019", "ÄÖÜ", "İ", "MiXeD.Example"] {
        assert_eq!(string_from(&to_lowercase(&chars_of(s))), s.to_ascii_lowercase());
    }
}

#[test]
fn prefixes_suffixes_and_search() {
    let v = chars_of("https://img/x.png");
    assert!(starts_with(&v, "https://"));
    assert!(starts_with(&v, ""));
    assert!(!starts_with(&v, "http://"));
    assert!(!starts_with(&chars_of("ht"), "https://"));
    assert!(ends_with(&v, ".png"));
    assert!(!ends_with(&v, ".jpg"));
    assert!(!ends_with(&chars_of("g"), ".png"));
    assert!(str_eq("a", "a"));
    assert!(!str_eq("a", "b"));
    assert!(!str_eq("a", "ab"));
    assert_eq!(index_of(&v, '/', 0), 6);
    assert_eq!(index_of(&v, '/', 8), 11);
    assert_eq!(index_of(&v, '#', 0), v.len());
    assert_eq!(string_from(&sub_chars(&v, 8, 11)), "img");
}

#[test]
fn byte_length_limits() {
    assert!(!utf8_len_exceeds(&chars_of("abc"), 3));
    assert!(utf8_len_exceeds(&chars_of("abc"), 2));
    assert!(utf8_len_exceeds(&chars_of("é"), 1));
    assert!(!utf8_len_exceeds(&chars_of("é"), 2));
    assert!(utf8_len_exceeds(&chars_of("😀"), 3));
    assert!(!utf8_len_exceeds(&chars_of("世"), 3));
    assert!(!utf8_len_exceeds(&chars_of(""), 0));
}
