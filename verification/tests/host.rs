use notedeck::error::NoteDeckError;
use notedeck::host::{parse_octet, validate_host};

fn rejected(host: &str) -> String {
    match validate_host(host) {
        Err(NoteDeckError::InvalidInput(message)) => message,
        other => panic!("{:?} was not refused as invalid input: {:?}", host, other),
    }
}

const PRIVATE: &str = "Loopback and private addresses are not allowed";
const RESERVED: &str = "Reserved domain names are not allowed";

#[test]
fn ssrf_scenario_hosts_are_refused() {
    assert_eq!(rejected("127.0.0.1"), PRIVATE);
    assert_eq!(rejected("10.0.0.5"), PRIVATE);
    assert_eq!(rejected("172.20.0.1"), PRIVATE);
    assert_eq!(rejected("server.local"), RESERVED);
    assert_eq!(rejected("[fe80::1]"), PRIVATE);
    assert_eq!(rejected("LocalHost"), PRIVATE);
}

#[test]
fn ssrf_scenario_public_host_is_accepted() {
    assert_eq!(validate_host("misskey.example.com"), Ok("misskey.example.com".to_string()));
}

#[test]
fn rejected_hosts_carry_the_invalid_input_code() {
    let e = validate_host("127.0.0.1").unwrap_err();
    assert_eq!(e.code(), "INVALID_INPUT");
    assert_eq!(e.safe_message(), format!("Invalid input: {}", PRIVATE));
}

#[test]
fn host_is_trimmed_and_lowercased() {
    assert_eq!(validate_host("  Misskey.IO \n"), Ok("misskey.io".to_string()));
    assert_eq!(validate_host("\u{3000}example.com\u{00a0}"), Ok("example.com".to_string()));
    assert_eq!(validate_host("\tEXAMPLE.com"), Ok("example.com".to_string()));
}

#[test]
fn only_ascii_letters_are_lowercased() {
    assert_eq!(validate_host("ÄB.example"), Ok("Äb.example".to_string()));
}

#[test]
fn empty_host_is_refused() {
    assert_eq!(rejected(""), "Host cannot be empty");
    assert_eq!(rejected("   "), "Host cannot be empty");
    assert_eq!(rejected("\n\t"), "Host cannot be empty");
}

#[test]
fn host_length_is_counted_in_bytes() {
    let longest = "a".repeat(253);
    assert_eq!(validate_host(&longest), Ok(longest.clone()));
    assert_eq!(rejected(&"a".repeat(254)), "Host too long");
    // 127 two-byte characters are 254 bytes
    assert_eq!(rejected(&"é".repeat(127)), "Host too long");
    let fits = format!("{}a", "é".repeat(126));
    assert_eq!(validate_host(&fits), Ok(fits.clone()));
}

#[test]
fn surrounding_whitespace_does_not_count_for_the_length() {
    let padded = format!("   {}   ", "a".repeat(253));
    assert_eq!(validate_host(&padded), Ok("a".repeat(253)));
}

#[test]
fn forbidden_characters_are_refused_with_the_normalized_host() {
    assert_eq!(rejected("Example.com/path"), "Invalid host: example.com/path");
    assert_eq!(rejected("example.com?x"), "Invalid host: example.com?x");
    assert_eq!(rejected("example.com#x"), "Invalid host: example.com#x");
    assert_eq!(rejected("user@example.com"), "Invalid host: user@example.com");
    assert_eq!(rejected("exa mple.com"), "Invalid host: exa mple.com");
    assert_eq!(rejected("exa\nmple.com"), "Invalid host: exa\nmple.com");
    assert_eq!(rejected("exa\rmple.com"), "Invalid host: exa\rmple.com");
}

#[test]
fn forbidden_character_is_found_before_the_denylist() {
    assert_eq!(rejected("localhost/x"), "Invalid host: localhost/x");
}

#[test]
fn length_is_checked_before_forbidden_characters() {
    assert_eq!(rejected(&format!("{}/", "a".repeat(254))), "Host too long");
}

#[test]
fn every_blocked_prefix_is_refused() {
    for host in [
        "localhost",
        "localhost.example.com",
        "127.1",
        "0.0.0.0",
        "[::1]",
        "::1",
        "10.1.2.3",
        "192.168.0.1",
        "169.254.169.254",
        "[fc00::1]",
        "[fd12:3456::1]",
        "[fe80::1%eth0]",
        "[::ffff:127.0.0.1]",
    ] {
        assert_eq!(rejected(host), PRIVATE, "{}", host);
    }
}

#[test]
fn near_misses_of_blocked_prefixes_are_accepted() {
    for host in ["local.example.com", "127a.example", "100.1.2.3", "192.169.0.1", "[fe81::1]"] {
        assert_eq!(validate_host(host), Ok(host.to_string()), "{}", host);
    }
}

#[test]
fn private_range_172_is_told_by_its_second_octet() {
    assert_eq!(validate_host("172.15.0.1"), Ok("172.15.0.1".to_string()));
    assert_eq!(rejected("172.16.0.1"), PRIVATE);
    assert_eq!(rejected("172.31.255.255"), PRIVATE);
    assert_eq!(validate_host("172.32.0.1"), Ok("172.32.0.1".to_string()));
    assert_eq!(validate_host("172.example.com"), Ok("172.example.com".to_string()));
    assert_eq!(validate_host("172."), Ok("172.".to_string()));
}

#[test]
fn second_octet_is_read_as_a_number() {
    assert_eq!(rejected("172.016.0.1"), PRIVATE);
    assert_eq!(rejected("172.+16.0.1"), PRIVATE);
    assert_eq!(rejected("172.20"), PRIVATE);
    assert_eq!(validate_host("172.160.0.1"), Ok("172.160.0.1".to_string()));
    assert_eq!(validate_host("172.256.0.1"), Ok("172.256.0.1".to_string()));
    assert_eq!(validate_host("172.-16.0.1"), Ok("172.-16.0.1".to_string()));
    assert_eq!(validate_host("172.1x.0.1"), Ok("172.1x.0.1".to_string()));
}

#[test]
fn reserved_suffixes_are_refused() {
    assert_eq!(rejected("printer.local"), RESERVED);
    assert_eq!(rejected("db.internal"), RESERVED);
    assert_eq!(rejected("app.localhost"), RESERVED);
    assert_eq!(rejected("APP.LOCAL"), RESERVED);
    assert_eq!(validate_host("local"), Ok("local".to_string()));
    assert_eq!(validate_host("example.locals"), Ok("example.locals".to_string()));
}

#[test]
fn public_domains_are_their_own_normal_form() {
    for host in ["a", "misskey.io", "xn--bcher-kva.example", "1.1.1.1", "a-b.c-d.example"] {
        assert_eq!(validate_host(host), Ok(host.to_string()), "{}", host);
    }
}

#[test]
fn octets_are_parsed_like_unsigned_bytes() {
    let digits = |s: &str| s.chars().collect::<Vec<char>>();
    assert_eq!(parse_octet(&digits("0")), Some(0));
    assert_eq!(parse_octet(&digits("16")), Some(16));
    assert_eq!(parse_octet(&digits("255")), Some(255));
    assert_eq!(parse_octet(&digits("256")), None);
    assert_eq!(parse_octet(&digits("0000255")), Some(255));
    assert_eq!(parse_octet(&digits("+7")), Some(7));
    assert_eq!(parse_octet(&digits("+")), None);
    assert_eq!(parse_octet(&digits("")), None);
    assert_eq!(parse_octet(&digits("-1")), None);
    assert_eq!(parse_octet(&digits("1 ")), None);
    assert_eq!(parse_octet(&digits("99999999999999999999999")), None);
    for n in 0u32..=300 {
        let text = n.to_string();
        assert_eq!(parse_octet(&digits(&text)), text.parse::<u8>().ok(), "{}", n);
    }
}
