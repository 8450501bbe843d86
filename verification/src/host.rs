//! Host names as callers give them: normalization, and the refusal of
//! addresses that lead back into the local machine or a private network.

use crate::error::{ErrorView, NoteDeckError};
use crate::text::{
    chars_of, concat, ends_with, first_index_of, index_of, lowercase, starts_with, string_from,
    sub_chars, to_lowercase, trim, trim_end, trim_start, trimmed, utf8_len, utf8_len_exceeds,
};
use vstd::prelude::*;

verus! {

/// The longest host name, in bytes.
pub const MAX_HOST_BYTES: usize = 253;

/// The host as it is compared and stored: without surrounding whitespace, in
/// small letters.
pub open spec fn normalize_host(input: Seq<char>) -> Seq<char> {
    lowercase(trim(input))
}

/// Characters that no host name holds.
pub open spec fn is_forbidden_char(c: char) -> bool {
    c == '/' || c == '?' || c == '#' || c == '@' || c == ' ' || c == '\n' || c == '\r'
}

/// Whether a host name holds a character that no host name may hold.
pub open spec fn has_forbidden_char(h: Seq<char>) -> bool {
    exists|i: int| 0 <= i < h.len() && is_forbidden_char(#[trigger] h[i])
}

/// Whether the host begins like a loopback, private or link-local address.
pub open spec fn has_blocked_prefix(h: Seq<char>) -> bool {
    ||| "localhost"@.is_prefix_of(h)
    ||| "127."@.is_prefix_of(h)
    ||| "0.0.0.0"@.is_prefix_of(h)
    ||| "[::1]"@.is_prefix_of(h)
    ||| "::1"@.is_prefix_of(h)
    ||| "10."@.is_prefix_of(h)
    ||| "192.168."@.is_prefix_of(h)
    ||| "169.254."@.is_prefix_of(h)
    ||| "[fc"@.is_prefix_of(h)
    ||| "[fd"@.is_prefix_of(h)
    ||| "[fe80:"@.is_prefix_of(h)
    ||| "[::ffff:"@.is_prefix_of(h)
}

/// Whether `c` is a decimal digit.
pub open spec fn is_digit(c: char) -> bool {
    '0' <= c <= '9'
}

/// Whether `s` is made of decimal digits alone.
pub open spec fn all_digits(s: Seq<char>) -> bool {
    forall|i: int| 0 <= i < s.len() ==> is_digit(#[trigger] s[i])
}

/// The number that a run of decimal digits denotes.
pub open spec fn digits_value(s: Seq<char>) -> nat
    decreases s.len(),
{
    if s.len() == 0 {
        0
    } else {
        digits_value(s.drop_last()) * 10 + (s.last() as u32 - 48) as nat
    }
}

/// The number that `s` denotes as an octet: decimal digits, at least one,
/// after an optional plus sign, with a value of at most 255.
pub open spec fn octet_value(s: Seq<char>) -> Option<nat> {
    let d = if s.len() > 0 && s[0] == '+' {
        s.drop_first()
    } else {
        s
    };
    if d.len() > 0 && all_digits(d) && digits_value(d) <= 255 {
        Some(digits_value(d))
    } else {
        None
    }
}

/// What stands between the first and the second dot of `h`.
pub open spec fn second_octet(h: Seq<char>) -> Seq<char> {
    let rest = h.skip(4);
    rest.take(first_index_of(rest, '.'))
}

/// Whether the host is an address in 172.16.0.0/12.
pub open spec fn in_private_172(h: Seq<char>) -> bool {
    "172."@.is_prefix_of(h) && match octet_value(second_octet(h)) {
        Some(n) => 16 <= n <= 31,
        None => false,
    }
}

/// Whether the host lies under a top-level name that is reserved for local
/// use.
pub open spec fn has_reserved_suffix(h: Seq<char>) -> bool {
    ||| ".local"@.is_suffix_of(h)
    ||| ".internal"@.is_suffix_of(h)
    ||| ".localhost"@.is_suffix_of(h)
}

/// What is found of a normalized host.
pub ghost enum HostVerdict {
    Accepted,
    Empty,
    TooLong,
    ForbiddenChar,
    PrivateAddress,
    ReservedDomain,
}

/// The verdict on a normalized host: the first of the checks that it fails.
pub open spec fn host_verdict(h: Seq<char>) -> HostVerdict {
    if h.len() == 0 {
        HostVerdict::Empty
    } else if utf8_len(h) > 253 {
        HostVerdict::TooLong
    } else if has_forbidden_char(h) {
        HostVerdict::ForbiddenChar
    } else if has_blocked_prefix(h) || in_private_172(h) {
        HostVerdict::PrivateAddress
    } else if has_reserved_suffix(h) {
        HostVerdict::ReservedDomain
    } else {
        HostVerdict::Accepted
    }
}

/// The fault with which a normalized host is refused.
pub open spec fn host_rejection(h: Seq<char>) -> ErrorView {
    ErrorView::InvalidInput(
        match host_verdict(h) {
            HostVerdict::Empty => "Host cannot be empty"@,
            HostVerdict::TooLong => "Host too long"@,
            HostVerdict::ForbiddenChar => "Invalid host: "@ + h,
            HostVerdict::PrivateAddress => "Loopback and private addresses are not allowed"@,
            HostVerdict::ReservedDomain => "Reserved domain names are not allowed"@,
            HostVerdict::Accepted => Seq::empty(),
        },
    )
}

fn forbidden_char_in(h: &Vec<char>) -> (r: bool)
    ensures
        r == has_forbidden_char(h@),
{
    let mut i: usize = 0;
    while i < h.len()
        invariant
            i <= h.len(),
            forall|k: int| 0 <= k < i ==> !is_forbidden_char(#[trigger] h@[k]),
        decreases h.len() - i,
    {
        let c = h[i];
        if c == '/' || c == '?' || c == '#' || c == '@' || c == ' ' || c == '\n' || c == '\r' {
            return true;
        }
        i += 1;
    }
    false
}

fn blocked_prefix_in(h: &Vec<char>) -> (r: bool)
    ensures
        r == has_blocked_prefix(h@),
{
    starts_with(h, "localhost") || starts_with(h, "127.") || starts_with(h, "0.0.0.0")
        || starts_with(h, "[::1]") || starts_with(h, "::1") || starts_with(h, "10.")
        || starts_with(h, "192.168.") || starts_with(h, "169.254.") || starts_with(h, "[fc")
        || starts_with(h, "[fd") || starts_with(h, "[fe80:") || starts_with(h, "[::ffff:")
}

proof fn lemma_digits_value_push(s: Seq<char>, c: char)
    ensures
        digits_value(s.push(c)) == digits_value(s) * 10 + (c as u32 - 48) as nat,
{
    assert(s.push(c).drop_last() == s);
}

proof fn lemma_digits_value_grows(s: Seq<char>, k: int)
    requires
        0 <= k <= s.len(),
        all_digits(s),
    ensures
        digits_value(s.take(k)) <= digits_value(s),
    decreases s.len() - k,
{
    if k < s.len() {
        lemma_digits_value_grows(s, k + 1);
        lemma_digits_value_push(s.take(k), s[k]);
        assert(s.take(k + 1) == s.take(k).push(s[k]));
        assert(is_digit(s[k]));
    } else {
        assert(s.take(k) == s);
    }
}

/// The value of `s` as an octet, if it denotes one.
pub fn parse_octet(s: &Vec<char>) -> (r: Option<u8>)
    ensures
        match r {
            Some(n) => octet_value(s@) == Some(n as nat),
            None => octet_value(s@) is None,
        },
{
    let start: usize = if s.len() > 0 && s[0] == '+' {
        1
    } else {
        0
    };
    let ghost d = s@.skip(start as int);
    proof {
        if start == 1 {
            assert(s@.drop_first() == d);
        } else {
            assert(s@ == d);
        }
    }
    if start == s.len() {
        return None;
    }
    let mut acc: u32 = 0;
    let mut i: usize = start;
    while i < s.len()
        invariant
            start <= i <= s.len(),
            d == s@.skip(start as int),
            d == if s@.len() > 0 && s@[0] == '+' {
                s@.drop_first()
            } else {
                s@
            },
            all_digits(d.take(i - start)),
            acc == digits_value(d.take(i - start)),
            acc <= 255,
        decreases s.len() - i,
    {
        let c = s[i];
        proof {
            assert(d[i - start] == c);
            assert(d.take(i - start + 1) == d.take(i - start).push(c));
            lemma_digits_value_push(d.take(i - start), c);
        }
        if !('0' <= c && c <= '9') {
            proof {
                assert(!is_digit(d[i - start]));
            }
            return None;
        }
        let next: u32 = acc * 10 + (c as u32 - 48);
        if next > 255 {
            proof {
                if all_digits(d) {
                    lemma_digits_value_grows(d, i - start + 1);
                }
            }
            return None;
        }
        proof {
            let t = d.take(i - start + 1);
            assert forall|k: int| 0 <= k < t.len() implies is_digit(#[trigger] t[k]) by {
                if k < i - start {
                    assert(t[k] == d.take(i - start)[k]);
                }
            }
        }
        acc = next;
        i += 1;
    }
    proof {
        assert(d.take(s.len() - start) == d);
    }
    Some(acc as u8)
}

fn private_172_in(h: &Vec<char>) -> (r: bool)
    ensures
        r == in_private_172(h@),
{
    if !starts_with(h, "172.") {
        return false;
    }
    proof {
        reveal_strlit("172.");
    }
    let end = index_of(h, '.', 4);
    let octet = sub_chars(h, 4, end);
    proof {
        let rest = h@.skip(4);
        assert(rest.take(first_index_of(rest, '.')) == h@.subrange(4, end as int));
    }
    match parse_octet(&octet) {
        Some(n) => 16 <= n && n <= 31,
        None => false,
    }
}

fn reserved_suffix_in(h: &Vec<char>) -> (r: bool)
    ensures
        r == has_reserved_suffix(h@),
{
    ends_with(h, ".local") || ends_with(h, ".internal") || ends_with(h, ".localhost")
}

/// Normalizes a host name and refuses what must not be contacted: an empty
/// or overlong name, a name with a character of a path, a query or a user
/// part, a loopback, private or link-local address, and a name under a
/// top-level name reserved for local use.
pub fn validate_host(host: &str) -> (r: Result<String, NoteDeckError>)
    ensures
        match r {
            Ok(n) => n@ == normalize_host(host@) && host_verdict(n@) is Accepted,
            Err(e) => !(host_verdict(normalize_host(host@)) is Accepted) && e@ == host_rejection(
                normalize_host(host@),
            ),
        },
{
    let raw = chars_of(host);
    let t = trimmed(&raw);
    let h = to_lowercase(&t);
    if h.len() == 0 {
        return Err(NoteDeckError::InvalidInput("Host cannot be empty".to_owned()));
    }
    if utf8_len_exceeds(&h, MAX_HOST_BYTES) {
        return Err(NoteDeckError::InvalidInput("Host too long".to_owned()));
    }
    if forbidden_char_in(&h) {
        let shown = string_from(&h);
        return Err(NoteDeckError::InvalidInput(concat("Invalid host: ", shown.as_str())));
    }
    if blocked_prefix_in(&h) || private_172_in(&h) {
        return Err(
            NoteDeckError::InvalidInput(
                "Loopback and private addresses are not allowed".to_owned(),
            ),
        );
    }
    if reserved_suffix_in(&h) {
        return Err(
            NoteDeckError::InvalidInput("Reserved domain names are not allowed".to_owned()),
        );
    }
    Ok(string_from(&h))
}

/// A character of a public domain name: a small letter, a digit, a dot or a
/// hyphen.
pub open spec fn is_domain_char(c: char) -> bool {
    ('a' <= c <= 'z') || ('0' <= c <= '9') || c == '.' || c == '-'
}

/// Whether `s` is made of the characters of domain names alone.
pub open spec fn is_domain_text(s: Seq<char>) -> bool {
    forall|i: int| 0 <= i < s.len() ==> is_domain_char(#[trigger] s[i])
}

proof fn lemma_ascii_utf8_len(s: Seq<char>)
    requires
        forall|i: int| 0 <= i < s.len() ==> (#[trigger] s[i] as u32) < 0x80,
    ensures
        utf8_len(s) == s.len(),
    decreases s.len(),
{
    if s.len() > 0 {
        let t = s.drop_last();
        assert forall|i: int| 0 <= i < t.len() implies (#[trigger] t[i] as u32) < 0x80 by {
            assert(t[i] == s[i]);
        }
        lemma_ascii_utf8_len(t);
        assert((s[s.len() - 1] as u32) < 0x80);
    }
}

/// Every host on the denylist is refused, however it is written: an input
/// whose normal form begins like a loopback, private or link-local address,
/// lies in 172.16.0.0/12 or ends in a reserved name never gets the verdict
/// `Accepted`, so [`validate_host`] returns an invalid-input fault for it.
pub proof fn lemma_denylist_is_rejected(input: Seq<char>)
    requires
        has_blocked_prefix(normalize_host(input)) || in_private_172(normalize_host(input))
            || has_reserved_suffix(normalize_host(input)),
    ensures
        !(host_verdict(normalize_host(input)) is Accepted),
        host_rejection(normalize_host(input)) is InvalidInput,
{
}

/// Every public domain is accepted as it stands: a name of 1 to 253 small
/// letters, digits, dots and hyphens that matches no entry of the denylist
/// is its own normal form and gets the verdict `Accepted`.
pub proof fn lemma_public_domain_is_accepted(s: Seq<char>)
    requires
        1 <= s.len() <= 253,
        is_domain_text(s),
        !has_blocked_prefix(s),
        !in_private_172(s),
        !has_reserved_suffix(s),
    ensures
        normalize_host(s) == s,
        host_verdict(s) is Accepted,
{
    assert(is_domain_char(s[0]));
    assert(is_domain_char(s.last()));
    assert(trim_start(s) == s);
    assert(trim_end(s) == s);
    assert(trim(s) == s);
    assert forall|i: int| 0 <= i < s.len() implies lowercase(s)[i] == s[i] by {
        assert(is_domain_char(s[i]));
    }
    assert(lowercase(s) =~= s);
    assert forall|i: int| 0 <= i < s.len() implies (#[trigger] s[i] as u32) < 0x80 by {
        assert(is_domain_char(s[i]));
    }
    lemma_ascii_utf8_len(s);
    assert forall|i: int| 0 <= i < s.len() implies !is_forbidden_char(#[trigger] s[i]) by {
        assert(is_domain_char(s[i]));
    }
}

} // verus!
