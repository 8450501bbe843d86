//! The markup of notes: a text is taken apart into plain text, links,
//! mentions, hashtags, emoji, emphasis and blocks.
//!
//! The patterns of the inline pieces are regular expressions; finding their
//! matches is left to the `regex` crate. What is checked here is all that is
//! done with the matches: every position that a match names is tested before
//! the text is cut there, so that no text can make the tokenizer fail. What
//! the pieces of a text are is stated in [`crate::markup`].

use crate::text::{chars_of, hex, is_whitespace, join, push_hex};
use crate::markup::{
    args_among, args_in, args_view, block_at, block_found_of, block_of, bold_in, closing,
    custom_emoji_in, first_at, first_block, first_construct_in, fn_args_at, fn_block_at,
    found_of, hashtag_in, inline_code_in, is_block_at, is_first_block_at, italic_in,
    leading_match, lemma_args_view_insert, lemma_center_piece, lemma_first_at,
    lemma_first_block, lemma_fn_piece, lemma_no_block, lemma_nowhere, lemma_pieces_of_push,
    lemma_pieces_cut, lemma_pieces_whole, lemma_small_piece, lemma_unparsed, link_in,
    mention_in, parse_of, piece_of, pieces, pieces_of, place_of, shorter, sooner_of, strike_in,
    tag_at, tag_block_at, tag_of, text_before, unicode_emoji_in, unparsed, url_in,
};
use vstd::prelude::*;
use vstd::string::*;
use vstd::utf8::*;

verus! {

/// Where the emoji images are served from.
pub const TWEMOJI_BASE: &'static str = "https://cdn.jsdelivr.net/gh/jdecked/twemoji@v15.1.0/assets/svg";

/// The zero-width joiner.
pub open spec fn zwj() -> char {
    '\u{200D}'
}

/// The variation selector that asks for emoji presentation.
pub open spec fn emoji_selector() -> char {
    '\u{FE0F}'
}

/// The characters of an emoji that name its image: all of them in a joined
/// sequence, all but the variation selectors otherwise.
pub open spec fn twemoji_chars(emoji: Seq<char>) -> Seq<char> {
    if emoji.contains(zwj()) {
        emoji
    } else {
        emoji.filter(|c: char| c != emoji_selector())
    }
}

/// The name of the image of an emoji: the code points in hexadecimal, joined
/// by hyphens.
pub open spec fn twemoji_name(emoji: Seq<char>) -> Seq<char> {
    join(twemoji_chars(emoji).map_values(|c: char| hex(c as u32 as nat)), "-"@)
}

/// The address of the image of an emoji.
pub open spec fn twemoji_url(emoji: Seq<char>) -> Seq<char> {
    TWEMOJI_BASE@ + "/"@ + twemoji_name(emoji) + ".svg"@
}

proof fn lemma_join_push(parts: Seq<Seq<char>>, last: Seq<char>, sep: Seq<char>)
    ensures
        join(parts.push(last), sep) == if parts.len() == 0 {
            last
        } else {
            join(parts, sep) + sep + last
        },
{
    assert(parts.push(last).drop_last() == parts);
}

/// The address of the image of an emoji.
pub fn char_to_twemoji_url(emoji: &str) -> (r: String)
    ensures
        r@ == twemoji_url(emoji@),
{
    let cs = chars_of(emoji);
    let mut has_zwj = false;
    let mut k: usize = 0;
    while k < cs.len()
        invariant
            k <= cs.len(),
            has_zwj == cs@.take(k as int).contains(zwj()),
        decreases cs.len() - k,
    {
        if cs[k] == '\u{200D}' {
            has_zwj = true;
        }
        proof {
            let t = cs@.take(k as int);
            assert(cs@.take(k + 1) == t.push(cs@[k as int]));
            if t.contains(zwj()) {
                let w = choose|w: int| 0 <= w < t.len() && t[w] == zwj();
                assert(t.push(cs@[k as int])[w] == zwj());
            }
            if cs@[k as int] == zwj() {
                assert(t.push(cs@[k as int])[k as int] == zwj());
            }
        }
        k += 1;
    }
    proof {
        assert(cs@.take(cs.len() as int) == cs@);
    }
    let ghost keep = |c: char| c != emoji_selector();
    let ghost code = |c: char| hex(c as u32 as nat);
    let mut name = String::new();
    let mut count: usize = 0;
    let mut i: usize = 0;
    let ghost mut kept: Seq<char> = Seq::empty();
    proof {
        assert(cs@.take(0) == Seq::<char>::empty());
        assert(Seq::<char>::empty().filter(keep) == Seq::<char>::empty()) by {
            reveal(Seq::filter);
        }
        assert(kept.map_values(code) == Seq::<Seq<char>>::empty());
    }
    while i < cs.len()
        invariant
            i <= cs.len(),
            keep == |c: char| c != emoji_selector(),
            code == |c: char| hex(c as u32 as nat),
            kept == if has_zwj {
                cs@.take(i as int)
            } else {
                cs@.take(i as int).filter(keep)
            },
            count <= i,
            (count == 0) == (kept.len() == 0),
            name@ == join(kept.map_values(code), "-"@),
        decreases cs.len() - i,
    {
        let c = cs[i];
        proof {
            assert(cs@.take(i + 1) == cs@.take(i as int).push(c));
            cs@.take(i as int).lemma_filter_push(c, keep);
        }
        if has_zwj || c != '\u{FE0F}' {
            if count > 0 {
                name.push('-');
            }
            proof {
                reveal_strlit("-");
                assert("-"@ == seq!['-']);
                lemma_join_push(kept.map_values(code), hex(c as u32 as nat), "-"@);
                assert(kept.push(c).map_values(code) == kept.map_values(code).push(
                    hex(c as u32 as nat),
                ));
                if count > 0 {
                    assert(name@ == join(kept.map_values(code), "-"@) + "-"@);
                }
            }
            push_hex(&mut name, c as u32 as u64);
            count += 1;
            proof {
                kept = kept.push(c);
            }
        }
        i += 1;
    }
    proof {
        assert(cs@.take(cs.len() as int) == cs@);
        assert(kept == twemoji_chars(emoji@));
    }
    let mut out = String::from_str(TWEMOJI_BASE);
    out.append("/");
    out.append(name.as_str());
    out.append(".svg");
    out
}

/// Whether a mention or hashtag may begin after the text `prev`: at the
/// start, after whitespace and after an opening parenthesis.
pub open spec fn boundary_after(prev: Seq<char>) -> bool {
    prev.len() == 0 || is_whitespace(prev.last()) || prev.last() == '('
}

/// Whether a mention or hashtag may begin at the byte position `byte_pos` of
/// `text`, which must lie between two characters.
pub fn is_boundary(text: &str, byte_pos: usize) -> (r: bool)
    requires
        is_char_boundary(text.spec_bytes(), byte_pos as int),
    ensures
        r == boundary_after(decode_utf8(text.spec_bytes().subrange(0, byte_pos as int))),
{
    broadcast use group_utf8_lib;

    if byte_pos == 0 {
        proof {
            assert(text.spec_bytes().subrange(0, 0) == Seq::<u8>::empty());
            assert(decode_utf8(Seq::<u8>::empty()) == Seq::<char>::empty());
        }
        return true;
    }
    let (prev, _) = text.split_at(byte_pos);
    let cs = chars_of(prev);
    proof {
        assert(prev.spec_bytes() == text.spec_bytes().subrange(0, byte_pos as int));
        assert(decode_utf8(encode_utf8(prev@)) == prev@);
    }
    if cs.len() == 0 {
        return true;
    }
    let ch = cs[cs.len() - 1];
    crate::text::char_is_whitespace(ch) || ch == '('
}

/// A compiled regular expression, `regex::Regex`.
#[verifier::external_type_specification]
#[verifier::external_body]
pub struct ExRegex(regex::Regex);

/// The pattern that a compiled expression was made from, as `Regex::as_str`
/// gives it back.
pub uninterp spec fn pattern_text(re: regex::Regex) -> Seq<char>;

/// The capture groups of the leftmost match of a pattern in a text that
/// begins at or after the byte position `start`: for each group the byte
/// positions where it begins and ends, `None` for a group that took no part;
/// `None` where there is no match or the pattern is no pattern.
pub uninterp spec fn regex_captures(pattern: Seq<char>, text: Seq<char>, start: nat) -> Option<
    Seq<Option<(nat, nat)>>,
>;

/// `regex::Regex::new`: the compiled form of a pattern, `None` for a text
/// that is no pattern. The compiled form remembers its pattern.
#[verifier::external_body]
pub(crate) fn compile(pattern: &str) -> (r: Option<regex::Regex>)
    ensures
        r matches Some(re) ==> pattern_text(re) == pattern@,
{
    regex::Regex::new(pattern).ok()
}

/// The spans in a list of groups, as natural numbers.
pub open spec fn spans_of(groups: Option<Vec<Option<(usize, usize)>>>) -> Option<
    Seq<Option<(nat, nat)>>,
> {
    match groups {
        Some(g) => Some(g@.map_values(|s: Option<(usize, usize)>| span_of(s))),
        None => None,
    }
}

/// A span, as natural numbers.
pub open spec fn span_of(s: Option<(usize, usize)>) -> Option<(nat, nat)> {
    match s {
        Some((a, b)) => Some((a as nat, b as nat)),
        None => None,
    }
}

/// `Regex::captures_at` with the groups of `Captures::iter`, each by
/// `Match::start` and `Match::end`: a function of the pattern, the text and
/// the starting position alone. (The outside code panics for a start beyond
/// the end of the text.)
#[verifier::external_body]
pub(crate) fn captures_at(re: &regex::Regex, text: &str, start: usize) -> (r: Option<
    Vec<Option<(usize, usize)>>,
>)
    requires
        start <= text.spec_bytes().len(),
    ensures
        spans_of(r) == regex_captures(pattern_text(*re), text@, start as nat),
{
    re.captures_at(text, start).map(|c| c.iter().map(|g| g.map(|m| (m.start(), m.end()))).collect())
}

/// Whether a span lies in the text at or after `start`, between characters.
pub open spec fn span_ok(bytes: Seq<u8>, start: nat, span: (nat, nat)) -> bool {
    &&& start <= span.0 <= span.1 <= bytes.len()
    &&& is_char_boundary(bytes, span.0 as int)
    &&& is_char_boundary(bytes, span.1 as int)
}

/// Whether the groups of a match can be used: the first `need` groups took
/// part, and every group that did lies in the text at or after `start`,
/// between characters.
pub open spec fn usable(bytes: Seq<u8>, start: nat, groups: Seq<Option<(nat, nat)>>, need: nat) -> bool {
    &&& 1 <= need <= groups.len()
    &&& forall|i: int|
        0 <= i < groups.len() ==> match #[trigger] groups[i] {
            Some(s) => span_ok(bytes, start, s),
            None => i >= need,
        }
}

/// The groups of the leftmost match at or after `start`, if they can be
/// used.
pub open spec fn usable_captures(pattern: Seq<char>, text: Seq<char>, start: nat, need: nat) -> Option<
    Seq<Option<(nat, nat)>>,
> {
    match regex_captures(pattern, text, start) {
        Some(g) => if usable(encode_utf8(text), start, g, need) {
            Some(g)
        } else {
            None
        },
        None => None,
    }
}

fn first_match(re: &regex::Regex, text: &str, start: usize, need: usize) -> (r: Option<
    Vec<Option<(usize, usize)>>,
>)
    requires
        need >= 1,
    ensures
        spans_of(r) == if start <= text.spec_bytes().len() {
            usable_captures(pattern_text(*re), text@, start as nat, need as nat)
        } else {
            None
        },
{
    let len = text.as_bytes().len();
    if start > len {
        return None;
    }
    let groups = match captures_at(re, text, start) {
        Some(g) => g,
        None => {
            return None;
        },
    };
    let ghost spans = groups@.map_values(|s: Option<(usize, usize)>| span_of(s));
    let ghost bytes = text.spec_bytes();
    if groups.len() < need {
        return None;
    }
    let mut i: usize = 0;
    while i < groups.len()
        invariant
            i <= groups.len(),
            1 <= need <= groups.len(),
            len == bytes.len(),
            bytes == text.spec_bytes(),
            start <= len,
            spans == groups@.map_values(|s: Option<(usize, usize)>| span_of(s)),
            regex_captures(pattern_text(*re), text@, start as nat) == Some(spans),
            forall|k: int|
                0 <= k < i ==> match #[trigger] spans[k] {
                    Some(s) => span_ok(bytes, start as nat, s),
                    None => k >= need,
                },
        decreases groups.len() - i,
    {
        match groups[i] {
            Some((a, b)) => {
                let ok = start <= a && a <= b && b <= len && text.is_char_boundary(a)
                    && text.is_char_boundary(b);
                if !ok {
                    proof {
                        assert(spans[i as int] == Some((a as nat, b as nat)));
                        assert(!span_ok(bytes, start as nat, (a as nat, b as nat)));
                    }
                    return None;
                }
                proof {
                    assert(spans[i as int] == Some((a as nat, b as nat)));
                }
            },
            None => {
                if i < need {
                    proof {
                        assert(spans[i as int] is None);
                    }
                    return None;
                }
                proof {
                    assert(spans[i as int] is None);
                }
            },
        }
        i += 1;
    }
    Some(groups)
}

/// The text between two byte positions of `text` that lie between
/// characters.
pub fn slice<'a>(text: &'a str, from: usize, to: usize) -> (r: &'a str)
    requires
        from <= to <= text.spec_bytes().len(),
        is_char_boundary(text.spec_bytes(), from as int),
        is_char_boundary(text.spec_bytes(), to as int),
    ensures
        r.spec_bytes() == text.spec_bytes().subrange(from as int, to as int),
        r@ == decode_utf8(text.spec_bytes().subrange(from as int, to as int)),
{
    broadcast use group_utf8_lib;

    let (head, _) = text.split_at(to);
    proof {
        let all = text.spec_bytes();
        let h = head.spec_bytes();
        assert(h == all.subrange(0, to as int));
        if from < to {
            assert(h[from as int] == all[from as int]);
            is_char_boundary_iff_not_is_continuation_byte(all, from as int);
            is_char_boundary_iff_not_is_continuation_byte(h, from as int);
        } else {
            is_char_boundary_start_end_of_seq(h);
        }
    }
    let (_, r) = head.split_at(from);
    proof {
        let all = text.spec_bytes();
        let h = head.spec_bytes();
        assert(h.subrange(from as int, h.len() as int) == all.subrange(from as int, to as int));
        assert(decode_utf8(encode_utf8(r@)) == r@);
    }
    r
}

/// The text between two byte positions, where they lie in the text and
/// between characters.
pub fn checked_slice<'a>(text: &'a str, from: usize, to: usize) -> (r: Option<&'a str>)
    ensures
        match r {
            Some(s) => {
                &&& span_ok(text.spec_bytes(), 0, (from as nat, to as nat))
                &&& s.spec_bytes() == text.spec_bytes().subrange(from as int, to as int)
                &&& s@ == decode_utf8(text.spec_bytes().subrange(from as int, to as int))
            },
            None => !span_ok(text.spec_bytes(), 0, (from as nat, to as nat)),
        },
{
    let len = text.as_bytes().len();
    if from <= to && to <= len && text.is_char_boundary(from) && text.is_char_boundary(to) {
        Some(slice(text, from, to))
    } else {
        None
    }
}

/// A piece of marked-up text.
#[derive(Debug, PartialEq)]
pub enum MfmToken {
    Text { value: String },
    Url { value: String },
    Link { label: String, url: String },
    Mention { username: String, host: Option<String>, acct: String },
    Hashtag { value: String },
    Bold { value: String },
    Italic { value: String },
    Strike { value: String },
    InlineCode { value: String },
    CustomEmoji { shortcode: String },
    UnicodeEmoji { value: String, url: String },
    /// A function: its name, its arguments by name, a text for an argument
    /// with a value and `true` for one without, and what it is applied to.
    Fn { name: String, args: Vec<(String, serde_json::Value)>, children: Vec<MfmToken> },
    Small { children: Vec<MfmToken> },
    Center { children: Vec<MfmToken> },
    Plain { value: String },
}

/// Code between backticks, on one line.
pub const P_INLINE_CODE: &'static str = r"`([^`\n]+)`";

/// A link with a label: `[label](address)`, with or without a question mark before it.
pub const P_LINK: &'static str = r"\??\[([^\]]+)\]\((https?://[^\s)]+)\)";

/// A bare address.
pub const P_URL: &'static str = r"https?://[\w\-.~:/?#\[\]@!$&'()*+,;=%]+";

/// A custom emoji: `:name:` or `:name@host:`.
pub const P_CUSTOM_EMOJI: &'static str = r":([a-zA-Z0-9_]+(?:@[\w.\-]+)?):";

/// Bold text between pairs of asterisks.
pub const P_BOLD: &'static str = r"\*\*(.+?)\*\*";

/// Italic text between single asterisks, on one line.
pub const P_ITALIC: &'static str = r"\*([^*\n]+?)\*";

/// Struck-out text between pairs of tildes.
pub const P_STRIKE: &'static str = r"~~(.+?)~~";

/// A mention: `@name` or `@name@host`.
pub const P_MENTION: &'static str = r"@(\w+)(?:@([\w.\-]+))?";

/// A hashtag: `#` and word characters, Japanese script included.
pub const P_HASHTAG: &'static str = r"#([\w\u{3000}-\u{303f}\u{3040}-\u{309f}\u{30a0}-\u{30ff}\u{ff00}-\u{ffef}\u{4e00}-\u{9faf}]+)";

/// An emoji of Unicode, or several joined by zero-width joiners.
pub const P_UNICODE_EMOJI: &'static str = r"(?:\p{Emoji_Presentation}|\p{Emoji}\x{FE0F})(?:\x{200D}(?:\p{Emoji_Presentation}|\p{Emoji}\x{FE0F}))*";

/// The name of a function, at the start of a text.
pub const P_FN_NAME: &'static str = r"^\w+";

/// The arguments of a function, at the start of a text: up to the next
/// whitespace or closing bracket.
pub const P_FN_ARGS: &'static str = r"^[^\s\]]+";

/// The longest text that is taken apart, in bytes; a longer text is one
/// piece of plain text.
pub const MAX_MFM_LENGTH: usize = 10000;

/// The compiled patterns of the markup.
pub struct MfmPatterns {
    inline_code: regex::Regex,
    link: regex::Regex,
    url: regex::Regex,
    custom_emoji: regex::Regex,
    bold: regex::Regex,
    italic: regex::Regex,
    strike: regex::Regex,
    mention: regex::Regex,
    hashtag: regex::Regex,
    unicode_emoji: regex::Regex,
    fn_name: regex::Regex,
    fn_args: regex::Regex,
}

/// Which matches of a pattern count.
#[derive(Debug, Clone, Copy, PartialEq, Eq)]
pub enum Accept {
    /// Every match.
    Any,
    /// A match with no asterisk right before it and none right after it.
    Unstarred,
    /// A match at the start of the text, after whitespace or after an
    /// opening parenthesis.
    AtBoundary,
    /// A match of more than one byte that is not a short run begun by an
    /// ASCII character.
    RealEmoji,
}

/// Whether the match between the byte positions `a` and `b` counts.
pub open spec fn accepted(accept: Accept, bytes: Seq<u8>, a: int, b: int) -> bool {
    match accept {
        Accept::Any => true,
        Accept::Unstarred => !(a > 0 && bytes[a - 1] == 42) && !(b < bytes.len() && bytes[b] == 42),
        Accept::AtBoundary => boundary_after(decode_utf8(bytes.subrange(0, a))),
        Accept::RealEmoji => !(b - a == 1 || (b - a <= 3 && a < bytes.len() && bytes[a] < 128)),
    }
}

/// Where the group `i` begins; zero for a group that took no part.
pub open spec fn begin_of(g: Seq<Option<(nat, nat)>>, i: int) -> nat {
    match g[i] {
        Some((a, _)) => a,
        None => 0,
    }
}

/// Where the group `i` ends; zero for a group that took no part.
pub open spec fn end_of(g: Seq<Option<(nat, nat)>>, i: int) -> nat {
    match g[i] {
        Some((_, b)) => b,
        None => 0,
    }
}

/// The groups of the first match at or after `start` that counts. The search
/// goes on behind each match that does not count.
pub open spec fn first_accepted(
    pattern: Seq<char>,
    text: Seq<char>,
    start: nat,
    need: nat,
    accept: Accept,
) -> Option<Seq<Option<(nat, nat)>>>
    decreases encode_utf8(text).len() - start,
{
    if start > encode_utf8(text).len() {
        None
    } else {
        match usable_captures(pattern, text, start, need) {
            None => None,
            Some(g) => {
                let a = begin_of(g, 0);
                let b = end_of(g, 0);
                if accepted(accept, encode_utf8(text), a as int, b as int) {
                    Some(g)
                } else if b <= start {
                    None
                } else {
                    first_accepted(pattern, text, b, need, accept)
                }
            },
        }
    }
}

fn search(re: &regex::Regex, text: &str, need: usize, accept: Accept) -> (r: Option<
    Vec<Option<(usize, usize)>>,
>)
    requires
        need >= 1,
    ensures
        spans_of(r) == first_accepted(pattern_text(*re), text@, 0, need as nat, accept),
        r matches Some(g) ==> groups_ok(text.spec_bytes(), g@, need as nat),
{
    let bytes = text.as_bytes();
    let len = bytes.len();
    let mut start: usize = 0;
    loop
        invariant
            need >= 1,
            start <= len,
            len == text.spec_bytes().len(),
            bytes@ == text.spec_bytes(),
            first_accepted(pattern_text(*re), text@, 0, need as nat, accept) == first_accepted(
                pattern_text(*re),
                text@,
                start as nat,
                need as nat,
                accept,
            ),
        decreases len - start,
    {
        let groups = match first_match(re, text, start, need) {
            Some(g) => g,
            None => {
                return None;
            },
        };
        let ghost spans = groups@.map_values(|s: Option<(usize, usize)>| span_of(s));
        proof {
            assert(spans[0] == span_of(groups@[0]));
        }
        let (a, b) = match groups[0] {
            Some(s) => s,
            None => {
                return None;
            },
        };
        proof {
            assert(span_ok(text.spec_bytes(), start as nat, (a as nat, b as nat)));
        }
        let ok = match accept {
            Accept::Any => true,
            Accept::Unstarred => !(a > 0 && bytes[a - 1] == 42u8) && !(b < len && bytes[b] == 42u8),
            Accept::AtBoundary => is_boundary(text, a),
            Accept::RealEmoji => !(b - a == 1 || (b - a <= 3 && a < len && bytes[a] < 128u8)),
        };
        if ok {
            proof {
                assert forall|i: int| 0 <= i < groups@.len() implies match #[trigger] groups@[i] {
                    Some((x, y)) => span_ok(text.spec_bytes(), 0, (x as nat, y as nat)),
                    None => i >= need,
                } by {
                    assert(spans[i] == span_of(groups@[i]));
                }
            }
            return Some(groups);
        }
        if b <= start {
            return None;
        }
        start = b;
    }
}

/// A match of an inline pattern: where it begins, how long it is, and the
/// piece it stands for.
pub struct InlineMatch {
    pub start: usize,
    pub len: usize,
    pub token: MfmToken,
}

/// Whether the groups of a match are as [`usable`] asks.
pub open spec fn groups_ok(bytes: Seq<u8>, g: Seq<Option<(usize, usize)>>, need: nat) -> bool {
    &&& 1 <= need <= g.len()
    &&& forall|i: int|
        0 <= i < g.len() ==> match #[trigger] g[i] {
            Some((a, b)) => span_ok(bytes, 0, (a as nat, b as nat)),
            None => i >= need,
        }
}

fn group_text(text: &str, groups: &Vec<Option<(usize, usize)>>, i: usize) -> (r: Option<String>)
    requires
        groups_ok(text.spec_bytes(), groups@, 1),
    ensures
        match r {
            Some(s) => {
                &&& i < groups@.len()
                &&& groups@[i as int] is Some
                &&& s@ == group(text@, spans_of(Some(*groups))->0, i as int)
            },
            None => i >= groups@.len() || groups@[i as int] is None,
        },
{
    if i >= groups.len() {
        return None;
    }
    let ghost spans = groups@.map_values(|s: Option<(usize, usize)>| span_of(s));
    proof {
        assert(spans[i as int] == span_of(groups@[i as int]));
    }
    match groups[i] {
        Some((a, b)) => {
            proof {
                assert(groups@[i as int] == Some((a, b)));
                assert(span_ok(text.spec_bytes(), 0, (a as nat, b as nat)));
            }
            Some(slice(text, a, b).to_owned())
        },
        None => None,
    }
}

fn whole(text: &str, groups: &Vec<Option<(usize, usize)>>) -> (r: (usize, usize))
    requires
        groups_ok(text.spec_bytes(), groups@, 1),
    ensures
        r.0 <= r.1,
        r.0 == begin_of(spans_of(Some(*groups))->0, 0),
        r.1 == end_of(spans_of(Some(*groups))->0, 0),
{
    let ghost spans = groups@.map_values(|s: Option<(usize, usize)>| span_of(s));
    proof {
        assert(spans[0] == span_of(groups@[0]));
        assert(groups@[0] is Some);
    }
    match groups[0] {
        Some(s) => s,
        None => (0, 0),
    }
}

/// The text of a group.
pub open spec fn group(text: Seq<char>, g: Seq<Option<(nat, nat)>>, i: int) -> Seq<char> {
    decode_utf8(encode_utf8(text).subrange(begin_of(g, i) as int, end_of(g, i) as int))
}

impl MfmPatterns {
    /// Every pattern is the one it is named after.
    pub closed spec fn wf(&self) -> bool {
        &&& pattern_text(self.inline_code) == P_INLINE_CODE@
        &&& pattern_text(self.link) == P_LINK@
        &&& pattern_text(self.url) == P_URL@
        &&& pattern_text(self.custom_emoji) == P_CUSTOM_EMOJI@
        &&& pattern_text(self.bold) == P_BOLD@
        &&& pattern_text(self.italic) == P_ITALIC@
        &&& pattern_text(self.strike) == P_STRIKE@
        &&& pattern_text(self.mention) == P_MENTION@
        &&& pattern_text(self.hashtag) == P_HASHTAG@
        &&& pattern_text(self.unicode_emoji) == P_UNICODE_EMOJI@
        &&& pattern_text(self.fn_name) == P_FN_NAME@
        &&& pattern_text(self.fn_args) == P_FN_ARGS@
    }

    /// Compiles the patterns; `None` if one of them does not compile.
    pub fn new() -> (r: Option<MfmPatterns>)
        ensures
            r matches Some(p) ==> p.wf(),
    {
        let inline_code = compile(P_INLINE_CODE)?;
        let link = compile(P_LINK)?;
        let url = compile(P_URL)?;
        let custom_emoji = compile(P_CUSTOM_EMOJI)?;
        let bold = compile(P_BOLD)?;
        let italic = compile(P_ITALIC)?;
        let strike = compile(P_STRIKE)?;
        let mention = compile(P_MENTION)?;
        let hashtag = compile(P_HASHTAG)?;
        let unicode_emoji = compile(P_UNICODE_EMOJI)?;
        let fn_name = compile(P_FN_NAME)?;
        let fn_args = compile(P_FN_ARGS)?;
        Some(
            MfmPatterns {
                inline_code,
                link,
                url,
                custom_emoji,
                bold,
                italic,
                strike,
                mention,
                hashtag,
                unicode_emoji,
                fn_name,
                fn_args,
            },
        )
    }

    fn find_inline_code(&self, text: &str) -> (r: Option<InlineMatch>)
        requires
            self.wf(),
        ensures
            is_markup(r),
            found_of(r) == inline_code_in(text@),
    {
        let g = search(&self.inline_code, text, 2, Accept::Any)?;
        let (a, b) = whole(text, &g);
        let value = group_text(text, &g, 1)?;
        Some(InlineMatch { start: a, len: b - a, token: MfmToken::InlineCode { value } })
    }

    fn find_link(&self, text: &str) -> (r: Option<InlineMatch>)
        requires
            self.wf(),
        ensures
            is_markup(r),
            found_of(r) == link_in(text@),
    {
        let g = search(&self.link, text, 3, Accept::Any)?;
        let (a, b) = whole(text, &g);
        let label = group_text(text, &g, 1)?;
        let url = group_text(text, &g, 2)?;
        Some(InlineMatch { start: a, len: b - a, token: MfmToken::Link { label, url } })
    }

    fn find_url(&self, text: &str) -> (r: Option<InlineMatch>)
        requires
            self.wf(),
        ensures
            is_markup(r),
            found_of(r) == url_in(text@),
    {
        let g = search(&self.url, text, 1, Accept::Any)?;
        let (a, b) = whole(text, &g);
        let value = group_text(text, &g, 0)?;
        Some(InlineMatch { start: a, len: b - a, token: MfmToken::Url { value } })
    }

    fn find_custom_emoji(&self, text: &str) -> (r: Option<InlineMatch>)
        requires
            self.wf(),
        ensures
            is_markup(r),
            found_of(r) == custom_emoji_in(text@),
    {
        let g = search(&self.custom_emoji, text, 2, Accept::Any)?;
        let (a, b) = whole(text, &g);
        let shortcode = group_text(text, &g, 1)?;
        Some(InlineMatch { start: a, len: b - a, token: MfmToken::CustomEmoji { shortcode } })
    }

    fn find_bold(&self, text: &str) -> (r: Option<InlineMatch>)
        requires
            self.wf(),
        ensures
            is_markup(r),
            found_of(r) == bold_in(text@),
    {
        let g = search(&self.bold, text, 2, Accept::Any)?;
        let (a, b) = whole(text, &g);
        let value = group_text(text, &g, 1)?;
        Some(InlineMatch { start: a, len: b - a, token: MfmToken::Bold { value } })
    }

    fn find_italic(&self, text: &str) -> (r: Option<InlineMatch>)
        requires
            self.wf(),
        ensures
            is_markup(r),
            found_of(r) == italic_in(text@),
    {
        let g = search(&self.italic, text, 2, Accept::Unstarred)?;
        let (a, b) = whole(text, &g);
        let value = group_text(text, &g, 1)?;
        Some(InlineMatch { start: a, len: b - a, token: MfmToken::Italic { value } })
    }

    fn find_strike(&self, text: &str) -> (r: Option<InlineMatch>)
        requires
            self.wf(),
        ensures
            is_markup(r),
            found_of(r) == strike_in(text@),
    {
        let g = search(&self.strike, text, 2, Accept::Any)?;
        let (a, b) = whole(text, &g);
        let value = group_text(text, &g, 1)?;
        Some(InlineMatch { start: a, len: b - a, token: MfmToken::Strike { value } })
    }

    fn find_mention(&self, text: &str) -> (r: Option<InlineMatch>)
        requires
            self.wf(),
        ensures
            is_markup(r),
            found_of(r) == mention_in(text@),
    {
        let g = search(&self.mention, text, 2, Accept::AtBoundary)?;
        let (a, b) = whole(text, &g);
        let username = group_text(text, &g, 1)?;
        let host = group_text(text, &g, 2);
        let acct = group_text(text, &g, 0)?;
        Some(
            InlineMatch { start: a, len: b - a, token: MfmToken::Mention { username, host, acct } },
        )
    }

    fn find_hashtag(&self, text: &str) -> (r: Option<InlineMatch>)
        requires
            self.wf(),
        ensures
            is_markup(r),
            found_of(r) == hashtag_in(text@),
    {
        let g = search(&self.hashtag, text, 2, Accept::AtBoundary)?;
        let (a, b) = whole(text, &g);
        let value = group_text(text, &g, 1)?;
        Some(InlineMatch { start: a, len: b - a, token: MfmToken::Hashtag { value } })
    }

    fn find_unicode_emoji(&self, text: &str) -> (r: Option<InlineMatch>)
        requires
            self.wf(),
        ensures
            is_markup(r),
            found_of(r) == unicode_emoji_in(text@),
    {
        let g = search(&self.unicode_emoji, text, 1, Accept::RealEmoji)?;
        let (a, b) = whole(text, &g);
        let value = group_text(text, &g, 0)?;
        let url = char_to_twemoji_url(value.as_str());
        Some(InlineMatch { start: a, len: b - a, token: MfmToken::UnicodeEmoji { value, url } })
    }
}

/// Whether `needle` stands in `hay` at the position `at`.
pub open spec fn bytes_at(hay: Seq<u8>, needle: Seq<u8>, at: int) -> bool {
    0 <= at && at + needle.len() <= hay.len() && hay.subrange(at, at + needle.len()) == needle
}

fn bytes_match_at(hay: &[u8], needle: &[u8], at: usize) -> (r: bool)
    ensures
        r == bytes_at(hay@, needle@, at as int),
{
    if at > hay.len() || needle.len() > hay.len() - at {
        return false;
    }
    let mut i: usize = 0;
    while i < needle.len()
        invariant
            i <= needle.len(),
            at + needle.len() <= hay.len(),
            hay@.subrange(at as int, at + i) == needle@.take(i as int),
        decreases needle.len() - i,
    {
        if hay[at + i] != needle[i] {
            proof {
                let w = hay@.subrange(at as int, at + needle.len());
                assert(w[i as int] != needle@[i as int]);
            }
            return false;
        }
        proof {
            assert(hay@.subrange(at as int, at + i + 1) == hay@.subrange(at as int, at + i).push(
                hay@[at + i],
            ));
            assert(needle@.take(i + 1) == needle@.take(i as int).push(needle@[i as int]));
        }
        i += 1;
    }
    proof {
        assert(needle@.take(needle.len() as int) == needle@);
    }
    true
}

/// The first position at or after `from` at which `needle` stands in `hay`.
pub fn find_bytes(hay: &[u8], needle: &[u8], from: usize) -> (r: Option<usize>)
    ensures
        place_of(r) == first_at(hay@, needle@, from as int),
        match r {
            Some(k) => from <= k && bytes_at(hay@, needle@, k as int) && forall|j: int|
                from <= j < k ==> !bytes_at(hay@, needle@, j),
            None => forall|j: int| from <= j ==> !bytes_at(hay@, needle@, j),
        },
{
    let mut k: usize = from;
    while k < hay.len()
        invariant
            from <= k,
            k <= hay.len() || k == from,
            forall|j: int| from <= j < k ==> !bytes_at(hay@, needle@, j),
        decreases hay.len() - k,
    {
        if bytes_match_at(hay, needle, k) {
            proof {
                lemma_first_at(hay@, needle@, from as int, k as int);
            }
            return Some(k);
        }
        k += 1;
    }
    if bytes_match_at(hay, needle, k) {
        proof {
            lemma_first_at(hay@, needle@, from as int, k as int);
        }
        return Some(k);
    }
    proof {
        lemma_nowhere(hay@, needle@, from as int);
    }
    None
}

/// A match of a block: where it begins, how long it is, and the piece it
/// stands for.
pub struct BlockMatch {
    pub index: usize,
    pub consume_length: usize,
    pub token: MfmToken,
}

/// The kinds of blocks.
#[derive(Debug, Clone, Copy, PartialEq, Eq)]
pub enum BlockKind {
    /// `$[name.args content]`
    Function,
    /// `<small>`, `<center>` or `<plain>` up to its closing tag.
    Tag,
}

/// The place of a piece in a text: the byte positions where it begins and
/// ends.
pub ghost struct Span {
    pub from: int,
    pub to: int,
}

/// Whether the places lie one behind the other and cover the first `len`
/// bytes of a text.
pub open spec fn tiles(spans: Seq<Span>, len: int) -> bool {
    &&& spans.len() == 0 <==> len == 0
    &&& spans.len() > 0 ==> spans[0].from == 0 && spans.last().to == len
    &&& forall|i: int| 0 <= i < spans.len() ==> (#[trigger] spans[i]).from <= spans[i].to
    &&& forall|i: int| 0 <= i < spans.len() - 1 ==> (#[trigger] spans[i]).to == spans[i + 1].from
}

/// Whether a piece is the plain text `text`.
pub open spec fn is_plain_text(token: MfmToken, text: Seq<char>) -> bool {
    match token {
        MfmToken::Text { value } => value@ == text,
        _ => false,
    }
}

/// Whether the pieces stand at the given places of the text with the given
/// bytes: there is a place for each piece, the places cover the text, and a
/// piece of plain text is the text at its place, unchanged.
pub open spec fn stand_at(tokens: Seq<MfmToken>, spans: Seq<Span>, bytes: Seq<u8>) -> bool {
    &&& tokens.len() == spans.len()
    &&& tiles(spans, bytes.len() as int)
    &&& forall|i: int|
        0 <= i < tokens.len() && (#[trigger] tokens[i]) is Text ==> is_plain_text(
            tokens[i],
            decode_utf8(bytes.subrange(spans[i].from, spans[i].to)),
        )
}

/// Whether a list of pieces may be what a text is taken apart into: the
/// pieces cover the text from its beginning to its end, one behind the
/// other, and every piece of plain text is the text at its place.
pub open spec fn may_be_pieces_of(tokens: Seq<MfmToken>, text: Seq<char>) -> bool {
    exists|spans: Seq<Span>| stand_at(tokens, spans, encode_utf8(text))
}

/// Whether a list of pieces may be what [`parse_mfm`] makes of a text: the
/// whole text as one piece of plain text for a text of more than ten
/// thousand bytes, and pieces that cover the text for any other.
pub open spec fn may_be_parse_of(tokens: Seq<MfmToken>, text: Seq<char>) -> bool {
    if text.len() > 0 && crate::text::utf8_len(text) > MAX_MFM_LENGTH {
        tokens.len() == 1 && is_plain_text(tokens[0], text)
    } else {
        may_be_pieces_of(tokens, text)
    }
}

/// Whether a match, if there is one, is of something other than plain text.
pub open spec fn is_markup(found: Option<InlineMatch>) -> bool {
    found matches Some(m) ==> !(m.token is Text)
}

/// The pieces that stand at places covering the text up to `off`, with one
/// more piece from `off` to `to` that, if it is plain text, is the text at
/// that place, stand at places covering the text up to `to`.
proof fn lemma_next_piece(
    old_tokens: Seq<MfmToken>,
    tokens: Seq<MfmToken>,
    old_spans: Seq<Span>,
    spans: Seq<Span>,
    bytes: Seq<u8>,
    off: int,
    to: int,
)
    requires
        0 <= off <= to <= bytes.len(),
        0 < to,
        old_tokens.len() == old_spans.len(),
        tiles(old_spans, off),
        forall|i: int|
            0 <= i < old_tokens.len() && (#[trigger] old_tokens[i]) is Text ==> is_plain_text(
                old_tokens[i],
                decode_utf8(bytes.subrange(old_spans[i].from, old_spans[i].to)),
            ),
        tokens.len() == old_tokens.len() + 1,
        forall|i: int| 0 <= i < old_tokens.len() ==> tokens[i] == old_tokens[i],
        tokens.last() is Text ==> is_plain_text(tokens.last(), decode_utf8(bytes.subrange(off, to))),
        spans == old_spans.push(Span { from: off, to }),
    ensures
        tokens.len() == spans.len(),
        tiles(spans, to),
        forall|i: int|
            0 <= i < tokens.len() && (#[trigger] tokens[i]) is Text ==> is_plain_text(
                tokens[i],
                decode_utf8(bytes.subrange(spans[i].from, spans[i].to)),
            ),
{
    if old_spans.len() > 0 {
        assert(spans[0] == old_spans[0]);
        assert(old_spans.last().to == off);
    }
    assert forall|i: int| 0 <= i < spans.len() - 1 implies (#[trigger] spans[i]).to == spans[i
        + 1].from by {
        assert(spans[i] == old_spans[i]);
        if i + 1 < old_spans.len() {
            assert(spans[i + 1] == old_spans[i + 1]);
        }
    }
    assert forall|i: int| 0 <= i < spans.len() implies (#[trigger] spans[i]).from
        <= spans[i].to by {
        if i < old_spans.len() {
            assert(spans[i] == old_spans[i]);
        }
    }
    assert forall|i: int| 0 <= i < tokens.len() && (#[trigger] tokens[i]) is Text implies is_plain_text(
        tokens[i],
        decode_utf8(bytes.subrange(spans[i].from, spans[i].to)),
    ) by {
        if i < old_tokens.len() {
            assert(tokens[i] == old_tokens[i]);
            assert(spans[i] == old_spans[i]);
        } else {
            assert(tokens[i] == tokens.last());
        }
    }
}

/// No pieces are the pieces of the empty text.
proof fn lemma_no_pieces(text: Seq<char>)
    requires
        text.len() == 0,
    ensures
        may_be_pieces_of(Seq::empty(), text),
{
    crate::text::lemma_utf8_len_is_encoded_len(text);
    crate::text::lemma_utf8_len_bounds(text);
    assert(stand_at(Seq::empty(), Seq::empty(), encode_utf8(text)));
}

/// A text that is not empty, as one piece of plain text, is taken apart.
proof fn lemma_one_piece(tokens: Seq<MfmToken>, text: Seq<char>)
    requires
        text.len() > 0,
        tokens.len() == 1,
        is_plain_text(tokens[0], text),
    ensures
        may_be_pieces_of(tokens, text),
{
    broadcast use vstd::utf8::encode_utf8_decode_utf8;

    let bytes = encode_utf8(text);
    crate::text::lemma_utf8_len_is_encoded_len(text);
    crate::text::lemma_utf8_len_bounds(text);
    let spans = seq![Span { from: 0, to: bytes.len() as int }];
    assert(bytes.subrange(0, bytes.len() as int) == bytes);
    assert(stand_at(tokens, spans, bytes));
}

fn parse_args(args_text: &str) -> (r: Vec<(String, serde_json::Value)>)
    ensures
        crate::assoc::distinct_keys(r@),
        args_view(r@) == args_in(args_text@),
{
    let mut args: Vec<(String, serde_json::Value)> = Vec::new();
    let cs = chars_of(args_text);
    let parts = crate::text::split_chars(&cs, ',');
    let ghost all = crate::text::split(args_text@, ',');
    let mut i: usize = 0;
    proof {
        assert(all.take(0) == Seq::<Seq<char>>::empty());
        assert(args_view(args@) =~= Map::<Seq<char>, crate::json::Json>::empty());
    }
    while i < parts.len()
        invariant
            i <= parts.len(),
            crate::assoc::distinct_keys(args@),
            crate::text::views_of(parts@) == all,
            args_view(args@) == args_among(all.take(i as int)),
        decreases parts.len() - i,
    {
        let part = &parts[i];
        let ghost before = args@;
        proof {
            assert(all[i as int] == part@);
            assert(all.take(i + 1).drop_last() == all.take(i as int));
            assert(all.take(i + 1).last() == part@);
            assert(part@.skip(0) == part@);
        }
        let eq = crate::text::index_of(part, '=', 0);
        if eq < part.len() {
            let key = crate::text::sub_chars(part, 0, eq);
            let value = crate::text::sub_chars(part, eq + 1, part.len());
            let value_text = crate::text::string_from(&value);
            let name = crate::text::string_from(&key);
            let held = crate::json::string(value_text.as_str());
            crate::assoc::upsert(&mut args, name, held);
            proof {
                lemma_args_view_insert(before, args@, name@, held);
            }
        } else {
            let name = crate::text::string_from(part);
            let held = crate::json::boolean(true);
            crate::assoc::upsert(&mut args, name, held);
            proof {
                lemma_args_view_insert(before, args@, name@, held);
            }
        }
        i += 1;
    }
    proof {
        assert(all.take(parts.len() as int) == all);
    }
    args
}

/// The match of a pattern at the very start of what follows `from`: how
/// long it is and what it holds.
fn leading<'a>(re: &regex::Regex, text: &'a str, from: usize) -> (r: Option<(usize, &'a str)>)
    ensures
        match r {
            Some((e, held)) => {
                &&& span_ok(text.spec_bytes(), 0, (from as nat, text.spec_bytes().len()))
                &&& leading_match(
                    pattern_text(*re),
                    text.spec_bytes().subrange(from as int, text.spec_bytes().len() as int),
                ) == Some(e as int)
                &&& from + e <= text.spec_bytes().len()
                &&& held@ == decode_utf8(text.spec_bytes().subrange(from as int, from + e))
            },
            None => !span_ok(text.spec_bytes(), 0, (from as nat, text.spec_bytes().len()))
                || leading_match(
                pattern_text(*re),
                text.spec_bytes().subrange(from as int, text.spec_bytes().len() as int),
            ) is None,
        },
{
    let len = text.as_bytes().len();
    let rest = checked_slice(text, from, len)?;
    let groups = first_match(re, rest, 0, 1)?;
    let ghost spans = groups@.map_values(|s: Option<(usize, usize)>| span_of(s));
    proof {
        assert(spans[0] == span_of(groups@[0]));
        assert(rest.spec_bytes() == encode_utf8(rest@));
    }
    match groups[0] {
        Some((a, b)) => {
            if a != 0 || b > len - from {
                return None;
            }
            let held = checked_slice(rest, a, b)?;
            proof {
                assert(rest.spec_bytes().subrange(0, b as int) == text.spec_bytes().subrange(
                    from as int,
                    from + b,
                ));
            }
            Some((b, held))
        },
        None => None,
    }
}

/// The position of the closing bracket that ends a function whose content
/// begins at `from`.
fn find_closing(bytes: &[u8], from: usize) -> (r: Option<usize>)
    ensures
        place_of(r) == closing(bytes@, from as int, 1),
        r matches Some(k) ==> from <= k < bytes@.len(),
{
    let len = bytes.len();
    let mut i: usize = from;
    let mut depth: usize = 1;
    while i < len
        invariant
            from <= i,
            i <= len || i == from,
            len == bytes@.len(),
            1 <= depth <= 1 + (i - from),
            closing(bytes@, from as int, 1) == closing(bytes@, i as int, depth as nat),
        decreases len - i,
    {
        if len - i >= 2 && bytes[i] == 36u8 && bytes[i + 1] == 91u8 {
            depth += 1;
            i += 2;
        } else if bytes[i] == 93u8 {
            if depth == 1 {
                return Some(i);
            }
            depth -= 1;
            i += 1;
        } else {
            i += 1;
        }
    }
    None
}

impl MfmPatterns {
    /// The arguments of a function whose name ends at `i`, and where they
    /// end.
    fn fn_args(&self, text: &str, i: usize) -> (r: (Vec<(String, serde_json::Value)>, usize))
        requires
            self.wf(),
        ensures
            crate::assoc::distinct_keys(r.0@),
            (args_view(r.0@), r.1 as int) == fn_args_at(text.spec_bytes(), i as int),
    {
        let bytes = text.as_bytes();
        let len = bytes.len();
        if i < len && bytes[i] == 46u8 {
            match leading(&self.fn_args, text, i + 1) {
                Some((e, args_text)) => (parse_args(args_text), i + 1 + e),
                None => {
                    let none: Vec<(String, serde_json::Value)> = Vec::new();
                    proof {
                        assert(args_view(none@) =~= Map::<Seq<char>, crate::json::Json>::empty());
                    }
                    (none, i + 1)
                },
            }
        } else {
            let none: Vec<(String, serde_json::Value)> = Vec::new();
            proof {
                assert(args_view(none@) =~= Map::<Seq<char>, crate::json::Json>::empty());
            }
            (none, i)
        }
    }

    /// The function `$[name.args content]` that begins at `pos`: where it
    /// ends and the piece that it is.
    fn parse_fn_block(&self, text: &str, pos: usize) -> (r: Option<(usize, MfmToken)>)
        requires
            self.wf(),
        ensures
            block_of(r) == fn_block_at(text.spec_bytes(), pos as int, shorter(text.spec_bytes())),
            r matches Some((end, token)) ==> pos < end <= text.spec_bytes().len()
                && is_char_boundary(text.spec_bytes(), end as int) && token is Fn,
        decreases text.spec_bytes().len(), 0nat,
    {
        let bytes = text.as_bytes();
        let len = bytes.len();
        if pos >= len || len - pos < 2 {
            return None;
        }
        if bytes[pos] != 36u8 || bytes[pos + 1] != 91u8 {
            return None;
        }
        let (n, name_text) = leading(&self.fn_name, text, pos + 2)?;
        let name = name_text.to_owned();
        let (args, at) = self.fn_args(text, pos + 2 + n);
        if at >= len || bytes[at] != 32u8 {
            return None;
        }
        let close = find_closing(bytes, at + 1)?;
        let content = checked_slice(text, at + 1, close)?;
        let end = close + 1;
        if !text.is_char_boundary(end) {
            return None;
        }
        let children = self.parse_tokens(content);
        let token = MfmToken::Fn { name, args, children };
        proof {
            lemma_fn_piece(token);
            assert(shorter(text.spec_bytes())(content.spec_bytes()) == pieces(content.spec_bytes()));
        }
        Some((end, token))
    }

    /// The tag that begins at `pos` with `open` and goes up to the next
    /// `close`: `None` where `open` does not stand at `pos`, `Some(None)`
    /// where it stands there and nothing closes it.
    fn try_tag(&self, text: &str, pos: usize, open: &str, close: &str, kind: u8) -> (r: Option<
        Option<(usize, MfmToken)>,
    >)
        requires
            self.wf(),
            open.spec_bytes().len() >= 3,
        ensures
            tag_of(r) == tag_at(
                text.spec_bytes(),
                pos as int,
                open@,
                close@,
                kind,
                shorter(text.spec_bytes()),
            ),
            r matches Some(Some((end, token))) ==> pos < end <= text.spec_bytes().len()
                && is_char_boundary(text.spec_bytes(), end as int) && !(token is Text),
        decreases text.spec_bytes().len(), 0nat,
    {
        let bytes = text.as_bytes();
        let len = bytes.len();
        let open_bytes = open.as_bytes();
        let close_bytes = close.as_bytes();
        if !bytes_match_at(bytes, open_bytes, pos) {
            return None;
        }
        let after_open = pos + open_bytes.len();
        let close_at = match find_bytes(bytes, close_bytes, after_open) {
            Some(k) => k,
            None => {
                return Some(None);
            },
        };
        let content = match checked_slice(text, after_open, close_at) {
            Some(c) => c,
            None => {
                return Some(None);
            },
        };
        let end = close_at + close_bytes.len();
        if !text.is_char_boundary(end) {
            return Some(None);
        }
        proof {
            assert(shorter(text.spec_bytes())(content.spec_bytes()) == pieces(content.spec_bytes()));
        }
        let token = if kind == 0 {
            let small = MfmToken::Small { children: self.parse_tokens(content) };
            proof {
                lemma_small_piece(small);
            }
            small
        } else if kind == 1 {
            let center = MfmToken::Center { children: self.parse_tokens(content) };
            proof {
                lemma_center_piece(center);
            }
            center
        } else {
            MfmToken::Plain { value: content.to_owned() }
        };
        Some(Some((end, token)))
    }

    /// The tag that begins at `pos`.
    fn parse_tag_block(&self, text: &str, pos: usize) -> (r: Option<(usize, MfmToken)>)
        requires
            self.wf(),
        ensures
            block_of(r) == tag_block_at(text.spec_bytes(), pos as int, shorter(text.spec_bytes())),
            r matches Some((end, token)) ==> pos < end <= text.spec_bytes().len()
                && is_char_boundary(text.spec_bytes(), end as int) && !(token is Text),
        decreases text.spec_bytes().len(), 1nat,
    {
        proof {
            reveal_strlit("<small>");
            reveal_strlit("<center>");
            reveal_strlit("<plain>");
            crate::text::lemma_utf8_len_is_encoded_len("<small>"@);
            crate::text::lemma_utf8_len_is_encoded_len("<center>"@);
            crate::text::lemma_utf8_len_is_encoded_len("<plain>"@);
            crate::text::lemma_utf8_len_bounds("<small>"@);
            crate::text::lemma_utf8_len_bounds("<center>"@);
            crate::text::lemma_utf8_len_bounds("<plain>"@);
        }
        match self.try_tag(text, pos, "<small>", "</small>", 0) {
            Some(found) => {
                return found;
            },
            None => {},
        }
        match self.try_tag(text, pos, "<center>", "</center>", 1) {
            Some(found) => {
                return found;
            },
            None => {},
        }
        match self.try_tag(text, pos, "<plain>", "</plain>", 2) {
            Some(found) => found,
            None => None,
        }
    }

    /// The first block of the given kind at a place where `needle` stands.
    fn find_first_block(&self, text: &str, needle: &str, kind: BlockKind) -> (r: Option<
        BlockMatch,
    >)
        requires
            self.wf(),
        ensures
            block_found_of(r) == first_block(
                text.spec_bytes(),
                needle.spec_bytes(),
                kind,
                shorter(text.spec_bytes()),
            ),
            r matches Some(m) ==> m.consume_length > 0 && m.index + m.consume_length
                <= text.spec_bytes().len() && !(m.token is Text),
        decreases text.spec_bytes().len(), 2nat,
    {
        let bytes = text.as_bytes();
        let len = bytes.len();
        let needle_bytes = needle.as_bytes();
        let ghost inner = shorter(text.spec_bytes());
        let mut from: usize = 0;
        while from < len
            invariant
                len == text.spec_bytes().len(),
                bytes@ == text.spec_bytes(),
                needle_bytes@ == needle.spec_bytes(),
                inner == shorter(text.spec_bytes()),
                self.wf(),
                forall|j: int| 0 <= j < from ==> !is_block_at(bytes@, needle_bytes@, kind, inner, j),
            decreases len - from,
        {
            let at = match find_bytes(bytes, needle_bytes, from) {
                Some(k) => k,
                None => {
                    proof {
                        lemma_no_block(bytes@, needle_bytes@, kind, inner);
                    }
                    return None;
                },
            };
            if at >= len {
                proof {
                    lemma_no_block(bytes@, needle_bytes@, kind, inner);
                }
                return None;
            }
            let parsed = match kind {
                BlockKind::Function => self.parse_fn_block(text, at),
                BlockKind::Tag => self.parse_tag_block(text, at),
            };
            proof {
                assert(block_of(parsed) == block_at(bytes@, at as int, kind, inner));
            }
            match parsed {
                Some((end, token)) => {
                    proof {
                        assert(is_first_block_at(bytes@, needle_bytes@, kind, inner, at as int));
                        lemma_first_block(bytes@, needle_bytes@, kind, inner, at as int);
                    }
                    return Some(BlockMatch { index: at, consume_length: end - at, token });
                },
                None => {},
            }
            from = at + 1;
        }
        proof {
            lemma_no_block(bytes@, needle_bytes@, kind, inner);
        }
        None
    }

    /// The construct that begins first in a text, if it holds any: a block
    /// before anything else that begins at the same place.
    fn first_construct(&self, text: &str) -> (r: Option<InlineMatch>)
        requires
            self.wf(),
        ensures
            is_markup(r),
            found_of(r) == first_construct_in(text.spec_bytes(), shorter(text.spec_bytes())),
        decreases text.spec_bytes().len(), 3nat,
    {
        proof {
            reveal(first_construct_in);
            vstd::utf8::encode_utf8_decode_utf8(text@);
        }
        let mut best: Option<InlineMatch> = None;
        let block = self.find_first_block(text, "$[", BlockKind::Function);
        best = earlier(best, block);
        assert(is_markup(best));
        let block = self.find_first_block(text, "<small>", BlockKind::Tag);
        best = earlier(best, block);
        assert(is_markup(best));
        let block = self.find_first_block(text, "<center>", BlockKind::Tag);
        best = earlier(best, block);
        assert(is_markup(best));
        let block = self.find_first_block(text, "<plain>", BlockKind::Tag);
        best = earlier(best, block);
        assert(is_markup(best));

        best = sooner(best, self.find_inline_code(text));
        assert(is_markup(best));
        best = sooner(best, self.find_link(text));
        assert(is_markup(best));
        best = sooner(best, self.find_url(text));
        assert(is_markup(best));
        best = sooner(best, self.find_custom_emoji(text));
        assert(is_markup(best));
        best = sooner(best, self.find_bold(text));
        assert(is_markup(best));
        best = sooner(best, self.find_italic(text));
        assert(is_markup(best));
        best = sooner(best, self.find_strike(text));
        assert(is_markup(best));
        best = sooner(best, self.find_mention(text));
        assert(is_markup(best));
        best = sooner(best, self.find_hashtag(text));
        assert(is_markup(best));
        best = sooner(best, self.find_unicode_emoji(text));
        assert(is_markup(best));

        best
    }

    /// Takes a text apart into its pieces.
    pub fn parse_tokens(&self, text: &str) -> (r: Vec<MfmToken>)
        requires
            self.wf(),
        ensures
            pieces_of(r@) == pieces(text.spec_bytes()),
            may_be_pieces_of(r@, text@),
        decreases text.spec_bytes().len(), 4nat,
    {
        let ghost bytes = text.spec_bytes();
        let ghost mut spans: Seq<Span> = Seq::empty();
        let ghost mut off: int = 0;
        let mut tokens: Vec<MfmToken> = Vec::new();
        let mut remaining: &str = text;
        proof {
            assert(bytes.subrange(0, bytes.len() as int) == bytes);
            assert(pieces_of(tokens@) + pieces(bytes) =~= pieces(bytes));
        }
        while !remaining.is_empty()
            invariant_except_break
                pieces(bytes) == pieces_of(tokens@) + pieces(remaining.spec_bytes()),
                0 <= off <= bytes.len(),
                remaining.spec_bytes() == bytes.subrange(off, bytes.len() as int),
                tokens@.len() == spans.len(),
                tiles(spans, off),
                forall|i: int|
                    0 <= i < tokens@.len() && (#[trigger] tokens@[i]) is Text ==> is_plain_text(
                        tokens@[i],
                        decode_utf8(bytes.subrange(spans[i].from, spans[i].to)),
                    ),
            invariant
                self.wf(),
                bytes == text.spec_bytes(),
                remaining.spec_bytes().len() <= text.spec_bytes().len(),
            ensures
                stand_at(tokens@, spans, bytes),
                pieces_of(tokens@) == pieces(bytes),
            decreases remaining.spec_bytes().len(),
        {
            let best = self.first_construct(remaining);
            let ghost rb = remaining.spec_bytes();
            let ghost done = pieces_of(tokens@);
            proof {
                assert(remaining.spec_bytes() == encode_utf8(remaining@));
                vstd::utf8::encode_utf8_decode_utf8(remaining@);
                assert(remaining@ == decode_utf8(bytes.subrange(off, bytes.len() as int)));
            }
            let rlen = remaining.as_bytes().len();
            let ghost old_tokens = tokens@;
            let ghost old_spans = spans;
            let cut: usize = match &best {
                Some(found) => if found.len <= rlen && found.start <= rlen - found.len {
                    found.start + found.len
                } else {
                    0
                },
                None => 0,
            };
            let start: usize = match &best {
                Some(found) => found.start,
                None => 0,
            };
            let before = checked_slice(remaining, 0, start);
            let rest = checked_slice(remaining, cut, rlen);
            match (best, before, rest) {
                (Some(found), Some(before), Some(rest)) => {
                    if cut == 0 {
                        tokens.push(MfmToken::Text { value: remaining.to_owned() });
                        proof {
                            lemma_pieces_whole(rb);
                            lemma_pieces_of_push(old_tokens, tokens@.last());
                            assert(tokens@ == old_tokens.push(tokens@.last()));
                            assert(pieces_of(tokens@) =~= done + pieces(rb));
                            spans = spans.push(Span { from: off, to: bytes.len() as int });
                            lemma_next_piece(
                                old_tokens,
                                tokens@,
                                old_spans,
                                spans,
                                bytes,
                                off,
                                bytes.len() as int,
                            );
                        }
                        break;
                    }
                    proof {
                        lemma_pieces_cut(rb, found_of(best)->0);
                    }
                    if start > 0 {
                        tokens.push(MfmToken::Text { value: before.to_owned() });
                        proof {
                            lemma_pieces_of_push(old_tokens, tokens@.last());
                            assert(tokens@ == old_tokens.push(tokens@.last()));
                            spans = spans.push(Span { from: off, to: off + start });
                            assert(remaining.spec_bytes().subrange(0, start as int)
                                == bytes.subrange(off, off + start));
                            lemma_next_piece(
                                old_tokens,
                                tokens@,
                                old_spans,
                                spans,
                                bytes,
                                off,
                                off + start,
                            );
                        }
                    }
                    let ghost mid_tokens = tokens@;
                    let ghost mid_spans = spans;
                    tokens.push(found.token);
                    proof {
                        lemma_pieces_of_push(mid_tokens, tokens@.last());
                        assert(tokens@ == mid_tokens.push(tokens@.last()));
                        assert(pieces_of(tokens@) =~= done + text_before(rb, found_of(best)->0).push(
                            piece_of(tokens@.last()),
                        ));
                        assert(pieces(bytes) =~= pieces_of(tokens@) + pieces(rest.spec_bytes()));
                        spans = spans.push(Span { from: off + start, to: off + cut });
                        lemma_next_piece(
                            mid_tokens,
                            tokens@,
                            mid_spans,
                            spans,
                            bytes,
                            off + start,
                            off + cut,
                        );
                        assert(remaining.spec_bytes().subrange(cut as int, rlen as int)
                            == bytes.subrange(off + cut, bytes.len() as int));
                        off = off + cut;
                    }
                    remaining = rest;
                },
                _ => {
                    tokens.push(MfmToken::Text { value: remaining.to_owned() });
                    proof {
                        lemma_pieces_whole(rb);
                        lemma_pieces_of_push(old_tokens, tokens@.last());
                        assert(tokens@ == old_tokens.push(tokens@.last()));
                        assert(pieces_of(tokens@) =~= done + pieces(rb));
                        spans = spans.push(Span { from: off, to: bytes.len() as int });
                        lemma_next_piece(
                            old_tokens,
                            tokens@,
                            old_spans,
                            spans,
                            bytes,
                            off,
                            bytes.len() as int,
                        );
                    }
                    break;
                },
            }
        }
        proof {
            assert(text.spec_bytes() == encode_utf8(text@));
        }
        tokens
    }

    /// Takes a text apart into its pieces; a text of more than ten thousand
    /// bytes is one piece of plain text.
    pub fn parse(&self, text: &str) -> (r: Vec<MfmToken>)
        requires
            self.wf(),
        ensures
            pieces_of(r@) == parse_of(text@),
            may_be_parse_of(r@, text@),
    {
        if text.is_empty() {
            let none: Vec<MfmToken> = Vec::new();
            proof {
                lemma_no_pieces(text@);
                lemma_unparsed(none@, text@);
            }
            return none;
        }
        if crate::text::byte_len(text) > MAX_MFM_LENGTH {
            let whole = vec![MfmToken::Text { value: text.to_owned() }];
            proof {
                lemma_unparsed(whole@, text@);
            }
            return whole;
        }
        self.parse_tokens(text)
    }
}

fn earlier(best: Option<InlineMatch>, block: Option<BlockMatch>) -> (r: Option<InlineMatch>)
    ensures
        found_of(r) == sooner_of(found_of(best), block_found_of(block)),
        is_markup(best) && (block matches Some(b) ==> !(b.token is Text)) ==> is_markup(r),
{
    match block {
        Some(b) => sooner(best, Some(InlineMatch { start: b.index, len: b.consume_length, token: b.token })),
        None => best,
    }
}

/// The one of two matches that begins first; the first of the two where they
/// begin at the same place.
fn sooner(best: Option<InlineMatch>, next: Option<InlineMatch>) -> (r: Option<InlineMatch>)
    ensures
        found_of(r) == sooner_of(found_of(best), found_of(next)),
        is_markup(best) && is_markup(next) ==> is_markup(r),
        match (best, next) {
            (Some(b), Some(n)) => r == if n.start < b.start {
                Some(n)
            } else {
                Some(b)
            },
            (Some(b), None) => r == Some(b),
            (None, n) => r == n,
        },
{
    match best {
        Some(b) => match next {
            Some(n) => if n.start < b.start {
                Some(n)
            } else {
                Some(b)
            },
            None => Some(b),
        },
        None => next,
    }
}

/// Takes a text apart into its pieces; a text of more than ten thousand
/// bytes is one piece of plain text.
pub fn parse_mfm(text: &str) -> (r: Vec<MfmToken>)
    ensures
        pieces_of(r@) == parse_of(text@) || pieces_of(r@) == unparsed(text@),
        may_be_parse_of(r@, text@),
{
    if text.is_empty() {
        let none: Vec<MfmToken> = Vec::new();
        proof {
            lemma_no_pieces(text@);
            lemma_unparsed(none@, text@);
        }
        return none;
    }
    match MfmPatterns::new() {
        Some(patterns) => patterns.parse(text),
        None => {
            let whole = vec![MfmToken::Text { value: text.to_owned() }];
            proof {
                lemma_one_piece(whole@, text@);
                lemma_unparsed(whole@, text@);
            }
            whole
        },
    }
}

/// Takes each of the texts apart.
pub fn parse_mfm_batch(texts: Vec<String>) -> (r: Vec<Vec<MfmToken>>)
    ensures
        r@.len() == texts@.len(),
        forall|i: int|
            0 <= i < r@.len() ==> {
                ||| pieces_of((#[trigger] r@[i])@) == parse_of(texts@[i]@)
                ||| pieces_of(r@[i]@) == unparsed(texts@[i]@)
            },
        forall|i: int| 0 <= i < r@.len() ==> may_be_parse_of((#[trigger] r@[i])@, texts@[i]@),
{
    let patterns = MfmPatterns::new();
    let mut out: Vec<Vec<MfmToken>> = Vec::new();
    let mut i: usize = 0;
    while i < texts.len()
        invariant
            i <= texts.len(),
            out@.len() == i,
            patterns matches Some(p) ==> p.wf(),
            forall|k: int| 0 <= k < i ==> may_be_parse_of((#[trigger] out@[k])@, texts@[k]@),
            forall|k: int|
                0 <= k < i ==> {
                    ||| pieces_of((#[trigger] out@[k])@) == parse_of(texts@[k]@)
                    ||| pieces_of(out@[k]@) == unparsed(texts@[k]@)
                },
        decreases texts.len() - i,
    {
        let text = texts[i].as_str();
        let tokens = match &patterns {
            Some(p) => p.parse(text),
            None => parse_mfm(text),
        };
        out.push(tokens);
        i += 1;
    }
    out
}

} // verus!
