//! What a marked-up text is taken apart into.
//!
//! The pieces of a text are defined here over its bytes, rule by rule. What
//! a pattern matches in a text is left to the pattern engine and only named
//! ([`regex_captures`]); everything that is done with the matches is stated.

use crate::assoc::entry_map;
use crate::json::{json_of, Json};
use crate::mfm::{
    begin_of, bytes_at, end_of, first_accepted, group, span_ok, twemoji_url, usable_captures,
    Accept, BlockKind, BlockMatch, InlineMatch, MfmToken, MAX_MFM_LENGTH, P_BOLD, P_CUSTOM_EMOJI, P_FN_ARGS, P_FN_NAME,
    P_HASHTAG, P_INLINE_CODE, P_ITALIC, P_LINK, P_MENTION, P_STRIKE, P_UNICODE_EMOJI, P_URL,
};
use crate::text::{first_index_of, split};
use vstd::prelude::*;
use vstd::utf8::{decode_utf8, encode_utf8, is_char_boundary};

verus! {

/// A piece of marked-up text, as a value.
pub ghost enum Piece {
    Text { value: Seq<char> },
    Url { value: Seq<char> },
    Link { label: Seq<char>, url: Seq<char> },
    Mention { username: Seq<char>, host: Option<Seq<char>>, acct: Seq<char> },
    Hashtag { value: Seq<char> },
    Bold { value: Seq<char> },
    Italic { value: Seq<char> },
    Strike { value: Seq<char> },
    InlineCode { value: Seq<char> },
    CustomEmoji { shortcode: Seq<char> },
    UnicodeEmoji { value: Seq<char>, url: Seq<char> },
    Fn { name: Seq<char>, args: Map<Seq<char>, Json>, children: Seq<Piece> },
    Small { children: Seq<Piece> },
    Center { children: Seq<Piece> },
    Plain { value: Seq<char> },
}

/// The arguments of a function, by name.
pub open spec fn args_view(args: Seq<(String, serde_json::Value)>) -> Map<Seq<char>, Json> {
    entry_map(args).map_values(|v: serde_json::Value| json_of(v))
}

/// The value of a piece.
pub open spec fn piece_of(token: MfmToken) -> Piece
    decreases token,
{
    match token {
        MfmToken::Text { value } => Piece::Text { value: value@ },
        MfmToken::Url { value } => Piece::Url { value: value@ },
        MfmToken::Link { label, url } => Piece::Link { label: label@, url: url@ },
        MfmToken::Mention { username, host, acct } => Piece::Mention {
            username: username@,
            host: match host {
                Some(h) => Some(h@),
                None => None,
            },
            acct: acct@,
        },
        MfmToken::Hashtag { value } => Piece::Hashtag { value: value@ },
        MfmToken::Bold { value } => Piece::Bold { value: value@ },
        MfmToken::Italic { value } => Piece::Italic { value: value@ },
        MfmToken::Strike { value } => Piece::Strike { value: value@ },
        MfmToken::InlineCode { value } => Piece::InlineCode { value: value@ },
        MfmToken::CustomEmoji { shortcode } => Piece::CustomEmoji { shortcode: shortcode@ },
        MfmToken::UnicodeEmoji { value, url } => Piece::UnicodeEmoji { value: value@, url: url@ },
        MfmToken::Fn { name, args, children } => Piece::Fn {
            name: name@,
            args: args_view(args@),
            children: Seq::new(
                children@.len(),
                |i: int|
                    if 0 <= i < children@.len() {
                        piece_of(children@[i])
                    } else {
                        Piece::Text { value: Seq::empty() }
                    },
            ),
        },
        MfmToken::Small { children } => Piece::Small {
            children: Seq::new(
                children@.len(),
                |i: int|
                    if 0 <= i < children@.len() {
                        piece_of(children@[i])
                    } else {
                        Piece::Text { value: Seq::empty() }
                    },
            ),
        },
        MfmToken::Center { children } => Piece::Center {
            children: Seq::new(
                children@.len(),
                |i: int|
                    if 0 <= i < children@.len() {
                        piece_of(children@[i])
                    } else {
                        Piece::Text { value: Seq::empty() }
                    },
            ),
        },
        MfmToken::Plain { value } => Piece::Plain { value: value@ },
    }
}

/// The values of a list of pieces.
pub open spec fn pieces_of(tokens: Seq<MfmToken>) -> Seq<Piece> {
    Seq::new(tokens.len(), |i: int| piece_of(tokens[i]))
}

/// The value of a function is made of the values of what it is applied to.
pub proof fn lemma_fn_piece(token: MfmToken)
    requires
        token is Fn,
    ensures
        piece_of(token) == (Piece::Fn {
            name: token->name@,
            args: args_view(token->args@),
            children: pieces_of(token->Fn_children@),
        }),
{
    assert(piece_of(token)->Fn_children =~= pieces_of(token->Fn_children@));
}

/// The value of small text is made of the values of its pieces.
pub proof fn lemma_small_piece(token: MfmToken)
    requires
        token is Small,
    ensures
        piece_of(token) == (Piece::Small { children: pieces_of(token->Small_children@) }),
{
    assert(piece_of(token)->Small_children =~= pieces_of(token->Small_children@));
}

/// The value of centred text is made of the values of its pieces.
pub proof fn lemma_center_piece(token: MfmToken)
    requires
        token is Center,
    ensures
        piece_of(token) == (Piece::Center { children: pieces_of(token->Center_children@) }),
{
    assert(piece_of(token)->Center_children =~= pieces_of(token->Center_children@));
}

/// The values of a list with one more piece.
pub proof fn lemma_pieces_of_push(tokens: Seq<MfmToken>, token: MfmToken)
    ensures
        pieces_of(tokens.push(token)) == pieces_of(tokens).push(piece_of(token)),
{
    assert(pieces_of(tokens.push(token)) =~= pieces_of(tokens).push(piece_of(token)));
}

/// Something found in a text: the byte position where it begins, its length
/// in bytes, and the piece that it stands for.
pub ghost struct Found {
    pub start: int,
    pub len: int,
    pub piece: Piece,
}

/// What was found, as a value.
pub open spec fn found_of(m: Option<InlineMatch>) -> Option<Found> {
    match m {
        Some(x) => Some(Found { start: x.start as int, len: x.len as int, piece: piece_of(x.token) }),
        None => None,
    }
}

/// The block that was found, as a value.
pub open spec fn block_found_of(m: Option<BlockMatch>) -> Option<Found> {
    match m {
        Some(x) => Some(
            Found { start: x.index as int, len: x.consume_length as int, piece: piece_of(x.token) },
        ),
        None => None,
    }
}

/// A block and the position where it ends, as values.
pub open spec fn block_of(b: Option<(usize, MfmToken)>) -> Option<(int, Piece)> {
    match b {
        Some((end, token)) => Some((end as int, piece_of(token))),
        None => None,
    }
}

/// What was made of a tag, as a value.
pub open spec fn tag_of(t: Option<Option<(usize, MfmToken)>>) -> Option<Option<(int, Piece)>> {
    match t {
        Some(b) => Some(block_of(b)),
        None => None,
    }
}

/// A position, as a value.
pub open spec fn place_of(k: Option<usize>) -> Option<int> {
    match k {
        Some(k) => Some(k as int),
        None => None,
    }
}

/// A match with the groups `g`, standing for `piece`.
pub open spec fn found(g: Seq<Option<(nat, nat)>>, piece: Piece) -> Found {
    Found { start: begin_of(g, 0) as int, len: end_of(g, 0) - begin_of(g, 0), piece }
}

/// The first code between backticks.
pub open spec fn inline_code_in(text: Seq<char>) -> Option<Found> {
    match first_accepted(P_INLINE_CODE@, text, 0, 2, Accept::Any) {
        Some(g) => Some(found(g, Piece::InlineCode { value: group(text, g, 1) })),
        None => None,
    }
}

/// The first link with a label.
pub open spec fn link_in(text: Seq<char>) -> Option<Found> {
    match first_accepted(P_LINK@, text, 0, 3, Accept::Any) {
        Some(g) => Some(found(g, Piece::Link { label: group(text, g, 1), url: group(text, g, 2) })),
        None => None,
    }
}

/// The first bare address.
pub open spec fn url_in(text: Seq<char>) -> Option<Found> {
    match first_accepted(P_URL@, text, 0, 1, Accept::Any) {
        Some(g) => Some(found(g, Piece::Url { value: group(text, g, 0) })),
        None => None,
    }
}

/// The first custom emoji.
pub open spec fn custom_emoji_in(text: Seq<char>) -> Option<Found> {
    match first_accepted(P_CUSTOM_EMOJI@, text, 0, 2, Accept::Any) {
        Some(g) => Some(found(g, Piece::CustomEmoji { shortcode: group(text, g, 1) })),
        None => None,
    }
}

/// The first bold text.
pub open spec fn bold_in(text: Seq<char>) -> Option<Found> {
    match first_accepted(P_BOLD@, text, 0, 2, Accept::Any) {
        Some(g) => Some(found(g, Piece::Bold { value: group(text, g, 1) })),
        None => None,
    }
}

/// The first italic text: between single asterisks that are not part of a
/// pair of asterisks.
pub open spec fn italic_in(text: Seq<char>) -> Option<Found> {
    match first_accepted(P_ITALIC@, text, 0, 2, Accept::Unstarred) {
        Some(g) => Some(found(g, Piece::Italic { value: group(text, g, 1) })),
        None => None,
    }
}

/// The first struck-out text.
pub open spec fn strike_in(text: Seq<char>) -> Option<Found> {
    match first_accepted(P_STRIKE@, text, 0, 2, Accept::Any) {
        Some(g) => Some(found(g, Piece::Strike { value: group(text, g, 1) })),
        None => None,
    }
}

/// The first mention that begins where one may begin.
pub open spec fn mention_in(text: Seq<char>) -> Option<Found> {
    match first_accepted(P_MENTION@, text, 0, 2, Accept::AtBoundary) {
        Some(g) => Some(
            found(
                g,
                Piece::Mention {
                    username: group(text, g, 1),
                    host: if g.len() > 2 && g[2] is Some {
                        Some(group(text, g, 2))
                    } else {
                        None
                    },
                    acct: group(text, g, 0),
                },
            ),
        ),
        None => None,
    }
}

/// The first hashtag that begins where one may begin.
pub open spec fn hashtag_in(text: Seq<char>) -> Option<Found> {
    match first_accepted(P_HASHTAG@, text, 0, 2, Accept::AtBoundary) {
        Some(g) => Some(found(g, Piece::Hashtag { value: group(text, g, 1) })),
        None => None,
    }
}

/// The first emoji of Unicode, with the address of its picture.
pub open spec fn unicode_emoji_in(text: Seq<char>) -> Option<Found> {
    match first_accepted(P_UNICODE_EMOJI@, text, 0, 1, Accept::RealEmoji) {
        Some(g) => Some(
            found(
                g,
                Piece::UnicodeEmoji { value: group(text, g, 0), url: twemoji_url(group(text, g, 0)) },
            ),
        ),
        None => None,
    }
}

/// The one of two finds that begins first; the first of the two where they
/// begin at the same place.
pub open spec fn sooner_of(best: Option<Found>, next: Option<Found>) -> Option<Found> {
    match (best, next) {
        (Some(b), Some(n)) => if n.start < b.start {
            Some(n)
        } else {
            Some(b)
        },
        (Some(b), None) => Some(b),
        (None, n) => n,
    }
}

/// Whether `k` is the first position at or after `from` at which `needle`
/// stands in `hay`.
pub open spec fn is_first_at(hay: Seq<u8>, needle: Seq<u8>, from: int, k: int) -> bool {
    &&& from <= k
    &&& bytes_at(hay, needle, k)
    &&& forall|j: int| from <= j < k ==> !bytes_at(hay, needle, j)
}

/// The first position at or after `from` at which `needle` stands in `hay`.
#[verifier::opaque]
pub open spec fn first_at(hay: Seq<u8>, needle: Seq<u8>, from: int) -> Option<int> {
    if exists|k: int| is_first_at(hay, needle, from, k) {
        Some(choose|k: int| is_first_at(hay, needle, from, k))
    } else {
        None
    }
}

/// The first position is the only one that is the first.
pub proof fn lemma_first_at(hay: Seq<u8>, needle: Seq<u8>, from: int, k: int)
    requires
        is_first_at(hay, needle, from, k),
    ensures
        first_at(hay, needle, from) == Some(k),
{
    reveal(first_at);
    let c = choose|c: int| is_first_at(hay, needle, from, c);
    assert(!(c < k));
    assert(!(k < c));
}

/// There is no first position where `needle` stands nowhere.
pub proof fn lemma_nowhere(hay: Seq<u8>, needle: Seq<u8>, from: int)
    requires
        forall|j: int| from <= j ==> !bytes_at(hay, needle, j),
    ensures
        first_at(hay, needle, from) is None,
{
    reveal(first_at);
}

/// Where the match of a pattern that begins at the very start of `rest`
/// ends, if the pattern matches there.
pub open spec fn leading_match(pattern: Seq<char>, rest: Seq<u8>) -> Option<int> {
    match usable_captures(pattern, decode_utf8(rest), 0, 1) {
        Some(g) => if begin_of(g, 0) == 0 && end_of(g, 0) <= rest.len() {
            Some(end_of(g, 0) as int)
        } else {
            None
        },
        None => None,
    }
}

/// The name of an argument: what stands before its first equals sign, or
/// all of it.
pub open spec fn arg_name(part: Seq<char>) -> Seq<char> {
    let eq = first_index_of(part, '=');
    if 0 <= eq < part.len() {
        part.take(eq)
    } else {
        part
    }
}

/// The value of an argument: the text behind its first equals sign, or
/// `true` for an argument without one.
pub open spec fn arg_value(part: Seq<char>) -> Json {
    let eq = first_index_of(part, '=');
    if 0 <= eq < part.len() {
        Json::Str(part.skip(eq + 1))
    } else {
        Json::Bool(true)
    }
}

/// The arguments in a list of parts; a later part replaces an earlier one of
/// the same name.
pub open spec fn args_among(parts: Seq<Seq<char>>) -> Map<Seq<char>, Json>
    decreases parts.len(),
{
    if parts.len() == 0 {
        Map::empty()
    } else {
        args_among(parts.drop_last()).insert(arg_name(parts.last()), arg_value(parts.last()))
    }
}

/// The values of a list with one more entry.
pub proof fn lemma_args_view_insert(
    before: Seq<(String, serde_json::Value)>,
    after: Seq<(String, serde_json::Value)>,
    key: Seq<char>,
    value: serde_json::Value,
)
    requires
        entry_map(after) == entry_map(before).insert(key, value),
    ensures
        args_view(after) == args_view(before).insert(key, json_of(value)),
{
    assert(args_view(after) =~= args_view(before).insert(key, json_of(value)));
}

/// The arguments that a text with commas between them holds.
pub open spec fn args_in(text: Seq<char>) -> Map<Seq<char>, Json> {
    args_among(split(text, ','))
}

/// The arguments of a function whose name ends at `i`, and where they end.
/// They begin with a full stop and go up to the next whitespace or closing
/// bracket; a full stop with nothing behind it is passed over.
pub open spec fn fn_args_at(bytes: Seq<u8>, i: int) -> (Map<Seq<char>, Json>, int) {
    let len = bytes.len() as int;
    if 0 <= i < len && bytes[i] == 46 {
        let k = i + 1;
        if span_ok(bytes, 0, (k as nat, len as nat)) {
            match leading_match(P_FN_ARGS@, bytes.subrange(k, len)) {
                Some(e) => (args_in(decode_utf8(bytes.subrange(k, k + e))), k + e),
                None => (Map::empty(), k),
            }
        } else {
            (Map::empty(), k)
        }
    } else {
        (Map::empty(), i)
    }
}

/// The position of the closing bracket that ends a function whose content
/// is read from `i` on with `depth` brackets open: every `$[` opens one
/// more, every `]` closes one.
pub open spec fn closing(bytes: Seq<u8>, i: int, depth: nat) -> Option<int>
    decreases bytes.len() - i,
{
    if i < 0 || i >= bytes.len() {
        None
    } else if bytes.len() - i >= 2 && bytes[i] == 36 && bytes[i + 1] == 91 {
        closing(bytes, i + 2, depth + 1)
    } else if bytes[i] == 93 {
        if depth <= 1 {
            Some(i)
        } else {
            closing(bytes, i + 1, (depth - 1) as nat)
        }
    } else {
        closing(bytes, i + 1, depth)
    }
}

/// The function `$[name.args content]` that begins at `pos`: where it ends
/// and the piece that it is. `inner` gives the pieces of its content.
pub open spec fn fn_block_at(bytes: Seq<u8>, pos: int, inner: spec_fn(Seq<u8>) -> Seq<Piece>) -> Option<
    (int, Piece),
> {
    let len = bytes.len() as int;
    if pos < 0 || pos + 2 > len || bytes[pos] != 36 || bytes[pos + 1] != 91 {
        None
    } else if !span_ok(bytes, 0, ((pos + 2) as nat, len as nat)) {
        None
    } else {
        match leading_match(P_FN_NAME@, bytes.subrange(pos + 2, len)) {
            None => None,
            Some(n) => {
                let name = decode_utf8(bytes.subrange(pos + 2, pos + 2 + n));
                let (args, at) = fn_args_at(bytes, pos + 2 + n);
                if at < 0 || at >= len || bytes[at] != 32 {
                    None
                } else {
                    match closing(bytes, at + 1, 1) {
                        None => None,
                        Some(close) => if at + 1 <= close < len && span_ok(
                            bytes,
                            0,
                            ((at + 1) as nat, close as nat),
                        ) && is_char_boundary(bytes, close + 1) {
                            Some(
                                (
                                    close + 1,
                                    Piece::Fn {
                                        name,
                                        args,
                                        children: inner(bytes.subrange(at + 1, close)),
                                    },
                                ),
                            )
                        } else {
                            None
                        },
                    }
                }
            },
        }
    }
}

/// The tag that begins at `pos` with `open` and goes up to the next
/// `close`: `None` where `open` does not stand at `pos`, `Some(None)` where
/// it stands there and nothing closes it. `inner` gives the pieces of its
/// content.
pub open spec fn tag_at(
    bytes: Seq<u8>,
    pos: int,
    open: Seq<char>,
    close: Seq<char>,
    kind: u8,
    inner: spec_fn(Seq<u8>) -> Seq<Piece>,
) -> Option<Option<(int, Piece)>> {
    let opening = encode_utf8(open);
    let ending = encode_utf8(close);
    if !bytes_at(bytes, opening, pos) {
        None
    } else {
        let from = pos + opening.len();
        match first_at(bytes, ending, from) {
            None => Some(None),
            Some(to) => if span_ok(bytes, 0, (from as nat, to as nat)) && is_char_boundary(
                bytes,
                to + ending.len(),
            ) {
                let content = bytes.subrange(from, to);
                Some(
                    Some(
                        (
                            to + ending.len(),
                            if kind == 0 {
                                Piece::Small { children: inner(content) }
                            } else if kind == 1 {
                                Piece::Center { children: inner(content) }
                            } else {
                                Piece::Plain { value: decode_utf8(content) }
                            },
                        ),
                    ),
                )
            } else {
                Some(None)
            },
        }
    }
}

/// The tag that begins at `pos`.
pub open spec fn tag_block_at(bytes: Seq<u8>, pos: int, inner: spec_fn(Seq<u8>) -> Seq<Piece>) -> Option<
    (int, Piece),
> {
    match tag_at(bytes, pos, "<small>"@, "</small>"@, 0, inner) {
        Some(small) => small,
        None => match tag_at(bytes, pos, "<center>"@, "</center>"@, 1, inner) {
            Some(center) => center,
            None => match tag_at(bytes, pos, "<plain>"@, "</plain>"@, 2, inner) {
                Some(plain) => plain,
                None => None,
            },
        },
    }
}

/// The block of the given kind that begins at `pos`.
pub open spec fn block_at(
    bytes: Seq<u8>,
    pos: int,
    kind: BlockKind,
    inner: spec_fn(Seq<u8>) -> Seq<Piece>,
) -> Option<(int, Piece)> {
    match kind {
        BlockKind::Function => fn_block_at(bytes, pos, inner),
        BlockKind::Tag => tag_block_at(bytes, pos, inner),
    }
}

/// Whether `needle` stands at `at` and a block of the given kind begins
/// there.
pub open spec fn is_block_at(
    bytes: Seq<u8>,
    needle: Seq<u8>,
    kind: BlockKind,
    inner: spec_fn(Seq<u8>) -> Seq<Piece>,
    at: int,
) -> bool {
    0 <= at < bytes.len() && bytes_at(bytes, needle, at) && block_at(bytes, at, kind, inner) is Some
}

/// Whether the first block of the given kind at a place where `needle`
/// stands begins at `at`.
pub open spec fn is_first_block_at(
    bytes: Seq<u8>,
    needle: Seq<u8>,
    kind: BlockKind,
    inner: spec_fn(Seq<u8>) -> Seq<Piece>,
    at: int,
) -> bool {
    is_block_at(bytes, needle, kind, inner, at) && forall|j: int|
        0 <= j < at ==> !is_block_at(bytes, needle, kind, inner, j)
}

/// The first block of the given kind at a place where `needle` stands.
#[verifier::opaque]
pub open spec fn first_block(
    bytes: Seq<u8>,
    needle: Seq<u8>,
    kind: BlockKind,
    inner: spec_fn(Seq<u8>) -> Seq<Piece>,
) -> Option<Found> {
    if exists|at: int| is_first_block_at(bytes, needle, kind, inner, at) {
        let at = choose|at: int| is_first_block_at(bytes, needle, kind, inner, at);
        match block_at(bytes, at, kind, inner) {
            Some((end, piece)) => Some(Found { start: at, len: end - at, piece }),
            None => None,
        }
    } else {
        None
    }
}

/// The first block is the block at the only place that is the first.
pub proof fn lemma_first_block(
    bytes: Seq<u8>,
    needle: Seq<u8>,
    kind: BlockKind,
    inner: spec_fn(Seq<u8>) -> Seq<Piece>,
    at: int,
)
    requires
        is_first_block_at(bytes, needle, kind, inner, at),
    ensures
        block_at(bytes, at, kind, inner) matches Some((end, piece)) && first_block(
            bytes,
            needle,
            kind,
            inner,
        ) == Some(Found { start: at, len: end - at, piece }),
{
    reveal(first_block);
    let c = choose|c: int| is_first_block_at(bytes, needle, kind, inner, c);
    assert(!(c < at));
    assert(!(at < c));
}

/// There is no first block where no block is.
pub proof fn lemma_no_block(
    bytes: Seq<u8>,
    needle: Seq<u8>,
    kind: BlockKind,
    inner: spec_fn(Seq<u8>) -> Seq<Piece>,
)
    requires
        forall|j: int| 0 <= j < bytes.len() ==> !is_block_at(bytes, needle, kind, inner, j),
    ensures
        first_block(bytes, needle, kind, inner) is None,
{
    reveal(first_block);
}

/// What begins first in a text, blocks before everything else and each
/// kind before the ones named after it where two begin at the same place.
#[verifier::opaque]
pub open spec fn first_construct_in(bytes: Seq<u8>, inner: spec_fn(Seq<u8>) -> Seq<Piece>) -> Option<
    Found,
> {
    let text = decode_utf8(bytes);
    let best = sooner_of(None, first_block(bytes, encode_utf8("$["@), BlockKind::Function, inner));
    let best = sooner_of(best, first_block(bytes, encode_utf8("<small>"@), BlockKind::Tag, inner));
    let best = sooner_of(best, first_block(bytes, encode_utf8("<center>"@), BlockKind::Tag, inner));
    let best = sooner_of(best, first_block(bytes, encode_utf8("<plain>"@), BlockKind::Tag, inner));
    let best = sooner_of(best, inline_code_in(text));
    let best = sooner_of(best, link_in(text));
    let best = sooner_of(best, url_in(text));
    let best = sooner_of(best, custom_emoji_in(text));
    let best = sooner_of(best, bold_in(text));
    let best = sooner_of(best, italic_in(text));
    let best = sooner_of(best, strike_in(text));
    let best = sooner_of(best, mention_in(text));
    let best = sooner_of(best, hashtag_in(text));
    sooner_of(best, unicode_emoji_in(text))
}

/// Whether what was found can be cut out of the text: it is not empty at
/// the start of the text, and it begins and ends in the text, between
/// characters.
pub open spec fn can_be_cut(bytes: Seq<u8>, f: Found) -> bool {
    &&& 0 <= f.start
    &&& 0 <= f.len
    &&& 0 < f.start + f.len <= bytes.len()
    &&& span_ok(bytes, 0, (0, f.start as nat))
    &&& span_ok(bytes, 0, ((f.start + f.len) as nat, bytes.len()))
}

/// The plain text before what was found, if there is any.
pub open spec fn text_before(bytes: Seq<u8>, f: Found) -> Seq<Piece> {
    if f.start > 0 {
        seq![Piece::Text { value: decode_utf8(bytes.subrange(0, f.start)) }]
    } else {
        Seq::empty()
    }
}

/// The pieces of a text that is not empty: the plain text up to what begins
/// first, that piece, and the pieces of what follows it; all of it as plain
/// text where nothing is found. `inner` gives the pieces of what follows
/// and of what stands inside a block.
#[verifier::opaque]
pub open spec fn pieces_with(bytes: Seq<u8>, inner: spec_fn(Seq<u8>) -> Seq<Piece>) -> Seq<Piece> {
    match first_construct_in(bytes, inner) {
        Some(f) => if can_be_cut(bytes, f) {
            text_before(bytes, f).push(f.piece) + inner(
                bytes.subrange(f.start + f.len, bytes.len() as int),
            )
        } else {
            seq![Piece::Text { value: decode_utf8(bytes) }]
        },
        None => seq![Piece::Text { value: decode_utf8(bytes) }],
    }
}

/// The pieces of the texts that are shorter than the one with the given
/// bytes.
pub open spec fn shorter(bytes: Seq<u8>) -> spec_fn(Seq<u8>) -> Seq<Piece>
    decreases bytes.len(), 0nat,
{
    |part: Seq<u8>|
        if part.len() < bytes.len() {
            pieces(part)
        } else {
            Seq::empty()
        }
}

/// The pieces of the text with the given bytes.
pub open spec fn pieces(bytes: Seq<u8>) -> Seq<Piece>
    decreases bytes.len(), 1nat,
{
    if bytes.len() == 0 {
        Seq::empty()
    } else {
        pieces_with(bytes, shorter(bytes))
    }
}

/// The pieces of a text in which something is cut out are the pieces up to
/// it, the piece itself and the pieces of what follows.
pub proof fn lemma_pieces_cut(bytes: Seq<u8>, f: Found)
    requires
        bytes.len() > 0,
        first_construct_in(bytes, shorter(bytes)) == Some(f),
        can_be_cut(bytes, f),
    ensures
        pieces(bytes) == text_before(bytes, f).push(f.piece) + pieces(
            bytes.subrange(f.start + f.len, bytes.len() as int),
        ),
{
    reveal(pieces_with);
    let rest = bytes.subrange(f.start + f.len, bytes.len() as int);
    assert(shorter(bytes)(rest) == pieces(rest));
}

/// The pieces of a text in which nothing can be cut out are the text.
pub proof fn lemma_pieces_whole(bytes: Seq<u8>)
    requires
        bytes.len() > 0,
        match first_construct_in(bytes, shorter(bytes)) {
            Some(f) => !can_be_cut(bytes, f),
            None => true,
        },
    ensures
        pieces(bytes) == seq![Piece::Text { value: decode_utf8(bytes) }],
{
    reveal(pieces_with);
}

/// The whole text as one piece of plain text; no piece for the empty text.
pub open spec fn unparsed(text: Seq<char>) -> Seq<Piece> {
    if text.len() == 0 {
        Seq::empty()
    } else {
        seq![Piece::Text { value: text }]
    }
}

/// The value of a text that was left as it is.
pub proof fn lemma_unparsed(tokens: Seq<MfmToken>, text: Seq<char>)
    requires
        if text.len() == 0 {
            tokens.len() == 0
        } else {
            tokens.len() == 1 && piece_of(tokens[0]) == (Piece::Text { value: text })
        },
    ensures
        pieces_of(tokens) == unparsed(text),
{
    assert(pieces_of(tokens) =~= unparsed(text));
}

/// What a text is taken apart into: a text of more than ten thousand bytes
/// is left as it is.
pub open spec fn parse_of(text: Seq<char>) -> Seq<Piece> {
    if text.len() == 0 || crate::text::utf8_len(text) > MAX_MFM_LENGTH {
        unparsed(text)
    } else {
        pieces(encode_utf8(text))
    }
}

} // verus!
