//! The records of the local store, the normalized shapes handed to the
//! front-end, and the raw shapes that a server sends.
//!
//! Maps keyed by text are kept as lists of entries in the order in which
//! they were read. Binary floating-point numbers are kept by their bit
//! pattern.

use crate::json;
use crate::json::json_of;
use crate::text::{ends_with, starts_with, chars_of};
use vstd::prelude::*;

verus! {

/// `zeroize::Zeroize::zeroize` on a `String`: the bytes are overwritten with
/// zeros and the string is emptied.
#[verifier::external_body]
pub(crate) fn zeroize_string(s: &mut String)
    ensures
        final(s)@ == Seq::<char>::empty(),
{
    zeroize::Zeroize::zeroize(s);
}

/// Overwrites a secret in memory and leaves it empty.
pub fn scrub(secret: &mut String)
    ensures
        final(secret)@.len() == 0,
{
    zeroize_string(secret);
}

fn copy_opt(o: &Option<String>) -> (r: Option<String>)
    ensures
        r == *o,
{
    match o {
        Some(s) => Some(s.clone()),
        None => None,
    }
}

/// An account of the local user on a server. The token is a secret: it is
/// never part of what leaves the backend, see [`AccountPublic`].
#[derive(Debug, Clone, PartialEq, Eq)]
pub struct Account {
    pub id: String,
    pub host: String,
    pub token: String,
    pub user_id: String,
    pub username: String,
    pub display_name: Option<String>,
    pub avatar_url: Option<String>,
    pub software: String,
}

impl Account {
    /// Overwrites the token in memory and leaves it empty; nothing else
    /// changes.
    pub fn scrub_token(&mut self)
        ensures
            final(self).token@.len() == 0,
            final(self).id == old(self).id,
            final(self).host == old(self).host,
            final(self).user_id == old(self).user_id,
            final(self).username == old(self).username,
            final(self).display_name == old(self).display_name,
            final(self).avatar_url == old(self).avatar_url,
            final(self).software == old(self).software,
    {
        scrub(&mut self.token);
    }
}

/// What of an account may leave the backend: all of it but the token.
#[derive(Debug, Clone, PartialEq, Eq)]
pub struct AccountPublic {
    pub id: String,
    pub host: String,
    pub user_id: String,
    pub username: String,
    pub display_name: Option<String>,
    pub avatar_url: Option<String>,
    pub software: String,
}

impl From<&Account> for AccountPublic {
    fn from(a: &Account) -> (r: AccountPublic) {
        AccountPublic {
            id: a.id.clone(),
            host: a.host.clone(),
            user_id: a.user_id.clone(),
            username: a.username.clone(),
            display_name: copy_opt(&a.display_name),
            avatar_url: copy_opt(&a.avatar_url),
            software: a.software.clone(),
        }
    }
}

impl vstd::std_specs::convert::FromSpecImpl<&Account> for AccountPublic {
    open spec fn obeys_from_spec() -> bool {
        true
    }

    open spec fn from_spec(a: &Account) -> AccountPublic {
        public_of(*a)
    }
}

/// The public form of an account: every field but the token.
pub open spec fn public_of(a: Account) -> AccountPublic {
    AccountPublic {
        id: a.id,
        host: a.host,
        user_id: a.user_id,
        username: a.username,
        display_name: a.display_name,
        avatar_url: a.avatar_url,
        software: a.software,
    }
}

/// The public forms of a list of accounts, in the same order.
pub fn public_accounts(accounts: &Vec<Account>) -> (r: Vec<AccountPublic>)
    ensures
        r@ == accounts@.map_values(|a: Account| public_of(a)),
{
    let mut out: Vec<AccountPublic> = Vec::new();
    let mut i: usize = 0;
    while i < accounts.len()
        invariant
            i <= accounts.len(),
            out@ == accounts@.take(i as int).map_values(|a: Account| public_of(a)),
        decreases accounts.len() - i,
    {
        let p = AccountPublic::from(&accounts[i]);
        out.push(p);
        proof {
            assert(accounts@.take(i + 1) == accounts@.take(i as int).push(accounts@[i as int]));
        }
        i += 1;
    }
    proof {
        assert(accounts@.take(accounts.len() as int) == accounts@);
    }
    out
}

/// What is known of a server.
#[derive(Debug, Clone, PartialEq, Eq)]
pub struct StoredServer {
    pub host: String,
    pub software: String,
    pub version: String,
    pub features_json: String,
    pub updated_at: i64,
}

/// A decoration of an avatar. The angle and the offsets are binary
/// floating-point numbers, kept by their bit pattern.
#[derive(Debug, Clone, PartialEq, Eq)]
pub struct AvatarDecoration {
    pub id: String,
    pub url: String,
    pub angle: Option<u64>,
    pub flip_h: Option<bool>,
    pub offset_x: Option<u64>,
    pub offset_y: Option<u64>,
}

/// A user as the front-end sees it. The host is `None` for a user of the
/// account's own server.
#[derive(Debug, Clone, PartialEq, Eq)]
pub struct NormalizedUser {
    pub id: String,
    pub username: String,
    pub host: Option<String>,
    pub name: Option<String>,
    pub avatar_url: Option<String>,
    pub is_bot: bool,
    pub avatar_decorations: Vec<AvatarDecoration>,
}

/// The profile of a user as the front-end sees it.
#[derive(Debug, Clone, PartialEq, Eq)]
pub struct NormalizedUserDetail {
    pub id: String,
    pub username: String,
    pub host: Option<String>,
    pub name: Option<String>,
    pub avatar_url: Option<String>,
    pub banner_url: Option<String>,
    pub description: Option<String>,
    pub followers_count: i64,
    pub following_count: i64,
    pub notes_count: i64,
    pub is_bot: bool,
    pub is_cat: bool,
    pub is_following: bool,
    pub is_followed: bool,
    pub created_at: String,
    pub avatar_decorations: Vec<AvatarDecoration>,
}

/// A choice of a poll.
#[derive(Debug, Clone, PartialEq, Eq)]
pub struct NormalizedPollChoice {
    pub text: String,
    pub votes: i64,
    pub is_voted: bool,
}

/// A poll attached to a note.
#[derive(Debug, Clone, PartialEq, Eq)]
pub struct NormalizedPoll {
    pub choices: Vec<NormalizedPollChoice>,
    pub multiple: bool,
    pub expires_at: Option<String>,
}

/// A file attached to a note.
#[derive(Debug, Clone, PartialEq, Eq)]
pub struct NormalizedDriveFile {
    pub id: String,
    pub name: String,
    pub file_type: String,
    pub url: String,
    pub thumbnail_url: Option<String>,
    pub size: i64,
    pub is_sensitive: bool,
}

/// A note in its canonical form. `account_id` and `server_host` say through
/// which account and from which server it was read; an embedded reply or
/// renote carries the same two.
#[derive(Debug, PartialEq, Eq)]
pub struct NormalizedNote {
    pub id: String,
    pub account_id: String,
    pub server_host: String,
    pub created_at: String,
    pub text: Option<String>,
    pub cw: Option<String>,
    pub user: NormalizedUser,
    pub visibility: String,
    pub emojis: Vec<(String, String)>,
    pub reaction_emojis: Vec<(String, String)>,
    pub reactions: Vec<(String, i64)>,
    pub my_reaction: Option<String>,
    pub renote_count: i64,
    pub replies_count: i64,
    pub files: Vec<NormalizedDriveFile>,
    pub poll: Option<NormalizedPoll>,
    pub reply_id: Option<String>,
    pub renote_id: Option<String>,
    pub channel_id: Option<String>,
    pub reaction_acceptance: Option<String>,
    pub uri: Option<String>,
    pub url: Option<String>,
    pub updated_at: Option<String>,
    pub local_only: bool,
    pub is_favorited: bool,
    pub mode_flags: Vec<(String, bool)>,
    pub reply: Option<Box<NormalizedNote>>,
    pub renote: Option<Box<NormalizedNote>>,
}

/// A notification, in the form that the client works with.
#[derive(Debug, PartialEq, Eq)]
pub struct NormalizedNotification {
    pub id: String,
    pub account_id: String,
    pub server_host: String,
    pub created_at: String,
    pub notification_type: String,
    pub user: Option<NormalizedUser>,
    pub note: Option<NormalizedNote>,
    pub reaction: Option<String>,
}

/// What a new note, or a change to a note, is made of.
#[derive(Debug, Clone, PartialEq, Eq)]
pub struct CreateNoteParams {
    pub text: Option<String>,
    pub cw: Option<String>,
    pub visibility: Option<String>,
    pub local_only: Option<bool>,
    pub mode_flags: Option<Vec<(String, bool)>>,
    pub reply_id: Option<String>,
    pub renote_id: Option<String>,
    pub file_ids: Option<Vec<String>>,
}

/// A pending authorization: the address to open in a browser, and the
/// session under which the token is fetched afterwards.
#[derive(Debug, Clone, PartialEq, Eq)]
pub struct AuthSession {
    pub session_id: String,
    pub url: String,
    pub host: String,
}

/// What a completed authorization yields.
#[derive(Debug, Clone, PartialEq, Eq)]
pub struct AuthResult {
    pub token: String,
    pub user: NormalizedUser,
}

/// A user as the server sends it.
#[derive(Debug, PartialEq, Eq)]
pub struct RawUser {
    pub id: String,
    pub username: String,
    pub host: Option<String>,
    pub name: Option<String>,
    pub avatar_url: Option<String>,
    pub is_bot: bool,
    pub avatar_decorations: Vec<AvatarDecoration>,
}

/// A choice of a poll as the server sends it.
#[derive(Debug, PartialEq, Eq)]
pub struct RawPollChoice {
    pub text: String,
    pub votes: i64,
    pub is_voted: bool,
}

/// A poll as the server sends it.
#[derive(Debug, PartialEq, Eq)]
pub struct RawPoll {
    pub choices: Vec<RawPollChoice>,
    pub multiple: bool,
    pub expires_at: Option<String>,
}

/// A file as the server sends it.
#[derive(Debug, PartialEq, Eq)]
pub struct RawDriveFile {
    pub id: String,
    pub name: String,
    pub file_type: String,
    pub url: String,
    pub thumbnail_url: Option<String>,
    pub size: i64,
    pub is_sensitive: bool,
}

/// A note as a server sends it. `extra` holds the members that no other
/// field takes, among them the mode flags of server variants.
#[derive(Debug, PartialEq)]
pub struct RawNote {
    pub id: String,
    pub created_at: String,
    pub text: Option<String>,
    pub cw: Option<String>,
    pub user: RawUser,
    pub visibility: String,
    pub emojis: Vec<(String, String)>,
    pub reaction_emojis: Vec<(String, String)>,
    pub reactions: Vec<(String, i64)>,
    pub my_reaction: Option<String>,
    pub renote_count: i64,
    pub replies_count: i64,
    pub files: Vec<RawDriveFile>,
    pub poll: Option<RawPoll>,
    pub reply_id: Option<String>,
    pub renote_id: Option<String>,
    pub channel_id: Option<String>,
    pub reaction_acceptance: Option<String>,
    pub uri: Option<String>,
    pub url: Option<String>,
    pub updated_at: Option<String>,
    pub local_only: bool,
    pub is_favorited: bool,
    pub reply: Option<Box<RawNote>>,
    pub renote: Option<Box<RawNote>>,
    pub extra: Vec<(String, serde_json::Value)>,
}

/// A notification as the server sends it.
#[derive(Debug, PartialEq)]
pub struct RawNotification {
    pub id: String,
    pub created_at: String,
    pub notification_type: String,
    pub user: Option<RawUser>,
    pub note: Option<RawNote>,
    pub reaction: Option<String>,
}

/// The profile of a user as the server sends it.
#[derive(Debug, PartialEq, Eq)]
pub struct RawUserDetail {
    pub id: String,
    pub username: String,
    pub host: Option<String>,
    pub name: Option<String>,
    pub avatar_url: Option<String>,
    pub banner_url: Option<String>,
    pub description: Option<String>,
    pub followers_count: i64,
    pub following_count: i64,
    pub notes_count: i64,
    pub is_bot: bool,
    pub is_cat: bool,
    pub is_following: bool,
    pub is_followed: bool,
    pub created_at: String,
    pub avatar_decorations: Vec<AvatarDecoration>,
}

/// The answer of the server to a check of an authorization session.
#[derive(Debug, PartialEq, Eq)]
pub struct RawMiAuthResponse {
    pub ok: bool,
    pub token: Option<String>,
    pub user: Option<RawUser>,
}

/// The answer of the server to a new note.
#[derive(Debug, PartialEq)]
pub struct RawCreateNoteResponse {
    pub created_note: RawNote,
}

/// A custom emoji as the server sends it.
#[derive(Debug, PartialEq, Eq)]
pub struct RawEmoji {
    pub name: String,
    pub url: String,
}

/// The custom emoji of a server as it sends them.
#[derive(Debug, PartialEq, Eq)]
pub struct RawEmojisResponse {
    pub emojis: Vec<RawEmoji>,
}

/// A reaction to a note as the server sends it.
#[derive(Debug, PartialEq, Eq)]
pub struct RawNoteReaction {
    pub id: String,
    pub created_at: String,
    pub user: RawUser,
    pub reaction_type: String,
}

/// A reaction to a note, with the user who gave it.
#[derive(Debug, Clone, PartialEq, Eq)]
pub struct NormalizedNoteReaction {
    pub id: String,
    pub created_at: String,
    pub user: NormalizedUser,
    pub reaction_type: String,
}

impl From<RawUser> for NormalizedUser {
    fn from(user: RawUser) -> (r: NormalizedUser) {
        NormalizedUser {
            id: user.id,
            username: user.username,
            host: user.host,
            name: user.name,
            avatar_url: user.avatar_url,
            is_bot: user.is_bot,
            avatar_decorations: user.avatar_decorations,
        }
    }
}

impl vstd::std_specs::convert::FromSpecImpl<RawUser> for NormalizedUser {
    open spec fn obeys_from_spec() -> bool {
        true
    }

    open spec fn from_spec(user: RawUser) -> NormalizedUser {
        user_of(user)
    }
}

/// The normalized form of a user: every field as it is.
pub open spec fn user_of(user: RawUser) -> NormalizedUser {
    NormalizedUser {
        id: user.id,
        username: user.username,
        host: user.host,
        name: user.name,
        avatar_url: user.avatar_url,
        is_bot: user.is_bot,
        avatar_decorations: user.avatar_decorations,
    }
}

impl From<RawDriveFile> for NormalizedDriveFile {
    fn from(file: RawDriveFile) -> (r: NormalizedDriveFile) {
        NormalizedDriveFile {
            id: file.id,
            name: file.name,
            file_type: file.file_type,
            url: file.url,
            thumbnail_url: file.thumbnail_url,
            size: file.size,
            is_sensitive: file.is_sensitive,
        }
    }
}

impl vstd::std_specs::convert::FromSpecImpl<RawDriveFile> for NormalizedDriveFile {
    open spec fn obeys_from_spec() -> bool {
        true
    }

    open spec fn from_spec(file: RawDriveFile) -> NormalizedDriveFile {
        drive_file_of(file)
    }
}

/// The normalized form of a file: every field as it is.
pub open spec fn drive_file_of(file: RawDriveFile) -> NormalizedDriveFile {
    NormalizedDriveFile {
        id: file.id,
        name: file.name,
        file_type: file.file_type,
        url: file.url,
        thumbnail_url: file.thumbnail_url,
        size: file.size,
        is_sensitive: file.is_sensitive,
    }
}

impl From<RawNoteReaction> for NormalizedNoteReaction {
    fn from(r: RawNoteReaction) -> (n: NormalizedNoteReaction) {
        NormalizedNoteReaction {
            id: r.id,
            created_at: r.created_at,
            user: NormalizedUser::from(r.user),
            reaction_type: r.reaction_type,
        }
    }
}

impl vstd::std_specs::convert::FromSpecImpl<RawNoteReaction> for NormalizedNoteReaction {
    open spec fn obeys_from_spec() -> bool {
        true
    }

    open spec fn from_spec(r: RawNoteReaction) -> NormalizedNoteReaction {
        reaction_of(r)
    }
}

/// The normalized form of a reaction: every field as it is, the user in
/// normalized form.
pub open spec fn reaction_of(r: RawNoteReaction) -> NormalizedNoteReaction {
    NormalizedNoteReaction {
        id: r.id,
        created_at: r.created_at,
        user: user_of(r.user),
        reaction_type: r.reaction_type,
    }
}

/// The normalized form of a poll choice.
pub open spec fn choice_of(c: RawPollChoice) -> NormalizedPollChoice {
    NormalizedPollChoice { text: c.text, votes: c.votes, is_voted: c.is_voted }
}

/// Whether `k` names a mode flag of a note: a key that begins with
/// `isNoteIn` and ends with `Mode`.
pub open spec fn is_note_mode_key(k: Seq<char>) -> bool {
    "isNoteIn"@.is_prefix_of(k) && "Mode"@.is_suffix_of(k)
}

/// The mode flag that an extra member of a note stands for, if it is one: its
/// key names a mode flag and its value is a boolean.
pub open spec fn mode_flag_of(entry: (String, serde_json::Value)) -> Option<(Seq<char>, bool)> {
    if is_note_mode_key(entry.0@) {
        match json_of(entry.1).as_bool() {
            Some(b) => Some((entry.0@, b)),
            None => None,
        }
    } else {
        None
    }
}

/// The mode flags among the extra members of a note, in their order.
pub open spec fn mode_flags_of(extra: Seq<(String, serde_json::Value)>) -> Seq<(Seq<char>, bool)>
    decreases extra.len(),
{
    if extra.len() == 0 {
        Seq::empty()
    } else {
        let rest = mode_flags_of(extra.drop_last());
        match mode_flag_of(extra.last()) {
            Some(flag) => rest.push(flag),
            None => rest,
        }
    }
}

impl NormalizedPoll {
    /// Whether this poll is the normalized form of `p`.
    pub open spec fn is_form_of(self, p: RawPoll) -> bool {
        &&& self.choices@ == p.choices@.map_values(|c: RawPollChoice| choice_of(c))
        &&& self.multiple == p.multiple
        &&& self.expires_at == p.expires_at
    }
}

impl NormalizedNote {
    /// Whether the note and every note embedded in it were read through
    /// `account` from `host`.
    pub open spec fn carries(self, account: Seq<char>, host: Seq<char>) -> bool
        decreases self,
    {
        &&& self.account_id@ == account
        &&& self.server_host@ == host
        &&& match self.reply {
            Some(r) => r.carries(account, host),
            None => true,
        }
        &&& match self.renote {
            Some(r) => r.carries(account, host),
            None => true,
        }
    }

    /// Whether this note is the normalized form of `raw` as read through
    /// `account` from `host`: every field is taken over as it is, the files
    /// and the poll in their normalized form, the mode flags are picked from
    /// the extra members, and an embedded note is the normalized form of the
    /// raw embedded note for the same account and host.
    pub open spec fn is_form_of(self, raw: RawNote, account: Seq<char>, host: Seq<char>) -> bool
        decreases raw,
    {
        &&& self.id == raw.id
        &&& self.account_id@ == account
        &&& self.server_host@ == host
        &&& self.created_at == raw.created_at
        &&& self.text == raw.text
        &&& self.cw == raw.cw
        &&& self.user == user_of(raw.user)
        &&& self.visibility == raw.visibility
        &&& self.emojis == raw.emojis
        &&& self.reaction_emojis == raw.reaction_emojis
        &&& self.reactions == raw.reactions
        &&& self.my_reaction == raw.my_reaction
        &&& self.renote_count == raw.renote_count
        &&& self.replies_count == raw.replies_count
        &&& self.files@ == raw.files@.map_values(|f: RawDriveFile| drive_file_of(f))
        &&& match raw.poll {
            Some(p) => self.poll matches Some(q) && q.is_form_of(p),
            None => self.poll is None,
        }
        &&& self.reply_id == raw.reply_id
        &&& self.renote_id == raw.renote_id
        &&& self.channel_id == raw.channel_id
        &&& self.reaction_acceptance == raw.reaction_acceptance
        &&& self.uri == raw.uri
        &&& self.url == raw.url
        &&& self.updated_at == raw.updated_at
        &&& self.local_only == raw.local_only
        &&& self.is_favorited == raw.is_favorited
        &&& self.mode_flags.deep_view() == mode_flags_of(raw.extra@)
        &&& match raw.reply {
            Some(r) => self.reply matches Some(n) && n.is_form_of(*r, account, host),
            None => self.reply is None,
        }
        &&& match raw.renote {
            Some(r) => self.renote matches Some(n) && n.is_form_of(*r, account, host),
            None => self.renote is None,
        }
    }
}

/// A normalized note, and every note embedded in it, carries the account and
/// the host it was normalized for.
pub proof fn lemma_normalized_note_carries(
    n: NormalizedNote,
    raw: RawNote,
    account: Seq<char>,
    host: Seq<char>,
)
    requires
        n.is_form_of(raw, account, host),
    ensures
        n.carries(account, host),
    decreases raw,
{
    match raw.reply {
        Some(r) => {
            lemma_normalized_note_carries(*n.reply->0, *r, account, host);
        },
        None => {},
    }
    match raw.renote {
        Some(r) => {
            lemma_normalized_note_carries(*n.renote->0, *r, account, host);
        },
        None => {},
    }
}

fn normalize_files(files: Vec<RawDriveFile>) -> (r: Vec<NormalizedDriveFile>)
    ensures
        r@ == files@.map_values(|f: RawDriveFile| drive_file_of(f)),
{
    let ghost all = files@;
    let ghost conv = |f: RawDriveFile| drive_file_of(f);
    let mut out: Vec<NormalizedDriveFile> = Vec::new();
    for f in it: files.into_iter()
        invariant
            conv == |f: RawDriveFile| drive_file_of(f),
            it.seq() == all,
            out@ == all.take(it.index() as int).map_values(conv),
    {
        proof {
            assert(all.take(it.index() + 1) == all.take(it.index() as int).push(f));
        }
        out.push(NormalizedDriveFile::from(f));
    }
    proof {
        assert(all.take(all.len() as int) == all);
    }
    out
}

fn normalize_poll(p: RawPoll) -> (r: NormalizedPoll)
    ensures
        r.is_form_of(p),
{
    let ghost all = p.choices@;
    let ghost conv = |c: RawPollChoice| choice_of(c);
    let mut out: Vec<NormalizedPollChoice> = Vec::new();
    for c in it: p.choices.into_iter()
        invariant
            conv == |c: RawPollChoice| choice_of(c),
            it.seq() == all,
            out@ == all.take(it.index() as int).map_values(conv),
    {
        proof {
            assert(all.take(it.index() + 1) == all.take(it.index() as int).push(c));
        }
        out.push(NormalizedPollChoice { text: c.text, votes: c.votes, is_voted: c.is_voted });
    }
    proof {
        assert(all.take(all.len() as int) == all);
    }
    NormalizedPoll { choices: out, multiple: p.multiple, expires_at: p.expires_at }
}

/// Whether `key` names a mode flag of a note.
pub fn note_mode_key(key: &str) -> (r: bool)
    ensures
        r == is_note_mode_key(key@),
{
    let k = chars_of(key);
    starts_with(&k, "isNoteIn") && ends_with(&k, "Mode")
}

fn pick_mode_flags(extra: &Vec<(String, serde_json::Value)>) -> (r: Vec<(String, bool)>)
    ensures
        r.deep_view() == mode_flags_of(extra@),
{
    let mut out: Vec<(String, bool)> = Vec::new();
    let mut i: usize = 0;
    proof {
        assert(extra@.take(0) =~= Seq::empty());
        assert(out.deep_view() =~= Seq::empty());
    }
    while i < extra.len()
        invariant
            i <= extra.len(),
            out.deep_view() == mode_flags_of(extra@.take(i as int)),
        decreases extra.len() - i,
    {
        let entry = &extra[i];
        proof {
            assert(extra@.take(i + 1).drop_last() == extra@.take(i as int));
            assert(extra@.take(i + 1).last() == extra@[i as int]);
        }
        if note_mode_key(entry.0.as_str()) {
            match json::as_bool(&entry.1) {
                Some(b) => {
                    let ghost before = out.deep_view();
                    out.push((entry.0.clone(), b));
                    proof {
                        assert(out.deep_view() =~= before.push((entry.0@, b)));
                    }
                },
                None => {},
            }
        }
        i += 1;
    }
    proof {
        assert(extra@.take(extra.len() as int) == extra@);
    }
    out
}

impl RawNote {
    /// The canonical form of the note as read through the account
    /// `account_id` from the server `server_host`.
    pub fn normalize(self, account_id: &str, server_host: &str) -> (n: NormalizedNote)
        ensures
            n.is_form_of(self, account_id@, server_host@),
            n.carries(account_id@, server_host@),
        decreases self,
    {
        let mode_flags = pick_mode_flags(&self.extra);
        let poll = match self.poll {
            Some(p) => Some(normalize_poll(p)),
            None => None,
        };
        let reply = match self.reply {
            Some(r) => Some(Box::new((*r).normalize(account_id, server_host))),
            None => None,
        };
        let renote = match self.renote {
            Some(r) => Some(Box::new((*r).normalize(account_id, server_host))),
            None => None,
        };
        let n = NormalizedNote {
            id: self.id,
            account_id: account_id.to_owned(),
            server_host: server_host.to_owned(),
            created_at: self.created_at,
            text: self.text,
            cw: self.cw,
            user: NormalizedUser::from(self.user),
            visibility: self.visibility,
            emojis: self.emojis,
            reaction_emojis: self.reaction_emojis,
            reactions: self.reactions,
            my_reaction: self.my_reaction,
            renote_count: self.renote_count,
            replies_count: self.replies_count,
            files: normalize_files(self.files),
            poll,
            reply_id: self.reply_id,
            renote_id: self.renote_id,
            channel_id: self.channel_id,
            reaction_acceptance: self.reaction_acceptance,
            uri: self.uri,
            url: self.url,
            updated_at: self.updated_at,
            local_only: self.local_only,
            is_favorited: self.is_favorited,
            mode_flags,
            reply,
            renote,
        };
        proof {
            lemma_normalized_note_carries(n, self, account_id@, server_host@);
        }
        n
    }
}

impl NormalizedUserDetail {
    /// Whether this profile is the normalized form of `raw`: every field is
    /// taken over as it is.
    pub open spec fn is_form_of(self, raw: RawUserDetail) -> bool {
        &&& self.id == raw.id
        &&& self.username == raw.username
        &&& self.host == raw.host
        &&& self.name == raw.name
        &&& self.avatar_url == raw.avatar_url
        &&& self.banner_url == raw.banner_url
        &&& self.description == raw.description
        &&& self.followers_count == raw.followers_count
        &&& self.following_count == raw.following_count
        &&& self.notes_count == raw.notes_count
        &&& self.is_bot == raw.is_bot
        &&& self.is_cat == raw.is_cat
        &&& self.is_following == raw.is_following
        &&& self.is_followed == raw.is_followed
        &&& self.created_at == raw.created_at
        &&& self.avatar_decorations == raw.avatar_decorations
    }
}

impl RawUserDetail {
    /// The profile as the front-end sees it.
    pub fn normalize(self) -> (n: NormalizedUserDetail)
        ensures
            n.is_form_of(self),
    {
        NormalizedUserDetail {
            id: self.id,
            username: self.username,
            host: self.host,
            name: self.name,
            avatar_url: self.avatar_url,
            banner_url: self.banner_url,
            description: self.description,
            followers_count: self.followers_count,
            following_count: self.following_count,
            notes_count: self.notes_count,
            is_bot: self.is_bot,
            is_cat: self.is_cat,
            is_following: self.is_following,
            is_followed: self.is_followed,
            created_at: self.created_at,
            avatar_decorations: self.avatar_decorations,
        }
    }
}

impl NormalizedNotification {
    /// Whether this notification is the normalized form of `raw` as read
    /// through `account` from `host`.
    pub open spec fn is_form_of(
        self,
        raw: RawNotification,
        account: Seq<char>,
        host: Seq<char>,
    ) -> bool {
        &&& self.id == raw.id
        &&& self.account_id@ == account
        &&& self.server_host@ == host
        &&& self.created_at == raw.created_at
        &&& self.notification_type == raw.notification_type
        &&& match raw.user {
            Some(u) => self.user == Some(user_of(u)),
            None => self.user is None,
        }
        &&& match raw.note {
            Some(r) => self.note matches Some(n) && n.is_form_of(r, account, host) && n.carries(
                account,
                host,
            ),
            None => self.note is None,
        }
        &&& self.reaction == raw.reaction
    }
}

impl RawNotification {
    /// The canonical form of the notification as read through the account
    /// `account_id` from the server `server_host`.
    pub fn normalize(self, account_id: &str, server_host: &str) -> (n: NormalizedNotification)
        ensures
            n.is_form_of(self, account_id@, server_host@),
    {
        NormalizedNotification {
            id: self.id,
            account_id: account_id.to_owned(),
            server_host: server_host.to_owned(),
            created_at: self.created_at,
            notification_type: self.notification_type,
            user: match self.user {
                Some(u) => Some(NormalizedUser::from(u)),
                None => None,
            },
            note: match self.note {
                Some(r) => Some(r.normalize(account_id, server_host)),
                None => None,
            },
            reaction: self.reaction,
        }
    }
}

/// The normalized forms of a list of raw notes, in the same order.
pub fn normalize_notes(raw: Vec<RawNote>, account_id: &str, server_host: &str) -> (r: Vec<
    NormalizedNote,
>)
    ensures
        r@.len() == raw@.len(),
        forall|i: int|
            0 <= i < r@.len() ==> (#[trigger] r@[i]).is_form_of(raw@[i], account_id@, server_host@)
                && r@[i].carries(account_id@, server_host@),
{
    let ghost all = raw@;
    let mut out: Vec<NormalizedNote> = Vec::new();
    for note in it: raw.into_iter()
        invariant
            it.seq() == all,
            out@.len() == it.index(),
            forall|k: int|
                0 <= k < out@.len() ==> (#[trigger] out@[k]).is_form_of(
                    all[k],
                    account_id@,
                    server_host@,
                ) && out@[k].carries(account_id@, server_host@),
    {
        out.push(note.normalize(account_id, server_host));
    }
    out
}

} // verus!
