//! The rules of the local store: no two accounts of one user on one host,
//! how cached notes are found again, and when they are dropped.
//!
//! The table of accounts is kept here as it is in memory; how it reaches the
//! disk is the caller's business, and so is the cache of notes, for which
//! this module plans the queries.

use crate::error::{ErrorView, NoteDeckError};
use crate::models::{Account, NormalizedNote};
use crate::text::{chars_of, str_eq};
use vstd::prelude::*;

verus! {

/// How long a cached note is kept, in seconds: thirty days.
pub const CACHE_RETENTION_SECS: i64 = 2592000;

/// The shortest query that the full-text index can answer, in characters.
pub const MIN_INDEXED_QUERY_CHARS: usize = 3;

/// Whether two accounts are of the same user on the same host.
pub open spec fn same_user(a: Account, b: Account) -> bool {
    a.host@ == b.host@ && a.user_id@ == b.user_id@
}

/// Whether a table holds no user of a host twice and no id twice.
pub open spec fn unique_accounts(rows: Seq<Account>) -> bool {
    forall|i: int, j: int|
        0 <= i < j < rows.len() ==> !same_user(#[trigger] rows[i], #[trigger] rows[j])
            && rows[i].id@ != rows[j].id@
}

/// The position of the account of a user on a host, or the number of rows
/// if the table has none.
pub open spec fn position_of_user(rows: Seq<Account>, host: Seq<char>, user_id: Seq<char>) -> int
    decreases rows.len(),
{
    if rows.len() == 0 {
        0
    } else if rows[0].host@ == host && rows[0].user_id@ == user_id {
        0
    } else {
        1 + position_of_user(rows.drop_first(), host, user_id)
    }
}

/// The position of the account with an id, or the number of rows if the
/// table has none.
pub open spec fn position_of_id(rows: Seq<Account>, id: Seq<char>) -> int
    decreases rows.len(),
{
    if rows.len() == 0 {
        0
    } else if rows[0].id@ == id {
        0
    } else {
        1 + position_of_id(rows.drop_first(), id)
    }
}

/// The position found is that of a row of the user, and no row of the user
/// is missed.
pub proof fn lemma_position_of_user(rows: Seq<Account>, host: Seq<char>, user_id: Seq<char>)
    ensures
        0 <= position_of_user(rows, host, user_id) <= rows.len(),
        position_of_user(rows, host, user_id) < rows.len() ==> rows[position_of_user(
            rows,
            host,
            user_id,
        )].host@ == host && rows[position_of_user(rows, host, user_id)].user_id@ == user_id,
        forall|i: int|
            0 <= i < position_of_user(rows, host, user_id) ==> !((#[trigger] rows[i]).host@ == host
                && rows[i].user_id@ == user_id),
    decreases rows.len(),
{
    if rows.len() > 0 && !(rows[0].host@ == host && rows[0].user_id@ == user_id) {
        let rest = rows.drop_first();
        lemma_position_of_user(rest, host, user_id);
        assert forall|i: int| 0 <= i < position_of_user(rows, host, user_id) implies !((
        #[trigger] rows[i]).host@ == host && rows[i].user_id@ == user_id) by {
            if i > 0 {
                assert(rows[i] == rest[i - 1]);
            }
        }
        let p = position_of_user(rest, host, user_id);
        if p < rest.len() {
            assert(rows[p + 1] == rest[p]);
        }
    }
}

/// The position found is that of a row with the id, and no row with the id
/// is missed.
pub proof fn lemma_position_of_id(rows: Seq<Account>, id: Seq<char>)
    ensures
        0 <= position_of_id(rows, id) <= rows.len(),
        position_of_id(rows, id) < rows.len() ==> rows[position_of_id(rows, id)].id@ == id,
        forall|i: int| 0 <= i < position_of_id(rows, id) ==> (#[trigger] rows[i]).id@ != id,
    decreases rows.len(),
{
    if rows.len() > 0 && rows[0].id@ != id {
        let rest = rows.drop_first();
        lemma_position_of_id(rest, id);
        assert forall|i: int| 0 <= i < position_of_id(rows, id) implies (#[trigger] rows[i]).id@
            != id by {
            if i > 0 {
                assert(rows[i] == rest[i - 1]);
            }
        }
        let p = position_of_id(rest, id);
        if p < rest.len() {
            assert(rows[p + 1] == rest[p]);
        }
    }
}

/// The row that takes the place of `existing` when the same user
/// authorizes again with `incoming`: the id stays, everything else is taken
/// from the new record.
pub open spec fn merged(existing: Account, incoming: Account) -> Account {
    Account {
        id: existing.id,
        host: existing.host,
        token: incoming.token,
        user_id: existing.user_id,
        username: incoming.username,
        display_name: incoming.display_name,
        avatar_url: incoming.avatar_url,
        software: incoming.software,
    }
}

/// What storing an account does to the table. The account of the same user
/// on the same host is updated and keeps its id; otherwise the account is
/// added, unless its id is taken, in which case nothing changes.
pub open spec fn upserted(rows: Seq<Account>, a: Account) -> Seq<Account> {
    let p = position_of_user(rows, a.host@, a.user_id@);
    if p < rows.len() {
        rows.update(p, merged(rows[p], a))
    } else if position_of_id(rows, a.id@) < rows.len() {
        rows
    } else {
        rows.push(a)
    }
}

/// Storing an account keeps the table free of doubles, and an account that
/// is stored again keeps its id: a user of a host who had a row before has
/// the row at the same place afterwards, under the same id.
pub proof fn lemma_upsert_keeps_accounts_unique(rows: Seq<Account>, a: Account)
    requires
        unique_accounts(rows),
    ensures
        unique_accounts(upserted(rows, a)),
        upserted(rows, a).len() >= rows.len(),
        forall|i: int|
            0 <= i < rows.len() ==> same_user(#[trigger] upserted(rows, a)[i], rows[i])
                && upserted(rows, a)[i].id == rows[i].id,
{
    let p = position_of_user(rows, a.host@, a.user_id@);
    lemma_position_of_user(rows, a.host@, a.user_id@);
    lemma_position_of_id(rows, a.id@);
    let after = upserted(rows, a);
    if p < rows.len() {
        assert forall|i: int, j: int| 0 <= i < j < after.len() implies !same_user(
            #[trigger] after[i],
            #[trigger] after[j],
        ) && after[i].id@ != after[j].id@ by {
            assert(!same_user(rows[i], rows[j]) && rows[i].id@ != rows[j].id@);
        }
    } else if position_of_id(rows, a.id@) < rows.len() {
    } else {
        assert forall|i: int, j: int| 0 <= i < j < after.len() implies !same_user(
            #[trigger] after[i],
            #[trigger] after[j],
        ) && after[i].id@ != after[j].id@ by {
            if j < rows.len() {
                assert(!same_user(rows[i], rows[j]) && rows[i].id@ != rows[j].id@);
            } else {
                assert(!(rows[i].host@ == a.host@ && rows[i].user_id@ == a.user_id@));
                assert(rows[i].id@ != a.id@);
            }
        }
    }
}

/// The table of accounts.
pub struct AccountTable {
    rows: Vec<Account>,
}

impl View for AccountTable {
    type V = Seq<Account>;

    closed spec fn view(&self) -> Seq<Account> {
        self.rows@
    }
}

impl AccountTable {
    /// No user of a host and no id occurs twice.
    pub open spec fn wf(&self) -> bool {
        unique_accounts(self@)
    }

    /// A table without accounts.
    pub fn new() -> (r: Self)
        ensures
            r.wf(),
            r@.len() == 0,
    {
        AccountTable { rows: Vec::new() }
    }

    fn find_user(&self, host: &str, user_id: &str) -> (p: usize)
        ensures
            p == position_of_user(self@, host@, user_id@),
            p <= self@.len(),
    {
        let mut i: usize = 0;
        proof {
            assert(self.rows@.skip(0) == self.rows@);
        }
        while i < self.rows.len() && !(str_eq(self.rows[i].host.as_str(), host) && str_eq(
            self.rows[i].user_id.as_str(),
            user_id,
        ))
            invariant
                i <= self.rows.len(),
                position_of_user(self.rows@, host@, user_id@) == i + position_of_user(
                    self.rows@.skip(i as int),
                    host@,
                    user_id@,
                ),
            decreases self.rows.len() - i,
        {
            proof {
                assert(self.rows@.skip(i as int).drop_first() == self.rows@.skip(i + 1));
            }
            i += 1;
        }
        i
    }

    fn find_id(&self, id: &str) -> (p: usize)
        ensures
            p == position_of_id(self@, id@),
            p <= self@.len(),
    {
        let mut i: usize = 0;
        proof {
            assert(self.rows@.skip(0) == self.rows@);
        }
        while i < self.rows.len() && !str_eq(self.rows[i].id.as_str(), id)
            invariant
                i <= self.rows.len(),
                position_of_id(self.rows@, id@) == i + position_of_id(
                    self.rows@.skip(i as int),
                    id@,
                ),
            decreases self.rows.len() - i,
        {
            proof {
                assert(self.rows@.skip(i as int).drop_first() == self.rows@.skip(i + 1));
            }
            i += 1;
        }
        i
    }

    /// The accounts in the order in which they were added.
    pub fn load_accounts(&self) -> (r: &Vec<Account>)
        ensures
            r@ == self@,
    {
        &self.rows
    }

    /// The account with the given id.
    pub fn get_account(&self, id: &str) -> (r: Option<&Account>)
        ensures
            match r {
                Some(a) => position_of_id(self@, id@) < self@.len() && *a == self@[position_of_id(
                    self@,
                    id@,
                )],
                None => position_of_id(self@, id@) == self@.len(),
            },
    {
        let p = self.find_id(id);
        if p < self.rows.len() {
            Some(&self.rows[p])
        } else {
            None
        }
    }

    /// The account of a user on a host.
    pub fn get_account_by_host_user(&self, host: &str, user_id: &str) -> (r: Option<&Account>)
        ensures
            match r {
                Some(a) => position_of_user(self@, host@, user_id@) < self@.len() && *a
                    == self@[position_of_user(self@, host@, user_id@)],
                None => position_of_user(self@, host@, user_id@) == self@.len(),
            },
    {
        let p = self.find_user(host, user_id);
        if p < self.rows.len() {
            Some(&self.rows[p])
        } else {
            None
        }
    }

    /// Stores an account: the account of the same user on the same host is
    /// updated and keeps its id; otherwise the account is added. An id that
    /// another account has is refused, and nothing changes.
    pub fn upsert_account(&mut self, account: Account) -> (r: Result<(), NoteDeckError>)
        requires
            old(self).wf(),
        ensures
            final(self).wf(),
            final(self)@ == upserted(old(self)@, account),
            match r {
                Ok(_) => position_of_user(old(self)@, account.host@, account.user_id@) < old(
                    self,
                )@.len() || position_of_id(old(self)@, account.id@) == old(self)@.len(),
                Err(e) => position_of_user(old(self)@, account.host@, account.user_id@) == old(
                    self,
                )@.len() && position_of_id(old(self)@, account.id@) < old(self)@.len() && e@
                    == ErrorView::Database("UNIQUE constraint failed: accounts.id"@),
            },
    {
        proof {
            lemma_upsert_keeps_accounts_unique(self@, account);
        }
        let p = self.find_user(account.host.as_str(), account.user_id.as_str());
        if p < self.rows.len() {
            let row = Account {
                id: self.rows[p].id.clone(),
                host: self.rows[p].host.clone(),
                token: account.token,
                user_id: self.rows[p].user_id.clone(),
                username: account.username,
                display_name: account.display_name,
                avatar_url: account.avatar_url,
                software: account.software,
            };
            self.rows.set(p, row);
            return Ok(());
        }
        let q = self.find_id(account.id.as_str());
        if q < self.rows.len() {
            return Err(NoteDeckError::Database("UNIQUE constraint failed: accounts.id".to_owned()));
        }
        self.rows.push(account);
        Ok(())
    }

    /// Clears the stored token of the account with the given id, once the
    /// keychain holds it.
    pub fn clear_token(&mut self, id: &str)
        requires
            old(self).wf(),
        ensures
            final(self).wf(),
            final(self)@.len() == old(self)@.len(),
            forall|i: int|
                0 <= i < old(self)@.len() ==> {
                    let before = #[trigger] old(self)@[i];
                    let after = final(self)@[i];
                    &&& after.id == before.id
                    &&& after.host == before.host
                    &&& after.user_id == before.user_id
                    &&& after.username == before.username
                    &&& after.display_name == before.display_name
                    &&& after.avatar_url == before.avatar_url
                    &&& after.software == before.software
                    &&& if before.id@ == id@ {
                        after.token@.len() == 0
                    } else {
                        after.token == before.token
                    }
                },
    {
        let p = self.find_id(id);
        proof {
            lemma_position_of_id(self@, id@);
        }
        if p < self.rows.len() {
            let ghost before = self.rows@;
            let row = Account {
                id: self.rows[p].id.clone(),
                host: self.rows[p].host.clone(),
                token: String::new(),
                user_id: self.rows[p].user_id.clone(),
                username: self.rows[p].username.clone(),
                display_name: match &self.rows[p].display_name {
                    Some(n) => Some(n.clone()),
                    None => None,
                },
                avatar_url: match &self.rows[p].avatar_url {
                    Some(u) => Some(u.clone()),
                    None => None,
                },
                software: self.rows[p].software.clone(),
            };
            self.rows.set(p, row);
            proof {
                let after = self.rows@;
                assert forall|i: int, j: int| 0 <= i < j < after.len() implies !same_user(
                    #[trigger] after[i],
                    #[trigger] after[j],
                ) && after[i].id@ != after[j].id@ by {
                    assert(!same_user(before[i], before[j]) && before[i].id@ != before[j].id@);
                }
                assert forall|i: int| 0 <= i < before.len() && i != p implies (
                #[trigger] before[i]).id@ != id@ by {
                    if i < p {
                    } else {
                        assert(before[p as int].id@ != before[i].id@);
                    }
                }
            }
        }
    }

    /// Removes the account with the given id.
    pub fn delete_account(&mut self, id: &str)
        requires
            old(self).wf(),
        ensures
            final(self).wf(),
            final(self)@ == if position_of_id(old(self)@, id@) < old(self)@.len() {
                old(self)@.remove(position_of_id(old(self)@, id@))
            } else {
                old(self)@
            },
    {
        let p = self.find_id(id);
        if p < self.rows.len() {
            let ghost before = self.rows@;
            self.rows.remove(p);
            proof {
                let after = self.rows@;
                assert forall|i: int, j: int| 0 <= i < j < after.len() implies !same_user(
                    #[trigger] after[i],
                    #[trigger] after[j],
                ) && after[i].id@ != after[j].id@ by {
                    let i0 = if i < p {
                        i
                    } else {
                        i + 1
                    };
                    let j0 = if j < p {
                        j
                    } else {
                        j + 1
                    };
                    assert(after[i] == before[i0]);
                    assert(after[j] == before[j0]);
                    assert(!same_user(before[i0], before[j0]) && before[i0].id@ != before[j0].id@);
                }
            }
        }
    }
}

/// How the cache of notes is searched.
#[derive(Debug, Clone, PartialEq, Eq)]
pub enum SearchPlan {
    /// By the full-text index, for the phrase `match_expr`.
    Phrase { match_expr: String },
    /// By comparing the text of every note with `pattern`.
    Substring { pattern: String },
}

/// A text with every double quote doubled.
pub open spec fn escape_quotes(q: Seq<char>) -> Seq<char>
    decreases q.len(),
{
    if q.len() == 0 {
        Seq::empty()
    } else if q.last() == '"' {
        escape_quotes(q.drop_last()).push('"').push('"')
    } else {
        escape_quotes(q.drop_last()).push(q.last())
    }
}

/// The expression that asks the full-text index for a phrase.
pub open spec fn phrase_of(q: Seq<char>) -> Seq<char> {
    seq!['"'] + escape_quotes(q) + seq!['"']
}

/// The pattern that a note's text is compared with.
pub open spec fn pattern_of(q: Seq<char>) -> Seq<char> {
    seq!['%'] + q + seq!['%']
}

/// Plans the search for a query: the full-text index answers queries of
/// three characters and more; a shorter query is compared with every text.
pub fn search_plan(query: &str) -> (r: SearchPlan)
    ensures
        match r {
            SearchPlan::Phrase { match_expr } => query@.len() >= 3 && match_expr@ == phrase_of(
                query@,
            ),
            SearchPlan::Substring { pattern } => query@.len() < 3 && pattern@ == pattern_of(query@),
        },
{
    let cs = chars_of(query);
    if cs.len() >= MIN_INDEXED_QUERY_CHARS {
        let mut out = String::new();
        out.push('"');
        let mut i: usize = 0;
        proof {
            assert(cs@.take(0) =~= Seq::empty());
        }
        while i < cs.len()
            invariant
                i <= cs.len(),
                out@ == seq!['"'] + escape_quotes(cs@.take(i as int)),
            decreases cs.len() - i,
        {
            proof {
                assert(cs@.take(i + 1).drop_last() == cs@.take(i as int));
                assert(cs@.take(i + 1).last() == cs@[i as int]);
            }
            if cs[i] == '"' {
                out.push('"');
                out.push('"');
            } else {
                out.push(cs[i]);
            }
            i += 1;
        }
        out.push('"');
        proof {
            assert(cs@.take(cs.len() as int) == cs@);
        }
        SearchPlan::Phrase { match_expr: out }
    } else {
        let mut out = String::new();
        out.push('%');
        let mut i: usize = 0;
        while i < cs.len()
            invariant
                i <= cs.len(),
                out@ == seq!['%'] + cs@.take(i as int),
            decreases cs.len() - i,
        {
            out.push(cs[i]);
            i += 1;
        }
        out.push('%');
        proof {
            assert(cs@.take(cs.len() as int) == cs@);
        }
        SearchPlan::Substring { pattern: out }
    }
}

/// The time before which a cached note is too old, for a clock that reads
/// `now` seconds: thirty days earlier.
pub open spec fn cutoff_of(now: u64) -> int {
    (if now > i64::MAX {
        i64::MAX as int
    } else {
        now as int
    }) - 2592000
}

/// The time before which a cached note is too old.
pub fn cleanup_cutoff(now_secs: u64) -> (r: i64)
    ensures
        r == cutoff_of(now_secs),
{
    let now: i64 = if now_secs > 9223372036854775807u64 {
        9223372036854775807i64
    } else {
        now_secs as i64
    };
    now - CACHE_RETENTION_SECS
}

/// Whether a note cached at `cached_at` is dropped when the cache is cleaned
/// at `now`: it is if it was cached more than thirty days earlier.
pub fn is_expired(cached_at: i64, now_secs: u64) -> (r: bool)
    ensures
        r == (cached_at < cutoff_of(now_secs)),
{
    cached_at < cleanup_cutoff(now_secs)
}

/// A note that was cached more than thirty days before the cache is cleaned
/// is dropped, and a note that was cached later is kept.
pub proof fn lemma_notes_expire_after_thirty_days(cached_at: i64, now: u64)
    requires
        now <= i64::MAX,
    ensures
        cached_at + 2592000 < now ==> cached_at < cutoff_of(now),
        cached_at + 2592000 >= now ==> !(cached_at < cutoff_of(now)),
{
}

/// A row of the cache of notes: the note as text, and beside it what it is
/// found by.
#[derive(Debug, Clone, PartialEq, Eq)]
pub struct NoteRow {
    pub note_id: String,
    pub account_id: String,
    pub server_host: String,
    pub created_at: String,
    pub text: Option<String>,
    pub note_json: String,
    pub cached_at: i64,
}

/// The row under which a note is cached at the time `now`, given the note
/// as text.
pub fn note_row(note: &NormalizedNote, note_json: String, now: i64) -> (r: NoteRow)
    ensures
        r.note_id == note.id,
        r.account_id == note.account_id,
        r.server_host == note.server_host,
        r.created_at == note.created_at,
        r.text == note.text,
        r.note_json == note_json,
        r.cached_at == now,
{
    NoteRow {
        note_id: note.id.clone(),
        account_id: note.account_id.clone(),
        server_host: note.server_host.clone(),
        created_at: note.created_at.clone(),
        text: match &note.text {
            Some(t) => Some(t.clone()),
            None => None,
        },
        note_json,
        cached_at: now,
    }
}

} // verus!
