//! Pending authorization sessions: each can be completed once, within
//! fifteen minutes, and only for the host it was begun for.

use crate::assoc::{distinct_keys, entry_map, find_key, lemma_entry_map};
use crate::error::{ErrorView, NoteDeckError};
use crate::text::str_eq;
use vstd::prelude::*;

verus! {

/// A reading of the monotonic clock, `std::time::Instant`.
#[verifier::external_type_specification]
#[verifier::external_body]
pub struct ExInstant(std::time::Instant);

/// `Instant::now`: the present reading of the monotonic clock.
#[verifier::external_body]
pub(crate) fn instant_now() -> (r: std::time::Instant) {
    std::time::Instant::now()
}

/// `Instant::elapsed`: the time that has passed since the reading was taken.
/// It depends on the clock, so nothing is claimed.
#[verifier::external_body]
pub(crate) fn elapsed_since(start: &std::time::Instant) -> (r: core::time::Duration) {
    start.elapsed()
}

/// `Duration::as_secs`: the whole seconds of a span of time. Nothing is
/// claimed of the number.
pub assume_specification[ core::time::Duration::as_secs ](d: &core::time::Duration) -> (r: u64)
;

/// How long a session can be completed, in seconds.
pub const AUTH_SESSION_TTL_SECS: u64 = 900;

/// The seconds that passed between two readings of the clock; none if the
/// second reading is the earlier one.
pub open spec fn seconds_between(created: u64, now: u64) -> int {
    if now >= created {
        now - created
    } else {
        0
    }
}

/// Whether a session begun at `created` can still be completed at `now`.
pub open spec fn is_live(created: u64, now: u64) -> bool {
    seconds_between(created, now) < 900
}

/// The sessions that can still be completed at `now`.
pub open spec fn live_sessions(
    sessions: Map<Seq<char>, (String, u64)>,
    now: u64,
) -> Map<Seq<char>, (String, u64)> {
    Map::new(
        |id: Seq<char>| sessions.contains_key(id) && is_live(sessions[id].1, now),
        |id: Seq<char>| sessions[id],
    )
}

/// What an attempt to complete the session `id` for `host` at `now` comes
/// to: the session must be pending, not older than fifteen minutes, and
/// begun for the same host.
pub open spec fn consume_result(
    sessions: Map<Seq<char>, (String, u64)>,
    id: Seq<char>,
    host: Seq<char>,
    now: u64,
) -> Result<(), ErrorView> {
    if !sessions.contains_key(id) {
        Err(ErrorView::Auth("Invalid or already consumed auth session"@))
    } else if !is_live(sessions[id].1, now) {
        Err(ErrorView::Auth("Auth session expired"@))
    } else if sessions[id].0@ != host {
        Err(ErrorView::Auth("Host mismatch"@))
    } else {
        Ok(())
    }
}

/// The pending authorization sessions. Time is read from a monotonic clock
/// and counted in whole seconds since the tracker was made.
pub struct AuthSessionTracker {
    started: std::time::Instant,
    sessions: Vec<(String, (String, u64))>,
}

impl View for AuthSessionTracker {
    type V = Map<Seq<char>, (String, u64)>;

    /// The pending sessions: for each id the host and the time of
    /// registration.
    closed spec fn view(&self) -> Map<Seq<char>, (String, u64)> {
        entry_map(self.sessions@)
    }
}

impl AuthSessionTracker {
    /// No id is held twice.
    pub closed spec fn wf(&self) -> bool {
        distinct_keys(self.sessions@)
    }

    /// A tracker without sessions.
    pub fn new() -> (r: Self)
        ensures
            r.wf(),
            r@ == Map::<Seq<char>, (String, u64)>::empty(),
    {
        AuthSessionTracker { started: instant_now(), sessions: Vec::new() }
    }

    /// The seconds since the tracker was made.
    pub fn now(&self) -> (r: u64) {
        let d = elapsed_since(&self.started);
        d.as_secs()
    }

    fn purge(&mut self, now: u64)
        requires
            old(self).wf(),
        ensures
            final(self).wf(),
            final(self)@ == live_sessions(old(self)@, now),
    {
        let ghost items = self.sessions@;
        let mut kept: Vec<(String, (String, u64))> = Vec::new();
        let mut i: usize = 0;
        while i < self.sessions.len()
            invariant
                i <= self.sessions.len(),
                self.sessions@ == items,
                distinct_keys(items),
                distinct_keys(kept@),
                forall|k: int|
                    0 <= k < kept@.len() ==> exists|j: int|
                        0 <= j < i && (#[trigger] items[j]).0@ == (#[trigger] kept@[k]).0@
                            && items[j].1 == kept@[k].1 && is_live(items[j].1.1, now),
                forall|j: int|
                    0 <= j < i && is_live((#[trigger] items[j]).1.1, now) ==> exists|k: int|
                        0 <= k < kept@.len() && (#[trigger] kept@[k]).0@ == items[j].0@,
            decreases self.sessions.len() - i,
        {
            let entry = &self.sessions[i];
            let created = entry.1.1;
            let elapsed: u64 = if now >= created {
                now - created
            } else {
                0
            };
            if elapsed < AUTH_SESSION_TTL_SECS {
                let ghost old_kept = kept@;
                kept.push((entry.0.clone(), (entry.1.0.clone(), created)));
                proof {
                    let added = kept@[old_kept.len() as int];
                    assert forall|a: int, b: int| 0 <= a < b < kept@.len() implies (
                    #[trigger] kept@[a]).0@ != (#[trigger] kept@[b]).0@ by {
                        if b < old_kept.len() {
                            assert(old_kept[a].0@ != old_kept[b].0@);
                        } else {
                            let j = choose|j: int|
                                0 <= j < i && (#[trigger] items[j]).0@ == (
                                #[trigger] old_kept[a]).0@ && items[j].1 == old_kept[a].1
                                    && is_live(items[j].1.1, now);
                            assert(items[j].0@ != items[i as int].0@);
                        }
                    }
                    assert forall|k: int| 0 <= k < kept@.len() implies exists|j: int|
                        0 <= j < i + 1 && (#[trigger] items[j]).0@ == (#[trigger] kept@[k]).0@
                            && items[j].1 == kept@[k].1 && is_live(items[j].1.1, now) by {
                        if k < old_kept.len() {
                            let j = choose|j: int|
                                0 <= j < i && (#[trigger] items[j]).0@ == (
                                #[trigger] old_kept[k]).0@ && items[j].1 == old_kept[k].1
                                    && is_live(items[j].1.1, now);
                            assert(items[j].0@ == kept@[k].0@);
                        } else {
                            assert(items[i as int].0@ == kept@[k].0@);
                        }
                    }
                    assert forall|j: int|
                        0 <= j < i + 1 && is_live((#[trigger] items[j]).1.1, now) implies exists|
                        k: int,
                    |
                        0 <= k < kept@.len() && (#[trigger] kept@[k]).0@ == items[j].0@ by {
                        if j < i {
                            let k = choose|k: int|
                                0 <= k < old_kept.len() && (#[trigger] old_kept[k]).0@
                                    == items[j].0@;
                            assert(kept@[k].0@ == items[j].0@);
                        } else {
                            assert(added.0@ == items[j].0@);
                        }
                    }
                }
            }
            i += 1;
        }
        self.sessions = kept;
        proof {
            let after = self.sessions@;
            lemma_entry_map(items);
            lemma_entry_map(after);
            let want = live_sessions(entry_map(items), now);
            assert forall|id: Seq<char>| entry_map(after).contains_key(id) <==> want.contains_key(
                id,
            ) by {
                if entry_map(after).contains_key(id) {
                    let k = choose|k: int| 0 <= k < after.len() && (#[trigger] after[k]).0@ == id;
                    let j = choose|j: int|
                        0 <= j < items.len() && (#[trigger] items[j]).0@ == (
                        #[trigger] after[k]).0@ && items[j].1 == after[k].1 && is_live(
                            items[j].1.1,
                            now,
                        );
                    assert(entry_map(items)[items[j].0@] == items[j].1);
                }
                if want.contains_key(id) {
                    let j = choose|j: int| 0 <= j < items.len() && (#[trigger] items[j]).0@ == id;
                    assert(entry_map(items)[items[j].0@] == items[j].1);
                    let k = choose|k: int|
                        0 <= k < after.len() && (#[trigger] after[k]).0@ == items[j].0@;
                    assert(after[k].0@ == id);
                }
            }
            assert forall|id: Seq<char>| entry_map(after).contains_key(id) implies entry_map(
                after,
            )[id] == want[id] by {
                let k = choose|k: int| 0 <= k < after.len() && (#[trigger] after[k]).0@ == id;
                let j = choose|j: int|
                    0 <= j < items.len() && (#[trigger] items[j]).0@ == (#[trigger] after[k]).0@
                        && items[j].1 == after[k].1 && is_live(items[j].1.1, now);
                assert(entry_map(items)[items[j].0@] == items[j].1);
                assert(entry_map(after)[after[k].0@] == after[k].1);
            }
            assert(entry_map(after) =~= want);
        }
    }

    /// Registers the session `session_id` for `host` at the time `now`.
    /// Sessions that can no longer be completed at `now` are dropped first.
    pub fn register_at(&mut self, session_id: &str, host: &str, now: u64)
        requires
            old(self).wf(),
        ensures
            final(self).wf(),
            final(self)@.dom() == live_sessions(old(self)@, now).dom().insert(session_id@),
            final(self)@[session_id@].0@ == host@,
            final(self)@[session_id@].1 == now,
            forall|id: Seq<char>|
                id != session_id@ && #[trigger] final(self)@.contains_key(id) ==> final(self)@[id]
                    == old(self)@[id],
    {
        self.purge(now);
        let ghost purged = self@;
        crate::assoc::upsert(&mut self.sessions, session_id.to_owned(), (host.to_owned(), now));
        proof {
            assert(self@.dom() =~= purged.dom().insert(session_id@));
        }
    }

    /// Registers the session `session_id` for `host` now.
    pub fn register(&mut self, session_id: &str, host: &str)
        requires
            old(self).wf(),
        ensures
            final(self).wf(),
            final(self)@.contains_key(session_id@),
            final(self)@[session_id@].0@ == host@,
    {
        let now = self.now();
        self.register_at(session_id, host, now);
    }

    /// Completes the session `session_id` for `host` at the time `now`. The
    /// session is no longer pending afterwards, whatever the outcome.
    pub fn consume_at(&mut self, session_id: &str, host: &str, now: u64) -> (r: Result<
        (),
        NoteDeckError,
    >)
        requires
            old(self).wf(),
        ensures
            final(self).wf(),
            final(self)@ == old(self)@.remove(session_id@),
            match r {
                Ok(_) => consume_result(old(self)@, session_id@, host@, now) is Ok,
                Err(e) => consume_result(old(self)@, session_id@, host@, now) == Err::<
                    (),
                    ErrorView,
                >(e@),
            },
    {
        let ghost items = self.sessions@;
        proof {
            lemma_entry_map(items);
        }
        let i = match find_key(&self.sessions, session_id) {
            Some(i) => i,
            None => {
                proof {
                    assert(self@ =~= self@.remove(session_id@));
                }
                return Err(
                    NoteDeckError::Auth("Invalid or already consumed auth session".to_owned()),
                );
            },
        };
        let entry = self.sessions.remove(i);
        proof {
            let after = self.sessions@;
            assert(entry == items[i as int]);
            assert forall|a: int, b: int| 0 <= a < b < after.len() implies (
            #[trigger] after[a]).0@ != (#[trigger] after[b]).0@ by {
                let a0 = if a < i {
                    a
                } else {
                    a + 1
                };
                let b0 = if b < i {
                    b
                } else {
                    b + 1
                };
                assert(after[a] == items[a0]);
                assert(after[b] == items[b0]);
                assert(items[a0].0@ != items[b0].0@);
            }
            lemma_entry_map(after);
            let want = entry_map(items).remove(session_id@);
            assert forall|id: Seq<char>| entry_map(after).contains_key(id) <==> want.contains_key(
                id,
            ) by {
                if entry_map(after).contains_key(id) {
                    let k = choose|k: int| 0 <= k < after.len() && (#[trigger] after[k]).0@ == id;
                    let k0 = if k < i {
                        k
                    } else {
                        k + 1
                    };
                    assert(after[k] == items[k0]);
                    if k0 < i {
                        assert(items[k0].0@ != items[i as int].0@);
                    } else {
                        assert(items[i as int].0@ != items[k0].0@);
                    }
                }
                if want.contains_key(id) {
                    let j = choose|j: int| 0 <= j < items.len() && (#[trigger] items[j]).0@ == id;
                    let k = if j < i {
                        j
                    } else {
                        j - 1
                    };
                    assert(after[k] == items[j]);
                    assert(after[k].0@ == id);
                }
            }
            assert forall|id: Seq<char>| entry_map(after).contains_key(id) implies entry_map(
                after,
            )[id] == want[id] by {
                let k = choose|k: int| 0 <= k < after.len() && (#[trigger] after[k]).0@ == id;
                let k0 = if k < i {
                    k
                } else {
                    k + 1
                };
                assert(after[k] == items[k0]);
                assert(entry_map(items)[items[k0].0@] == items[k0].1);
                assert(entry_map(after)[after[k].0@] == after[k].1);
            }
            assert(entry_map(after) =~= want);
            assert(entry_map(items)[items[i as int].0@] == items[i as int].1);
        }
        let created = entry.1.1;
        let elapsed: u64 = if now >= created {
            now - created
        } else {
            0
        };
        if elapsed >= AUTH_SESSION_TTL_SECS {
            return Err(NoteDeckError::Auth("Auth session expired".to_owned()));
        }
        if !str_eq(entry.1.0.as_str(), host) {
            return Err(NoteDeckError::Auth("Host mismatch".to_owned()));
        }
        Ok(())
    }

    /// Completes the session `session_id` for `host` now. It fails for a
    /// session that is not pending, and a session is no longer pending once
    /// this was called for it.
    pub fn consume(&mut self, session_id: &str, host: &str) -> (r: Result<(), NoteDeckError>)
        requires
            old(self).wf(),
        ensures
            final(self).wf(),
            final(self)@ == old(self)@.remove(session_id@),
            exists|now: u64|
                match r {
                    Ok(_) => #[trigger] consume_result(old(self)@, session_id@, host@, now) is Ok,
                    Err(e) => consume_result(old(self)@, session_id@, host@, now) == Err::<
                        (),
                        ErrorView,
                    >(e@),
                },
    {
        let now = self.now();
        self.consume_at(session_id, host, now)
    }
}

/// A session is completed at most once: after any attempt to complete it,
/// with whatever outcome, a further attempt fails as a replay until the
/// session is registered anew. And an attempt succeeds only for a pending
/// session, less than fifteen minutes after its registration, for the host
/// it was registered for.
pub proof fn lemma_consume_at_most_once(
    sessions: Map<Seq<char>, (String, u64)>,
    id: Seq<char>,
    host: Seq<char>,
    now: u64,
    later_host: Seq<char>,
    later: u64,
)
    ensures
        consume_result(sessions.remove(id), id, later_host, later) == Err::<(), ErrorView>(
            ErrorView::Auth("Invalid or already consumed auth session"@),
        ),
        consume_result(sessions, id, host, now) is Ok ==> sessions.contains_key(id)
            && seconds_between(sessions[id].1, now) < 900 && sessions[id].0@ == host,
{
}

} // verus!
