//! Maps keyed by text, kept as lists of entries.
//!
//! A list stands for the map in which a later entry replaces an earlier one
//! with the same key. The lists that this library builds hold every key
//! once.

use crate::text::str_eq;
use vstd::prelude::*;

verus! {

/// The map that a list of entries stands for.
pub open spec fn entry_map<V>(entries: Seq<(String, V)>) -> Map<Seq<char>, V>
    decreases entries.len(),
{
    if entries.len() == 0 {
        Map::empty()
    } else {
        entry_map(entries.drop_last()).insert(entries.last().0@, entries.last().1)
    }
}

/// Whether the list holds no key twice.
pub open spec fn distinct_keys<V>(entries: Seq<(String, V)>) -> bool {
    forall|i: int, j: int|
        0 <= i < j < entries.len() ==> (#[trigger] entries[i]).0@ != (#[trigger] entries[j]).0@
}

/// Whether some entry of the list has the key `key`.
pub open spec fn has_key<V>(entries: Seq<(String, V)>, key: Seq<char>) -> bool {
    exists|i: int| 0 <= i < entries.len() && (#[trigger] entries[i]).0@ == key
}

/// In a list without repeated keys, the map holds exactly the entries of the
/// list.
pub proof fn lemma_entry_map<V>(entries: Seq<(String, V)>)
    requires
        distinct_keys(entries),
    ensures
        forall|i: int|
            0 <= i < entries.len() ==> entry_map(entries).contains_key(
                (#[trigger] entries[i]).0@,
            ) && entry_map(entries)[entries[i].0@] == entries[i].1,
        forall|k: Seq<char>| #[trigger]
            entry_map(entries).contains_key(k) ==> has_key(entries, k),
    decreases entries.len(),
{
    if entries.len() > 0 {
        let rest = entries.drop_last();
        let last = entries.last();
        assert forall|i: int, j: int| 0 <= i < j < rest.len() implies (#[trigger] rest[i]).0@ != (
        #[trigger] rest[j]).0@ by {
            assert(rest[i] == entries[i]);
            assert(rest[j] == entries[j]);
        }
        lemma_entry_map(rest);
        assert forall|i: int| 0 <= i < entries.len() implies entry_map(entries).contains_key(
            (#[trigger] entries[i]).0@,
        ) && entry_map(entries)[entries[i].0@] == entries[i].1 by {
            if i < rest.len() {
                assert(rest[i] == entries[i]);
                assert(entries[i].0@ != entries[entries.len() - 1].0@);
            }
        }
        assert forall|k: Seq<char>| #[trigger]
            entry_map(entries).contains_key(k) implies has_key(entries, k) by {
            if k == last.0@ {
                assert(entries[entries.len() - 1].0@ == k);
            } else {
                assert(entry_map(rest).contains_key(k));
                let i = choose|i: int| 0 <= i < rest.len() && (#[trigger] rest[i]).0@ == k;
                assert(entries[i].0@ == k);
            }
        }
    }
}

/// The position of the entry with the key `key`.
pub fn find_key<V>(entries: &Vec<(String, V)>, key: &str) -> (r: Option<usize>)
    ensures
        match r {
            Some(i) => i < entries@.len() && entries@[i as int].0@ == key@,
            None => !has_key(entries@, key@),
        },
{
    let mut i: usize = 0;
    while i < entries.len()
        invariant
            i <= entries.len(),
            forall|k: int| 0 <= k < i ==> (#[trigger] entries@[k]).0@ != key@,
        decreases entries.len() - i,
    {
        if str_eq(entries[i].0.as_str(), key) {
            return Some(i);
        }
        i += 1;
    }
    None
}

/// Sets the value of `key`: the entry with that key is replaced, or a new
/// entry is added at the end.
pub fn upsert<V>(entries: &mut Vec<(String, V)>, key: String, value: V)
    requires
        distinct_keys(old(entries)@),
    ensures
        distinct_keys(final(entries)@),
        entry_map(final(entries)@) == entry_map(old(entries)@).insert(key@, value),
{
    let ghost before = entries@;
    match find_key(entries, key.as_str()) {
        Some(i) => {
            entries.set(i, (key, value));
            proof {
                let after = entries@;
                assert forall|a: int, b: int| 0 <= a < b < after.len() implies (
                #[trigger] after[a]).0@ != (#[trigger] after[b]).0@ by {
                    assert(before[a].0@ != before[b].0@);
                }
                lemma_entry_map(before);
                lemma_entry_map(after);
                let want = entry_map(before).insert(key@, value);
                assert forall|k: Seq<char>| entry_map(after).contains_key(k) <==> want.contains_key(
                    k,
                ) by {
                    if entry_map(after).contains_key(k) {
                        let x = choose|x: int| 0 <= x < after.len() && (#[trigger] after[x]).0@ == k;
                        assert(before[x].0@ == k);
                    }
                    if want.contains_key(k) && k != key@ {
                        let x = choose|x: int|
                            0 <= x < before.len() && (#[trigger] before[x]).0@ == k;
                        assert(after[x].0@ == k);
                    }
                    if k == key@ {
                        assert(after[i as int].0@ == k);
                    }
                }
                assert forall|k: Seq<char>| entry_map(after).contains_key(k) implies entry_map(
                    after,
                )[k] == want[k] by {
                    let x = choose|x: int| 0 <= x < after.len() && (#[trigger] after[x]).0@ == k;
                    if x != i {
                        assert(before[x] == after[x]);
                    }
                }
                assert(entry_map(after) =~= want);
            }
        },
        None => {
            entries.push((key, value));
            proof {
                let after = entries@;
                assert(after.drop_last() == before);
                assert forall|a: int, b: int| 0 <= a < b < after.len() implies (
                #[trigger] after[a]).0@ != (#[trigger] after[b]).0@ by {
                    if b < before.len() {
                        assert(before[a].0@ != before[b].0@);
                    } else {
                        assert(before[a].0@ != key@);
                    }
                }
            }
        },
    }
}

/// The value of `key`, if the list has the key.
pub fn lookup<'a, V>(entries: &'a Vec<(String, V)>, key: &str) -> (r: Option<&'a V>)
    requires
        distinct_keys(entries@),
    ensures
        match r {
            Some(v) => entry_map(entries@).contains_key(key@) && entry_map(entries@)[key@] == *v,
            None => !entry_map(entries@).contains_key(key@),
        },
{
    proof {
        lemma_entry_map(entries@);
    }
    match find_key(entries, key) {
        Some(i) => Some(&entries[i].1),
        None => None,
    }
}

} // verus!
