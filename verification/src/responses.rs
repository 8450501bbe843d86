//! What some answers of the upstream API mean: the policies and mode flags
//! of an account, the parameters of an endpoint, and the custom emojis of a
//! server.

use crate::assoc::{distinct_keys, entry_map, upsert};
use crate::json;
use crate::json::{json_of, json_seq, Json};
use crate::models::RawEmojisResponse;
use crate::text::{chars_of, ends_with, starts_with};
use vstd::prelude::*;

verus! {

/// Whether `k` names a mode flag of an account: a key that begins with
/// `isIn` and ends with `Mode`.
pub open spec fn is_user_mode_key(k: Seq<char>) -> bool {
    "isIn"@.is_prefix_of(k) && "Mode"@.is_suffix_of(k)
}

/// The boolean member `k` of an object, if it has one.
pub open spec fn bool_member(j: Json, k: Seq<char>) -> Option<bool> {
    match j.field(k) {
        Some(v) => v.as_bool(),
        None => None,
    }
}

/// The mode flag `k` of an account: the boolean member `k` of the account
/// itself, where `k` names a mode flag.
pub open spec fn mode_flag(data: Json, k: Seq<char>) -> Option<bool> {
    if is_user_mode_key(k) {
        bool_member(data, k)
    } else {
        None
    }
}

/// The policy `k` of an account: the boolean member `k` of its policies.
pub open spec fn policy(data: Json, k: Seq<char>) -> Option<bool> {
    match data.field("policies"@) {
        Some(p) => bool_member(p, k),
        None => None,
    }
}

/// What an account's answer says of `k`: its mode flag of that name, else
/// its policy of that name.
pub open spec fn policy_or_flag(data: Json, k: Seq<char>) -> Option<bool> {
    match mode_flag(data, k) {
        Some(b) => Some(b),
        None => policy(data, k),
    }
}

/// Whether a key names a mode flag of an account.
pub fn user_mode_key(key: &str) -> (r: bool)
    ensures
        r == is_user_mode_key(key@),
{
    let k = chars_of(key);
    starts_with(&k, "isIn") && ends_with(&k, "Mode")
}

/// Whether the boolean member `k` of `obj` is taken when only mode flags
/// are, or all members.
pub open spec fn taken(obj: Json, k: Seq<char>, only_flags: bool) -> Option<bool> {
    if only_flags {
        mode_flag(obj, k)
    } else {
        bool_member(obj, k)
    }
}

/// The value of `k` in a map, if it has the key.
pub open spec fn value_at(m: Map<Seq<char>, bool>, k: Seq<char>) -> Option<bool> {
    if m.contains_key(k) {
        Some(m[k])
    } else {
        None
    }
}

/// The value of `k` once the taken boolean members of `obj` among `keys` are
/// laid over `before`.
pub open spec fn laid_over(
    before: Map<Seq<char>, bool>,
    obj: Json,
    keys: Seq<Seq<char>>,
    only_flags: bool,
    k: Seq<char>,
) -> Option<bool> {
    if keys.contains(k) && taken(obj, k, only_flags) is Some {
        taken(obj, k, only_flags)
    } else {
        value_at(before, k)
    }
}

/// Whether `after` is `before` with the taken boolean members of `obj`
/// among `keys` laid over it.
pub open spec fn overlaid(
    before: Map<Seq<char>, bool>,
    after: Map<Seq<char>, bool>,
    obj: Json,
    keys: Seq<Seq<char>>,
    only_flags: bool,
) -> bool {
    forall|k: Seq<char>| #[trigger]
        value_at(after, k) == laid_over(before, obj, keys, only_flags, k)
}

fn lay_over(
    out: &mut Vec<(String, bool)>,
    obj: &serde_json::Value,
    keys: &Vec<String>,
    only_flags: bool,
)
    requires
        distinct_keys(old(out)@),
    ensures
        distinct_keys(final(out)@),
        overlaid(
            entry_map(old(out)@),
            entry_map(final(out)@),
            json_of(*obj),
            keys.deep_view(),
            only_flags,
        ),
{
    let ghost before = entry_map(out@);
    let ghost all = keys.deep_view();
    let ghost o = json_of(*obj);
    let mut i: usize = 0;
    proof {
        assert forall|k: Seq<char>| #[trigger]
            value_at(before, k) == laid_over(before, o, all.take(0), only_flags, k) by {
            assert(!all.take(0).contains(k));
        }
    }
    while i < keys.len()
        invariant
            i <= keys.len(),
            all == keys.deep_view(),
            o == json_of(*obj),
            distinct_keys(out@),
            overlaid(before, entry_map(out@), o, all.take(i as int), only_flags),
        decreases keys.len() - i,
    {
        let key = &keys[i];
        let ghost prev = entry_map(out@);
        let ghost done = all.take(i as int);
        let ghost next = all.take(i + 1);
        proof {
            assert(all[i as int] == key@);
            assert(next == done.push(key@));
            assert forall|k: Seq<char>| next.contains(k) <==> (done.contains(k) || k == key@) by {
                if done.contains(k) {
                    let w = choose|w: int| 0 <= w < done.len() && done[w] == k;
                    assert(next[w] == k);
                }
                if k == key@ {
                    assert(next[i as int] == k);
                }
                if next.contains(k) {
                    let w = choose|w: int| 0 <= w < next.len() && next[w] == k;
                    if w < i {
                        assert(done[w] == k);
                    }
                }
            }
        }
        let value = if !only_flags || user_mode_key(key.as_str()) {
            match json::get(obj, key.as_str()) {
                Some(v) => json::as_bool(v),
                None => None,
            }
        } else {
            None
        };
        proof {
            assert(value == taken(o, key@, only_flags));
        }
        match value {
            Some(b) => {
                upsert(out, key.clone(), b);
            },
            None => {},
        }
        proof {
            let now = entry_map(out@);
            assert forall|k: Seq<char>| #[trigger]
                value_at(now, k) == laid_over(before, o, next, only_flags, k) by {
                assert(value_at(prev, k) == laid_over(before, o, done, only_flags, k));
                if k == key@ {
                } else {
                    assert(next.contains(k) == done.contains(k));
                }
            }
        }
        i += 1;
    }
    proof {
        assert(all.take(keys.len() as int) == all);
    }
}

/// The policies and mode flags of an account: every boolean member of its
/// policies, and over them every boolean member of the account itself whose
/// name is that of a mode flag.
pub fn get_user_policies(data: &serde_json::Value) -> (r: Vec<(String, bool)>)
    ensures
        distinct_keys(r@),
        forall|k: Seq<char>| #[trigger]
            value_at(entry_map(r@), k) == policy_or_flag(json_of(*data), k),
{
    let mut out: Vec<(String, bool)> = Vec::new();
    let ghost j = json_of(*data);
    match json::get(data, "policies") {
        Some(policies) => {
            match json::object_keys(policies) {
                Some(keys) => {
                    let ghost p = json_of(*policies);
                    lay_over(&mut out, policies, &keys, false);
                    proof {
                        let mid = entry_map(out@);
                        let empty = Map::<Seq<char>, bool>::empty();
                        assert forall|k: Seq<char>| #[trigger] value_at(mid, k) == policy(j, k) by {
                            assert(value_at(mid, k) == laid_over(
                                empty,
                                p,
                                keys.deep_view(),
                                false,
                                k,
                            ));
                            if bool_member(p, k) is Some {
                                assert(p->Object_0.contains_key(k));
                                assert(keys.deep_view().contains(k));
                            }
                        }
                    }
                },
                None => {
                    proof {
                        let mid = entry_map(out@);
                        assert forall|k: Seq<char>| #[trigger] value_at(mid, k) == policy(j, k) by {
                        }
                    }
                },
            }
        },
        None => {
            proof {
                let mid = entry_map(out@);
                assert forall|k: Seq<char>| #[trigger] value_at(mid, k) == policy(j, k) by {}
            }
        },
    }
    let ghost mid = entry_map(out@);
    match json::object_keys(data) {
        Some(keys) => {
            lay_over(&mut out, data, &keys, true);
            proof {
                let fin = entry_map(out@);
                assert forall|k: Seq<char>| #[trigger]
                    value_at(fin, k) == policy_or_flag(j, k) by {
                    assert(value_at(fin, k) == laid_over(mid, j, keys.deep_view(), true, k));
                    assert(value_at(mid, k) == policy(j, k));
                    if mode_flag(j, k) is Some {
                        assert(j->Object_0.contains_key(k));
                        assert(keys.deep_view().contains(k));
                    }
                }
            }
        },
        None => {
            proof {
                assert forall|k: Seq<char>| #[trigger]
                    value_at(mid, k) == policy_or_flag(j, k) by {
                    assert(value_at(mid, k) == policy(j, k));
                }
            }
        },
    }
    out
}

/// The names of the parameters in a list of parameter descriptions: the
/// text member `name` of each that has one, in order.
pub open spec fn param_names(items: Seq<Json>) -> Seq<Seq<char>>
    decreases items.len(),
{
    if items.len() == 0 {
        Seq::empty()
    } else {
        let rest = param_names(items.drop_last());
        match items.last().str_field("name"@) {
            Some(n) => rest.push(n),
            None => rest,
        }
    }
}

/// The member `/params/properties` of an endpoint's description.
pub open spec fn properties_of(data: Json) -> Option<Json> {
    match data.field("params"@) {
        Some(p) => p.field("properties"@),
        None => None,
    }
}

/// The names that an endpoint's description lists as an array at `params`.
pub open spec fn listed_params(data: Json) -> Seq<Seq<char>> {
    match data.field("params"@) {
        Some(Json::Array(items)) => param_names(items),
        _ => Seq::empty(),
    }
}

/// Whether `names` are the parameters that an endpoint's description
/// names. Servers describe them in one of two shapes: as the keys of the
/// object at `/params/properties`, in no particular order, or, where that
/// yields none, as the names in the array at `params`.
pub open spec fn are_params_of(names: Seq<Seq<char>>, data: Json) -> bool {
    match properties_of(data) {
        Some(Json::Object(m)) => if m.dom() =~= Set::<Seq<char>>::empty() {
            names == listed_params(data)
        } else {
            names.no_duplicates() && forall|k: Seq<char>| names.contains(k) <==> m.contains_key(k)
        },
        _ => names == listed_params(data),
    }
}

fn names_in(items: &Vec<serde_json::Value>) -> (r: Vec<String>)
    ensures
        r.deep_view() == param_names(json_seq(items@)),
{
    let mut out: Vec<String> = Vec::new();
    let mut i: usize = 0;
    proof {
        assert(json_seq(items@).take(0) =~= Seq::empty());
        assert(out.deep_view() =~= Seq::empty());
    }
    while i < items.len()
        invariant
            i <= items.len(),
            out.deep_view() == param_names(json_seq(items@).take(i as int)),
        decreases items.len() - i,
    {
        proof {
            let all = json_seq(items@);
            assert(all.take(i + 1).drop_last() == all.take(i as int));
            assert(all.take(i + 1).last() == json_of(items@[i as int]));
        }
        match json::get_str(&items[i], "name") {
            Some(n) => {
                let ghost before = out.deep_view();
                out.push(n.to_owned());
                proof {
                    assert(out.deep_view() =~= before.push(n@));
                }
            },
            None => {},
        }
        i += 1;
    }
    proof {
        assert(json_seq(items@).take(items.len() as int) == json_seq(items@));
    }
    out
}

/// The parameters that an endpoint's description names.
pub fn get_endpoint_params(data: &serde_json::Value) -> (r: Vec<String>)
    ensures
        are_params_of(r.deep_view(), json_of(*data)),
{
    let params = json::get(data, "params");
    let props = match params {
        Some(p) => json::get(p, "properties"),
        None => None,
    };
    match props {
        Some(obj) => match json::object_keys(obj) {
            Some(keys) => {
                if keys.len() > 0 {
                    proof {
                        let m = json_of(*obj)->Object_0;
                        let names = keys.deep_view();
                        assert(names.contains(names[0]));
                        assert(m.contains_key(names[0]));
                        assert(m.dom().contains(names[0]));
                    }
                    return keys;
                }
                proof {
                    let m = json_of(*obj)->Object_0;
                    assert forall|k: Seq<char>| !m.contains_key(k) by {
                        assert(!keys.deep_view().contains(k));
                    }
                    assert(m.dom() =~= Set::<Seq<char>>::empty());
                }
            },
            None => {},
        },
        None => {},
    }
    match params {
        Some(p) => match json::as_array(p) {
            Some(items) => names_in(items),
            None => {
                let out: Vec<String> = Vec::new();
                proof {
                    assert(out.deep_view() =~= Seq::empty());
                }
                out
            },
        },
        None => {
            let out: Vec<String> = Vec::new();
            proof {
                assert(out.deep_view() =~= Seq::empty());
            }
            out
        },
    }
}

/// The custom emojis of a server by name. Where a name occurs twice, the
/// later address stands.
pub fn get_server_emojis(response: RawEmojisResponse) -> (r: Vec<(String, String)>)
    ensures
        distinct_keys(r@),
        entry_map(r@) == entry_map(
            response.emojis@.map_values(|e: crate::models::RawEmoji| (e.name, e.url)),
        ),
{
    let ghost all = response.emojis@;
    let ghost pair = |e: crate::models::RawEmoji| (e.name, e.url);
    let mut out: Vec<(String, String)> = Vec::new();
    for e in it: response.emojis.into_iter()
        invariant
            pair == |e: crate::models::RawEmoji| (e.name, e.url),
            it.seq() == all,
            distinct_keys(out@),
            entry_map(out@) == entry_map(all.take(it.index() as int).map_values(pair)),
    {
        proof {
            let done = all.take(it.index() as int).map_values(pair);
            let next = all.take(it.index() + 1).map_values(pair);
            assert(next.drop_last() =~= done);
            assert(next.last() == (e.name, e.url));
        }
        upsert(&mut out, e.name, e.url);
    }
    proof {
        assert(all.take(all.len() as int) == all);
    }
    out
}

} // verus!
