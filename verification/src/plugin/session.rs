//! Per-session plugin state kept across requests.
//!
//! Values are keyed by `(plugin, session, key)`, so plugins never see each
//! other's state and sessions never see each other's state.
use vstd::prelude::*;
use crate::assoc::{assoc_map, has_key, keys_distinct, lemma_assoc_at, lemma_assoc_absent, lemma_assoc_dom, lemma_assoc_push, lemma_assoc_update};
use crate::json::{Json, JsonV};
use crate::text::str_eq;

verus! {

/// A state key: plugin name, session (if any), key.
pub type StateKey = (Seq<char>, Option<Seq<char>>, Seq<char>);

pub open spec fn opt_view(o: Option<String>) -> Option<Seq<char>> {
    match o {
        Some(s) => Some(s@),
        None => None,
    }
}

pub open spec fn opt_str_view(o: Option<&str>) -> Option<Seq<char>> {
    match o {
        Some(s) => Some(s@),
        None => None,
    }
}

/// The stored pairs, keys and values taken by their views.
pub open spec fn state_pairs(s: Seq<((String, Option<String>, String), Json)>) -> Seq<(StateKey, JsonV)> {
    s.map_values(|e: ((String, Option<String>, String), Json)| ((e.0.0@, opt_view(e.0.1), e.0.2@), e.1@))
}

/// Session state of all plugins.
#[derive(Debug, Default)]
pub struct SessionStore {
    entries: Vec<((String, Option<String>, String), Json)>,
}

fn opt_eq(a: &Option<String>, b: Option<&str>) -> (r: bool)
    ensures
        r == (opt_view(*a) == opt_str_view(b)),
{
    match (a, b) {
        (Some(x), Some(y)) => str_eq(x.as_str(), y),
        (None, None) => true,
        _ => false,
    }
}

fn opt_to_string(o: Option<&str>) -> (r: Option<String>)
    ensures
        opt_view(r) == opt_str_view(o),
{
    match o {
        Some(s) => Some(s.to_string()),
        None => None,
    }
}

impl SessionStore {
    #[verifier::type_invariant]
    spec fn distinct_keys(self) -> bool {
        keys_distinct(state_pairs(self.entries@))
    }

    /// The stored state as a map.
    pub closed spec fn map(self) -> Map<StateKey, JsonV> {
        assoc_map(state_pairs(self.entries@))
    }

    /// An empty store.
    pub fn new() -> (r: SessionStore)
        ensures
            r.map() == Map::<StateKey, JsonV>::empty(),
    {
        let r = SessionStore { entries: Vec::new() };
        proof {
            assert(state_pairs(r.entries@).len() == 0);
        }
        r
    }

    fn position(&self, plugin: &str, session: Option<&str>, key: &str) -> (r: Option<usize>)
        ensures
            match r {
                Some(i) => i < self.entries@.len() && state_pairs(self.entries@)[i as int].0 == (
                    plugin@,
                    opt_str_view(session),
                    key@,
                ),
                None => forall|i: int|
                    0 <= i < self.entries@.len() ==> #[trigger] state_pairs(self.entries@)[i].0
                        != (plugin@, opt_str_view(session), key@),
            },
    {
        let ghost ps = state_pairs(self.entries@);
        let mut i: usize = 0;
        while i < self.entries.len()
            invariant
                i <= self.entries@.len(),
                ps == state_pairs(self.entries@),
                forall|k: int| 0 <= k < i ==> #[trigger] ps[k].0 != (
                    plugin@,
                    opt_str_view(session),
                    key@,
                ),
            decreases self.entries@.len() - i,
        {
            let e = &self.entries[i].0;
            if str_eq(e.0.as_str(), plugin) && opt_eq(&e.1, session) && str_eq(e.2.as_str(), key) {
                return Some(i);
            }
            i = i + 1;
        }
        None
    }

    /// The value plugin `plugin` stored under `key` in `session`, if any.
    pub fn get(&self, plugin: &str, session: Option<&str>, key: &str) -> (r: Option<Json>)
        ensures
            match r {
                Some(v) => self.map().dom().contains((plugin@, opt_str_view(session), key@))
                    && self.map()[(plugin@, opt_str_view(session), key@)] == v@,
                None => !self.map().dom().contains((plugin@, opt_str_view(session), key@)),
            },
    {
        proof {
            use_type_invariant(self);
        }
        let ghost ps = state_pairs(self.entries@);
        match self.position(plugin, session, key) {
            Some(i) => {
                proof {
                    lemma_assoc_at(ps, i as int);
                }
                Some(self.entries[i].1.deep_clone())
            },
            None => {
                proof {
                    lemma_assoc_absent(ps, (plugin@, opt_str_view(session), key@));
                }
                None
            },
        }
    }

    /// Stores `value` for plugin `plugin` under `key` in `session`, replacing
    /// an earlier value of the same key.
    pub fn set(&mut self, plugin: &str, session: Option<&str>, key: &str, value: Json)
        ensures
            final(self).map() == old(self).map().insert(
                (plugin@, opt_str_view(session), key@),
                value@,
            ),
    {
        proof {
            use_type_invariant(&*self);
        }
        let ghost ps = state_pairs(self.entries@);
        let ghost k = (plugin@, opt_str_view(session), key@);
        let pos = self.position(plugin, session, key);
        let mut es: Vec<((String, Option<String>, String), Json)> = Vec::new();
        std::mem::swap(&mut es, &mut self.entries);
        let ghost vv = value@;
        let sk = (plugin.to_string(), opt_to_string(session), key.to_string());
        match pos {
            Some(i) => {
                proof {
                    lemma_assoc_update(ps, i as int, vv);
                }
                es.set(i, (sk, value));
                proof {
                    assert(state_pairs(es@) =~= ps.update(i as int, (ps[i as int].0, vv)));
                }
            },
            None => {
                proof {
                    lemma_assoc_push(ps, k, vv);
                }
                es.push((sk, value));
                proof {
                    assert(state_pairs(es@) =~= ps.push((k, vv)));
                }
            },
        }
        self.entries = es;
    }

    /// Drops all state of `session`, of every plugin; state of other sessions
    /// and session-less state stay.
    pub fn clear_session(&mut self, session: &str)
        ensures
            final(self).map() == old(self).map().restrict(
                old(self).map().dom().filter(|k: StateKey| k.1 != Some(session@)),
            ),
    {
        proof {
            use_type_invariant(&*self);
        }
        let ghost ps = state_pairs(self.entries@);
        let mut es: Vec<((String, Option<String>, String), Json)> = Vec::new();
        std::mem::swap(&mut es, &mut self.entries);
        let mut kept: Vec<((String, Option<String>, String), Json)> = Vec::new();
        let ghost m = assoc_map(ps);
        let ghost mut origin: Seq<int> = Seq::empty();
        let n = es.len();
        let mut i: usize = 0;
        while i < n
            invariant
                i <= n == es@.len(),
                ps == state_pairs(es@),
                keys_distinct(ps),
                m == assoc_map(ps),
                keys_distinct(state_pairs(kept@)),
                origin.len() == kept@.len(),
                forall|a: int| 0 <= a < origin.len() ==> 0 <= #[trigger] origin[a] < i,
                forall|a: int| 0 <= a < origin.len() ==> state_pairs(kept@)[a] == ps[#[trigger] origin[a]],
                forall|a: int| 0 <= a < origin.len() ==> ps[#[trigger] origin[a]].0.1 != Some(session@),
                forall|b: int| 0 <= b < i && ps[b].0.1 != Some(session@) ==> has_key(state_pairs(kept@), #[trigger] ps[b].0),
            decreases n - i,
        {
            if !opt_eq(&es[i].0.1, Some(session)) {
                let e = &es[i];
                let kk = (e.0.0.clone(), e.0.1.clone(), e.0.2.clone());
                let v = e.1.deep_clone();
                let ghost before = state_pairs(kept@);
                proof {
                    assert forall|a: int| 0 <= a < before.len() implies #[trigger] before[a].0 != ps[i as int].0 by {
                        assert(before[a] == ps[origin[a]]);
                    }
                    lemma_assoc_push(before, ps[i as int].0, ps[i as int].1);
                }
                kept.push((kk, v));
                proof {
                    origin = origin.push(i as int);
                    assert(state_pairs(kept@) =~= before.push(ps[i as int]));
                    assert forall|b: int| 0 <= b < i + 1 && ps[b].0.1 != Some(session@) implies has_key(state_pairs(kept@), #[trigger] ps[b].0) by {
                        if b < i {
                            let w = choose|w: int| 0 <= w < before.len() && #[trigger] before[w].0 == ps[b].0;
                            assert(state_pairs(kept@)[w].0 == ps[b].0);
                        } else {
                            assert(state_pairs(kept@)[before.len() as int].0 == ps[b].0);
                        }
                    }
                }
            }
            i = i + 1;
        }
        let ghost kp = state_pairs(kept@);
        proof {
            let target = m.restrict(m.dom().filter(|k: StateKey| k.1 != Some(session@)));
            assert forall|k: StateKey| #[trigger] assoc_map(kp).dom().contains(k) <==> target.dom().contains(k) by {
                lemma_assoc_dom(kp, k);
                lemma_assoc_dom(ps, k);
                if has_key(kp, k) {
                    let a = choose|a: int| 0 <= a < kp.len() && #[trigger] kp[a].0 == k;
                    assert(kp[a] == ps[origin[a]]);
                }
                if target.dom().contains(k) {
                    let b = choose|b: int| 0 <= b < ps.len() && #[trigger] ps[b].0 == k;
                }
            }
            assert forall|k: StateKey| assoc_map(kp).dom().contains(k) implies #[trigger] assoc_map(kp)[k] == target[k] by {
                lemma_assoc_dom(kp, k);
                let a = choose|a: int| 0 <= a < kp.len() && #[trigger] kp[a].0 == k;
                assert(kp[a] == ps[origin[a]]);
                lemma_assoc_at(kp, a);
                lemma_assoc_at(ps, origin[a]);
            }
            assert(assoc_map(kp) =~= target);
        }
        self.entries = kept;
    }
}

/// Reading a key right after writing it gives the written value; every other
/// key (another plugin, another session, another key) reads as before.
pub proof fn law_read_after_write(m: Map<StateKey, JsonV>, k: StateKey, v: JsonV, other: StateKey)
    requires
        other != k,
    ensures
        m.insert(k, v).dom().contains(k),
        m.insert(k, v)[k] == v,
        m.insert(k, v).dom().contains(other) == m.dom().contains(other),
        m.dom().contains(other) ==> m.insert(k, v)[other] == m[other],
{
}

/// Clearing a session leaves none of its state and keeps all state of other
/// sessions, and session-less state, unchanged.
pub proof fn law_clear_session_isolated(m: Map<StateKey, JsonV>, session: Seq<char>, k: StateKey)
    ensures
        ({
            let c = m.restrict(m.dom().filter(|x: StateKey| x.1 != Some(session)));
            &&& k.1 == Some(session) ==> !c.dom().contains(k)
            &&& k.1 != Some(session) ==> (c.dom().contains(k) == m.dom().contains(k))
            &&& k.1 != Some(session) && m.dom().contains(k) ==> c[k] == m[k]
        }),
{
}

} // verus!
