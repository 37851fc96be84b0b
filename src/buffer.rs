//! The activation buffer: recently activated actions stay available for a
//! short time, so that a check made a little late still sees them.
//!
//! Durations are whole microseconds.

use vstd::prelude::*;

use crate::action::{Action, ActionId};
use crate::action_map::{has_key_at, in_prefix, map_of, ActionMap};
use crate::resolve::action_set;

verus! {

/// Every action of `activated` gets a fresh lifetime `t`; the others keep
/// what they had.
pub open spec fn refreshed(m: Map<ActionId, nat>, activated: Set<ActionId>, t: nat) -> Map<
    ActionId,
    nat,
> {
    Map::new(
        |id: ActionId| m.contains_key(id) || activated.contains(id),
        |id: ActionId|
            if activated.contains(id) {
                t
            } else {
                m[id]
            },
    )
}

/// Every lifetime shrinks by `dt`; those that reach zero are dropped.
pub open spec fn decayed(m: Map<ActionId, nat>, dt: nat) -> Map<ActionId, nat> {
    Map::new(|id: ActionId| m.contains_key(id) && m[id] > dt, |id: ActionId| (m[id] - dt) as nat)
}

/// Every buffered action has some lifetime left.
pub open spec fn all_positive(m: Map<ActionId, nat>) -> bool {
    forall|id: ActionId| #[trigger] m.contains_key(id) ==> m[id] > 0
}

/// The remaining lifetime of each buffered action.
pub struct ActionBuffer {
    entries: ActionMap<u64>,
}

impl View for ActionBuffer {
    type V = Map<ActionId, nat>;

    closed spec fn view(&self) -> Map<ActionId, nat> {
        self.entries.view().map_values(|v: u64| v as nat)
    }
}

impl ActionBuffer {
    /// The entries are keyed by action, and each has time left.
    pub closed spec fn wf(&self) -> bool {
        self.entries.wf() && all_positive(self@)
    }

    /// Every buffered action has time left.
    pub proof fn lemma_positive(&self)
        requires
            self.wf(),
        ensures
            all_positive(self@),
    {
    }

    /// An empty buffer.
    pub fn new() -> (r: ActionBuffer)
        ensures
            r.wf(),
            r@ == Map::<ActionId, nat>::empty(),
    {
        let r = ActionBuffer { entries: ActionMap::new() };
        assert(r@ =~= Map::<ActionId, nat>::empty());
        r
    }

    /// Whether `a` is buffered.
    pub fn contains(&self, a: &Action) -> (r: bool)
        requires
            self.wf(),
        ensures
            r == self@.contains_key(a@),
    {
        self.entries.contains_key(a)
    }

    /// Removes `a`, and tells whether it was buffered.
    pub fn consume(&mut self, a: &Action) -> (r: bool)
        requires
            old(self).wf(),
        ensures
            final(self).wf(),
            r == old(self)@.contains_key(a@),
            final(self)@ == old(self)@.remove(a@),
    {
        let r = self.entries.remove(a);
        assert(self@ =~= old(self)@.remove(a@));
        r.is_some()
    }

    /// Gives each action of `activated` the lifetime `buffer_time`, then lets
    /// `dt` pass for every entry.
    pub fn advance(&mut self, activated: &Vec<Action>, buffer_time: u64, dt: u64)
        requires
            old(self).wf(),
        ensures
            final(self).wf(),
            final(self)@ == decayed(
                refreshed(old(self)@, action_set(activated@), buffer_time as nat),
                dt as nat,
            ),
    {
        let ghost m0 = self@;
        let mut i: usize = 0;
        while i < activated.len()
            invariant
                i <= activated@.len(),
                self.entries.wf(),
                self@ == refreshed(m0, action_set(activated@.take(i as int)), buffer_time as nat),
            decreases activated@.len() - i,
        {
            let ghost before = self@;
            let ghost old_entries = self.entries.view();
            self.entries.insert(activated[i].clone(), buffer_time);
            proof {
                let t = activated@.take(i as int + 1);
                let a = activated@[i as int]@;
                assert forall|id: ActionId| #[trigger]
                    action_set(t).contains(id) == (action_set(activated@.take(i as int)).contains(
                        id,
                    ) || a == id) by {
                    if action_set(t).contains(id) {
                        let k = choose|k: int| 0 <= k < t.len() && (#[trigger] t[k])@ == id;
                        if k < i {
                            assert(activated@.take(i as int)[k] == t[k]);
                        }
                    }
                    if action_set(activated@.take(i as int)).contains(id) {
                        let k = choose|k: int|
                            0 <= k < i && (#[trigger] activated@.take(i as int)[k])@ == id;
                        assert(t[k] == activated@.take(i as int)[k]);
                    }
                    if a == id {
                        assert(t[i as int] == activated@[i as int]);
                    }
                }
                assert(self.entries.view() == old_entries.insert(activated@[i as int]@, buffer_time));
                assert forall|id: ActionId| #[trigger]
                    self@.contains_key(id) == (before.contains_key(id) || id == a) by {}
                assert forall|id: ActionId| #[trigger]
                    self@.contains_key(id) implies self@[id] == (if id == a {
                        buffer_time as nat
                    } else {
                        before[id]
                    }) by {}
                assert(self@ =~= refreshed(m0, action_set(t), buffer_time as nat));
            }
            i = i + 1;
        }
        assert(activated@.take(activated@.len() as int) == activated@);
        let ghost m1 = self@;
        let ghost s = self.entries.entries();
        let n = self.entries.len();
        let mut kept: ActionMap<u64> = ActionMap::new();
        let mut j: usize = 0;
        while j < n
            invariant
                j <= n,
                n == s.len(),
                self.entries.wf(),
                s == self.entries.entries(),
                self.entries.view() == map_of(s),
                m1 == self@,
                kept.wf(),
                forall|id: ActionId| #[trigger]
                    kept.view().contains_key(id) == (in_prefix(s, id, j as int) && m1.contains_key(id)
                        && m1[id] > dt),
                forall|id: ActionId| #[trigger]
                    kept.view().contains_key(id) ==> kept.view()[id] == m1[id] - dt,
            decreases n - j,
        {
            let (a, left) = self.entries.entry(j);
            if *left > dt {
                kept.insert(a.clone(), *left - dt);
            }
            proof {
                assert forall|id: ActionId| #[trigger]
                    in_prefix(s, id, j + 1) == (in_prefix(s, id, j as int) || id == s[j as int].0@) by {
                    if in_prefix(s, id, j + 1) {
                        let k = choose|k: int| 0 <= k < j + 1 && has_key_at(s, id, k);
                        if k < j {
                            assert(0 <= k < j && has_key_at(s, id, k));
                        }
                    }
                    if id == s[j as int].0@ {
                        assert(has_key_at(s, id, j as int));
                    }
                }
            }
            j = j + 1;
        }
        proof {
            assert forall|id: ActionId| #[trigger]
                kept.view().contains_key(id) == (m1.contains_key(id) && m1[id] > dt) by {
                if m1.contains_key(id) {
                    let k = choose|k: int| has_key_at(s, id, k);
                    assert(in_prefix(s, id, n as int));
                }
            }
        }
        self.entries = kept;
        assert(self@ =~= decayed(m1, dt as nat));
    }
}

} // verus!
