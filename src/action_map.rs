//! A small association list keyed by actions: each action has at most one
//! entry, and entries are compared by action identity.

use vstd::prelude::*;

use crate::action::{Action, ActionId};

verus! {

/// A finite map from actions to values of type `V`.
pub struct ActionMap<V> {
    entries: Vec<(Action, V)>,
}

/// The position of `id` among the keys of `s`, when it occurs there.
pub open spec fn has_key_at<V>(s: Seq<(Action, V)>, id: ActionId, i: int) -> bool {
    0 <= i < s.len() && s[i].0@ == id
}

/// `id` is the action of one of the first `n` entries of `s`.
pub open spec fn in_prefix<V>(s: Seq<(Action, V)>, id: ActionId, n: int) -> bool {
    exists|i: int| 0 <= i < n && has_key_at(s, id, i)
}

/// No two entries of `s` share an action.
pub open spec fn keys_unique<V>(s: Seq<(Action, V)>) -> bool {
    forall|i: int, j: int|
        0 <= i < s.len() && 0 <= j < s.len() && i != j ==> #[trigger] s[i].0@ != #[trigger] s[j].0@
}

/// The map that an association list with unique keys stands for.
pub open spec fn map_of<V>(s: Seq<(Action, V)>) -> Map<ActionId, V> {
    Map::new(
        |id: ActionId| exists|i: int| has_key_at(s, id, i),
        |id: ActionId| s[choose|i: int| has_key_at(s, id, i)].1,
    )
}

/// In a list with unique keys, the entry at position `i` is what the map
/// holds for its action.
pub proof fn lemma_map_of_at<V>(s: Seq<(Action, V)>, i: int)
    requires
        keys_unique(s),
        0 <= i < s.len(),
    ensures
        map_of(s).contains_key(s[i].0@),
        map_of(s)[s[i].0@] == s[i].1,
{
    assert(has_key_at(s, s[i].0@, i));
    let j = choose|j: int| has_key_at(s, s[i].0@, j);
    assert(j == i);
}

/// Appending an entry for a new action adds that entry to the map.
proof fn lemma_map_of_push<V>(s: Seq<(Action, V)>, a: Action, v: V)
    requires
        keys_unique(s),
        !map_of(s).contains_key(a@),
    ensures
        keys_unique(s.push((a, v))),
        map_of(s.push((a, v))) == map_of(s).insert(a@, v),
{
    let t = s.push((a, v));
    assert forall|i: int, j: int|
        0 <= i < t.len() && 0 <= j < t.len() && i != j implies #[trigger] t[i].0@
        != #[trigger] t[j].0@ by {
        if i < s.len() && j < s.len() {
            assert(t[i] == s[i] && t[j] == s[j]);
        } else if i < s.len() {
            assert(has_key_at(s, t[i].0@, i));
        } else {
            assert(has_key_at(s, t[j].0@, j));
        }
    }
    assert forall|id: ActionId| #[trigger]
        map_of(t).contains_key(id) == map_of(s).insert(a@, v).contains_key(id) by {
        if map_of(s).contains_key(id) {
            let i = choose|i: int| has_key_at(s, id, i);
            assert(has_key_at(t, id, i));
        }
        if id == a@ {
            assert(has_key_at(t, id, s.len() as int));
        }
        if map_of(t).contains_key(id) && id != a@ {
            let i = choose|i: int| has_key_at(t, id, i);
            assert(has_key_at(s, id, i));
        }
    }
    assert forall|id: ActionId| #[trigger] map_of(t).contains_key(id) implies map_of(t)[id]
        == map_of(s).insert(a@, v)[id] by {
        let i = choose|i: int| has_key_at(t, id, i);
        lemma_map_of_at(t, i);
        if i < s.len() {
            assert(t[i] == s[i]);
            lemma_map_of_at(s, i);
        }
    }
    assert(map_of(t) =~= map_of(s).insert(a@, v));
}

/// Removing the entry at position `i` removes its action from the map.
proof fn lemma_map_of_remove<V>(s: Seq<(Action, V)>, i: int)
    requires
        keys_unique(s),
        0 <= i < s.len(),
    ensures
        keys_unique(s.remove(i)),
        map_of(s.remove(i)) == map_of(s).remove(s[i].0@),
{
    let t = s.remove(i);
    let k = s[i].0@;
    assert forall|p: int, q: int|
        0 <= p < t.len() && 0 <= q < t.len() && p != q implies #[trigger] t[p].0@
        != #[trigger] t[q].0@ by {
        let p1 = if p < i { p } else { p + 1 };
        let q1 = if q < i { q } else { q + 1 };
        assert(t[p] == s[p1] && t[q] == s[q1]);
    }
    assert forall|id: ActionId| #[trigger]
        map_of(t).contains_key(id) == map_of(s).remove(k).contains_key(id) by {
        if map_of(t).contains_key(id) {
            let p = choose|p: int| has_key_at(t, id, p);
            let p1 = if p < i { p } else { p + 1 };
            assert(t[p] == s[p1]);
            assert(has_key_at(s, id, p1));
        }
        if map_of(s).contains_key(id) && id != k {
            let p = choose|p: int| has_key_at(s, id, p);
            if p < i {
                assert(has_key_at(t, id, p));
            } else {
                assert(t[p - 1] == s[p]);
                assert(has_key_at(t, id, p - 1));
            }
        }
    }
    assert forall|id: ActionId| #[trigger] map_of(t).contains_key(id) implies map_of(t)[id]
        == map_of(s).remove(k)[id] by {
        let p = choose|p: int| has_key_at(t, id, p);
        lemma_map_of_at(t, p);
        let p1 = if p < i { p } else { p + 1 };
        assert(t[p] == s[p1]);
        lemma_map_of_at(s, p1);
    }
    assert(map_of(t) =~= map_of(s).remove(k));
}

impl<V> ActionMap<V> {
    /// Each action has at most one entry.
    pub open spec fn wf(&self) -> bool {
        keys_unique(self.entries())
    }

    /// The entries in their stored order.
    pub closed spec fn entries(&self) -> Seq<(Action, V)> {
        self.entries@
    }

    /// The map that these entries stand for.
    pub closed spec fn view(&self) -> Map<ActionId, V> {
        map_of(self.entries@)
    }

    /// An empty map.
    pub fn new() -> (r: ActionMap<V>)
        ensures
            r.wf(),
            r.view() == Map::<ActionId, V>::empty(),
            r.entries().len() == 0,
    {
        let r = ActionMap { entries: Vec::new() };
        assert(map_of(r.entries@) =~= Map::<ActionId, V>::empty());
        r
    }

    /// The number of entries.
    pub fn len(&self) -> (r: usize)
        ensures
            r == self.entries().len(),
            self.view() == map_of(self.entries()),
    {
        self.entries.len()
    }

    /// The entry at position `i` of the stored order.
    pub fn entry(&self, i: usize) -> (r: (&Action, &V))
        requires
            self.wf(),
            i < self.entries().len(),
        ensures
            *r.0 == self.entries()[i as int].0,
            *r.1 == self.entries()[i as int].1,
            self.view().contains_key(r.0@),
            self.view()[r.0@] == *r.1,
    {
        proof {
            lemma_map_of_at(self.entries@, i as int);
        }
        let e = &self.entries[i];
        (&e.0, &e.1)
    }

    /// The position of `a` in the stored order, if it has an entry.
    pub fn position(&self, a: &Action) -> (r: Option<usize>)
        requires
            self.wf(),
        ensures
            r.is_none() == !self.view().contains_key(a@),
            r.is_some() ==> r.unwrap() < self.entries().len() && self.entries()[r.unwrap() as int].0@
                == a@,
    {
        let mut i: usize = 0;
        while i < self.entries.len()
            invariant
                i <= self.entries@.len(),
                forall|j: int| 0 <= j < i ==> self.entries@[j].0@ != a@,
            decreases self.entries@.len() - i,
        {
            if self.entries[i].0.eq(a) {
                assert(has_key_at(self.entries@, a@, i as int));
                return Some(i);
            }
            i = i + 1;
        }
        proof {
            if map_of(self.entries@).contains_key(a@) {
                let j = choose|j: int| has_key_at(self.entries@, a@, j);
                assert(self.entries@[j].0@ != a@);
            }
        }
        None
    }

    /// Whether `a` has an entry.
    pub fn contains_key(&self, a: &Action) -> (r: bool)
        requires
            self.wf(),
        ensures
            r == self.view().contains_key(a@),
    {
        self.position(a).is_some()
    }

    /// The value stored for `a`, if any.
    pub fn get(&self, a: &Action) -> (r: Option<&V>)
        requires
            self.wf(),
        ensures
            r.is_some() == self.view().contains_key(a@),
            r.is_some() ==> *r.unwrap() == self.view()[a@],
    {
        match self.position(a) {
            Some(i) => {
                let (_, v) = self.entry(i);
                Some(v)
            },
            None => None,
        }
    }

    /// Removes the entry of `a` and returns its value, if it had one.
    pub fn remove(&mut self, a: &Action) -> (r: Option<V>)
        requires
            old(self).wf(),
        ensures
            final(self).wf(),
            final(self).view() == old(self).view().remove(a@),
            r.is_some() == old(self).view().contains_key(a@),
            r.is_some() ==> r.unwrap() == old(self).view()[a@],
    {
        proof {
        }
        match self.position(a) {
            Some(i) => {
                proof {
                    lemma_map_of_at(self.entries@, i as int);
                    lemma_map_of_remove(self.entries@, i as int);
                }
                let e = self.entries.remove(i);
                Some(e.1)
            },
            None => {
                assert(map_of(self.entries@) =~= map_of(self.entries@).remove(a@));
                None
            },
        }
    }

    /// Sets the value of `a`, replacing any value it had.
    pub fn insert(&mut self, a: Action, v: V)
        requires
            old(self).wf(),
        ensures
            final(self).wf(),
            final(self).view() == old(self).view().insert(a@, v),
    {
        let _ = self.remove(&a);
        proof {
            lemma_map_of_push(self.entries@, a, v);
        }
        self.entries.push((a, v));
        assert(self.view() =~= old(self).view().insert(a@, v));
    }

    /// Removes every entry.
    pub fn clear(&mut self)
        requires
            old(self).wf(),
        ensures
            final(self).wf(),
            final(self).view() == Map::<ActionId, V>::empty(),
    {
        self.entries.clear();
        assert(map_of(self.entries@) =~= Map::<ActionId, V>::empty());
    }
}

} // verus!
