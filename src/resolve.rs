//! Resolution of bindings against the pressed inputs, and the sets of
//! actions that result from it.

use vstd::prelude::*;

use crate::action::{bindings_view, Action, ActionId, BindingView, InputBinding};
use crate::action_map::{has_key_at, map_of, ActionMap};
use crate::frame::{FrameInput, Pressed};

verus! {

/// A binding holds when its key and every one of its modifiers are down, or
/// when its mouse button is down.
pub open spec fn binding_satisfied(b: BindingView, p: Pressed) -> bool {
    match b {
        BindingView::Key { key, modifiers } => p.keys.contains(key) && forall|i: int|
            0 <= i < modifiers.len() ==> p.keys.contains(#[trigger] modifiers[i]),
        BindingView::Mouse { button } => p.buttons.contains(button),
    }
}

/// At least one binding of the list holds.
pub open spec fn any_satisfied(bs: Seq<BindingView>, p: Pressed) -> bool {
    exists|i: int| 0 <= i < bs.len() && binding_satisfied(#[trigger] bs[i], p)
}

/// The bound actions that some binding makes active.
pub open spec fn active_actions(table: Map<ActionId, Seq<BindingView>>, p: Pressed) -> Set<
    ActionId,
> {
    Set::new(|a: ActionId| table.contains_key(a) && any_satisfied(table[a], p))
}

/// The binding table as the engine reads it.
pub open spec fn table_view(m: Map<ActionId, Vec<InputBinding>>) -> Map<
    ActionId,
    Seq<BindingView>,
> {
    m.map_values(|v: Vec<InputBinding>| bindings_view(v@))
}

/// The actions that occur in a list.
pub open spec fn action_set(s: Seq<Action>) -> Set<ActionId> {
    Set::new(|id: ActionId| exists|i: int| 0 <= i < s.len() && (#[trigger] s[i])@ == id)
}

/// Whether `binding` holds for the inputs that are down.
pub fn is_binding_active(binding: &InputBinding, down: &FrameInput) -> (r: bool)
    requires
        down.wf(),
    ensures
        r == binding_satisfied(binding@, down@),
{
    match binding {
        InputBinding::Key(kb) => {
            assert(binding@ == BindingView::Key { key: kb.key, modifiers: kb.modifiers@ });
            if !down.is_key_down(kb.key) {
                return false;
            }
            let mut i: usize = 0;
            while i < kb.modifiers.len()
                invariant
                    down.wf(),
                    binding@ == (BindingView::Key { key: kb.key, modifiers: kb.modifiers@ }),
                    down@.keys.contains(kb.key),
                    i <= kb.modifiers@.len(),
                    forall|j: int| 0 <= j < i ==> down@.keys.contains(#[trigger] kb.modifiers@[j]),
                decreases kb.modifiers@.len() - i,
            {
                if !down.is_key_down(kb.modifiers[i]) {
                    assert(!down@.keys.contains(binding@->Key_modifiers[i as int]));
                    return false;
                }
                i = i + 1;
            }
            true
        },
        InputBinding::Mouse(mb) => down.is_button_down(mb.button),
    }
}

/// Whether some binding of the list holds, trying them in their stored order
/// and stopping at the first that does.
pub fn any_binding_active(bindings: &Vec<InputBinding>, down: &FrameInput) -> (r: bool)
    requires
        down.wf(),
    ensures
        r == any_satisfied(bindings_view(bindings@), down@),
{
    let ghost bs = bindings_view(bindings@);
    let mut i: usize = 0;
    while i < bindings.len()
        invariant
            down.wf(),
            i <= bindings@.len(),
            bs == bindings_view(bindings@),
            forall|j: int| 0 <= j < i ==> !binding_satisfied(#[trigger] bs[j], down@),
        decreases bindings@.len() - i,
    {
        if is_binding_active(&bindings[i], down) {
            assert(binding_satisfied(bs[i as int], down@));
            return true;
        }
        i = i + 1;
    }
    false
}

/// Whether `a` occurs in the list.
pub fn contains_action(v: &Vec<Action>, a: &Action) -> (r: bool)
    ensures
        r == action_set(v@).contains(a@),
{
    let mut i: usize = 0;
    while i < v.len()
        invariant
            i <= v@.len(),
            forall|j: int| 0 <= j < i ==> (#[trigger] v@[j])@ != a@,
        decreases v@.len() - i,
    {
        if v[i].eq(a) {
            assert(v@[i as int]@ == a@);
            return true;
        }
        i = i + 1;
    }
    false
}

/// The actions of `now` that are not in `before`. Applied one way it gives
/// the actions just activated, applied the other way those just deactivated.
pub fn actions_since(now: &Vec<Action>, before: &Vec<Action>) -> (r: Vec<Action>)
    ensures
        action_set(r@) == action_set(now@) - action_set(before@),
{
    let mut r: Vec<Action> = Vec::new();
    let mut i: usize = 0;
    while i < now.len()
        invariant
            i <= now@.len(),
            action_set(r@) == action_set(now@.take(i as int)) - action_set(before@),
        decreases now@.len() - i,
    {
        let ghost prev = r@;
        let keep = !contains_action(before, &now[i]);
        if keep {
            r.push(now[i].clone());
        }
        proof {
            let t = now@.take(i as int + 1);
            assert(t == now@.take(i as int).push(now@[i as int]));
            assert forall|id: ActionId| #[trigger]
                action_set(t).contains(id) == (action_set(now@.take(i as int)).contains(id)
                    || now@[i as int]@ == id) by {
                if action_set(t).contains(id) {
                    let k = choose|k: int| 0 <= k < t.len() && (#[trigger] t[k])@ == id;
                    if k < i {
                        assert(now@.take(i as int)[k] == t[k]);
                    }
                }
                if action_set(now@.take(i as int)).contains(id) {
                    let k = choose|k: int|
                        0 <= k < i && (#[trigger] now@.take(i as int)[k])@ == id;
                    assert(t[k] == now@.take(i as int)[k]);
                }
                if now@[i as int]@ == id {
                    assert(t[i as int] == now@[i as int]);
                }
            }
            assert forall|id: ActionId| #[trigger]
                action_set(r@).contains(id) == (action_set(prev).contains(id) || (keep
                    && now@[i as int]@ == id)) by {
                if action_set(r@).contains(id) {
                    let k = choose|k: int| 0 <= k < r@.len() && (#[trigger] r@[k])@ == id;
                    if k < prev.len() {
                        assert(prev[k] == r@[k]);
                    }
                }
                if action_set(prev).contains(id) {
                    let k = choose|k: int| 0 <= k < prev.len() && (#[trigger] prev[k])@ == id;
                    assert(r@[k] == prev[k]);
                }
                if keep && now@[i as int]@ == id {
                    assert(r@[prev.len() as int] == now@[i as int]);
                }
            }
            assert forall|id: ActionId| #[trigger]
                action_set(r@).contains(id) == (action_set(t) - action_set(before@)).contains(id) by {
                assert(action_set(prev).contains(id) == (action_set(now@.take(i as int))
                    - action_set(before@)).contains(id));
            }
            assert(action_set(r@) =~= action_set(t) - action_set(before@));
        }
        i = i + 1;
    }
    assert(now@.take(now@.len() as int) == now@);
    r
}

/// The actions of the table that are active for the inputs that are down.
pub fn resolve_actions(table: &ActionMap<Vec<InputBinding>>, down: &FrameInput) -> (r: Vec<
    Action,
>)
    requires
        table.wf(),
        down.wf(),
    ensures
        action_set(r@) == active_actions(table_view(table.view()), down@),
{
    let ghost s = table.entries();
    let n = table.len();
    let mut r: Vec<Action> = Vec::new();
    let mut i: usize = 0;
    while i < n
        invariant
            table.wf(),
            down.wf(),
            n == s.len(),
            s == table.entries(),
            table.view() == map_of(s),
            i <= n,
            forall|id: ActionId| #[trigger]
                action_set(r@).contains(id) == exists|j: int|
                    0 <= j < i && has_key_at(s, id, j) && any_satisfied(
                        bindings_view(s[j].1@),
                        down@,
                    ),
        decreases n - i,
    {
        let ghost prev = r@;
        let (a, bindings) = table.entry(i);
        if any_binding_active(bindings, down) {
            r.push(a.clone());
        }
        assert forall|id: ActionId| #[trigger]
            action_set(r@).contains(id) == exists|j: int|
                0 <= j < i + 1 && has_key_at(s, id, j) && any_satisfied(
                    bindings_view(s[j].1@),
                    down@,
                ) by {
            if action_set(r@).contains(id) {
                let k = choose|k: int| 0 <= k < r@.len() && (#[trigger] r@[k])@ == id;
                if k < prev.len() {
                    assert(prev[k] == r@[k]);
                    assert(action_set(prev).contains(id));
                } else {
                    assert(has_key_at(s, id, i as int));
                }
            }
            if exists|j: int|
                0 <= j < i + 1 && has_key_at(s, id, j) && any_satisfied(
                    bindings_view(s[j].1@),
                    down@,
                ) {
                let j = choose|j: int|
                    0 <= j < i + 1 && has_key_at(s, id, j) && any_satisfied(
                        bindings_view(s[j].1@),
                        down@,
                    );
                if j < i {
                    assert(action_set(prev).contains(id));
                    let k = choose|k: int| 0 <= k < prev.len() && (#[trigger] prev[k])@ == id;
                    assert(r@[k] == prev[k]);
                } else {
                    assert(r@[prev.len() as int]@ == id);
                }
            }
        }
        i = i + 1;
    }
    proof {
        let t = table_view(table.view());
        assert forall|id: ActionId| #[trigger]
            action_set(r@).contains(id) == active_actions(t, down@).contains(id) by {
            if action_set(r@).contains(id) {
                let j = choose|j: int|
                    0 <= j < n && has_key_at(s, id, j) && any_satisfied(
                        bindings_view(s[j].1@),
                        down@,
                    );
                crate::action_map::lemma_map_of_at(s, j);
            }
            if active_actions(t, down@).contains(id) {
                let j = choose|j: int| has_key_at(s, id, j);
                crate::action_map::lemma_map_of_at(s, j);
                assert(exists|j: int|
                    0 <= j < n && has_key_at(s, id, j) && any_satisfied(
                        bindings_view(s[j].1@),
                        down@,
                    ));
            }
        }
        assert(action_set(r@) =~= active_actions(t, down@));
    }
    r
}

} // verus!
