//! Properties of the per-frame step that hold for every state and input.

use vstd::prelude::*;

use crate::action::{ActionId, BindingView};
use crate::buffer::all_positive;
use crate::frame::Pressed;
use crate::keys::KeyCode;
use crate::manager::{axis, step, InputView};
use crate::resolve::binding_satisfied;

verus! {

/// The state after each frame of `frames` in turn, each frame being the
/// inputs that are down and the time that passed.
pub open spec fn run(s: InputView, frames: Seq<(Pressed, nat)>) -> InputView
    decreases frames.len(),
{
    if frames.len() == 0 {
        s
    } else {
        let last = frames.last();
        step(run(s, frames.drop_last()), last.0, last.1)
    }
}

/// The time that passes over `frames`.
pub open spec fn elapsed(frames: Seq<(Pressed, nat)>) -> nat
    decreases frames.len(),
{
    if frames.len() == 0 {
        0
    } else {
        elapsed(frames.drop_last()) + frames.last().1
    }
}

/// An action that has no bindings, or an empty list of them, is neither
/// active nor just activated after a frame, whatever is pressed.
pub proof fn lemma_unbound_never_active(s: InputView, input: Pressed, dt: nat, a: ActionId)
    requires
        !s.bindings.contains_key(a) || s.bindings[a].len() == 0,
    ensures
        !step(s, input, dt).active.contains(a),
        !step(s, input, dt).just_activated.contains(a),
{
}

/// Within one frame nothing is both just pressed and just released, and no
/// action is both just activated and just deactivated.
pub proof fn lemma_edges_disjoint(s: InputView, input: Pressed, dt: nat)
    ensures
        step(s, input, dt).just_pressed.keys.intersect(step(s, input, dt).just_released.keys)
            == Set::<KeyCode>::empty(),
        step(s, input, dt).just_pressed.buttons.intersect(step(s, input, dt).just_released.buttons)
            == Set::<crate::keys::MouseButton>::empty(),
        step(s, input, dt).just_activated.intersect(step(s, input, dt).just_deactivated)
            == Set::<ActionId>::empty(),
{
    let t = step(s, input, dt);
    assert(t.just_pressed.keys.intersect(t.just_released.keys) =~= Set::<KeyCode>::empty());
    assert(t.just_pressed.buttons.intersect(t.just_released.buttons)
        =~= Set::<crate::keys::MouseButton>::empty());
    assert(t.just_activated.intersect(t.just_deactivated) =~= Set::<ActionId>::empty());
}

/// A frame with no elapsed time does everything a frame does but let time
/// pass: the edges and actions are those of a frame of any length, the
/// buffered entries keep their lifetimes, and the actions just activated are
/// buffered with the full lifetime, when it is not zero.
pub proof fn lemma_zero_time_frame(s: InputView, input: Pressed, dt: nat)
    requires
        all_positive(s.buffered),
    ensures
        step(s, input, 0) == (InputView { buffered: step(s, input, 0).buffered, ..step(s, input, dt) }),
        forall|id: ActionId| #[trigger]
            step(s, input, 0).buffered.contains_key(id) == if step(
                s,
                input,
                0,
            ).just_activated.contains(id) {
                s.buffer_time > 0
            } else {
                s.buffered.contains_key(id)
            },
        forall|id: ActionId| #[trigger]
            step(s, input, 0).buffered.contains_key(id) ==> step(s, input, 0).buffered[id] == if step(
                s,
                input,
                0,
            ).just_activated.contains(id) {
                s.buffer_time
            } else {
                s.buffered[id]
            },
{
}

/// Once an action is buffered with some lifetime left, and as long as it is
/// not activated again, it stays buffered exactly while the time that has
/// passed is less than that lifetime, and its lifetime shrinks by that time.
pub proof fn lemma_buffer_expiry(s: InputView, frames: Seq<(Pressed, nat)>, a: ActionId)
    requires
        all_positive(s.buffered),
        s.buffered.contains_key(a),
        forall|i: int|
            0 <= i < frames.len() ==> !(#[trigger] run(s, frames.take(i + 1))).just_activated.contains(
                a,
            ),
    ensures
        run(s, frames).buffered.contains_key(a) == (elapsed(frames) < s.buffered[a]),
        elapsed(frames) < s.buffered[a] ==> run(s, frames).buffered[a] == s.buffered[a] - elapsed(
            frames,
        ),
    decreases frames.len(),
{
    if frames.len() > 0 {
        let prefix = frames.drop_last();
        assert forall|i: int| 0 <= i < prefix.len() implies !(#[trigger] run(
            s,
            prefix.take(i + 1),
        )).just_activated.contains(a) by {
            assert(prefix.take(i + 1) == frames.take(i + 1));
        }
        lemma_buffer_expiry(s, prefix, a);
        assert(frames.take(frames.len() as int) == frames);
        assert(!run(s, frames.take(frames.len() - 1 + 1)).just_activated.contains(a));
    }
}

/// An action that becomes active gets the full lifetime again, whatever was
/// left of an earlier one: after the frame it is buffered exactly when the
/// lifetime exceeds the frame's time, with the lifetime less that time.
pub proof fn lemma_reactivation_refreshes(s: InputView, input: Pressed, dt: nat, a: ActionId)
    requires
        step(s, input, dt).just_activated.contains(a),
    ensures
        step(s, input, dt).buffered.contains_key(a) == (s.buffer_time > dt),
        s.buffer_time > dt ==> step(s, input, dt).buffered[a] == s.buffer_time - dt,
{
}

/// The movement direction has each component in -1..=1; it is exactly zero
/// when no movement action is active, and otherwise, when not zero, has a
/// squared length of 1 or 2, so that scaling it by the inverse square root
/// of that length gives a vector of length one. Up and right together give
/// `(1, -1)`.
pub proof fn lemma_movement_direction(active: Set<ActionId>)
    ensures
        -1 <= axis(active.contains(ActionId::MoveLeft), active.contains(ActionId::MoveRight)) <= 1,
        -1 <= axis(active.contains(ActionId::MoveUp), active.contains(ActionId::MoveDown)) <= 1,
        !active.contains(ActionId::MoveLeft) && !active.contains(ActionId::MoveRight)
            && !active.contains(ActionId::MoveUp) && !active.contains(ActionId::MoveDown) ==> axis(
            active.contains(ActionId::MoveLeft),
            active.contains(ActionId::MoveRight),
        ) == 0 && axis(active.contains(ActionId::MoveUp), active.contains(ActionId::MoveDown))
            == 0,
        ({
            let x = axis(active.contains(ActionId::MoveLeft), active.contains(ActionId::MoveRight));
            let y = axis(active.contains(ActionId::MoveUp), active.contains(ActionId::MoveDown));
            (x != 0 || y != 0) ==> 1 <= x * x + y * y <= 2
        }),
        active.contains(ActionId::MoveUp) && active.contains(ActionId::MoveRight)
            && !active.contains(ActionId::MoveDown) && !active.contains(ActionId::MoveLeft) ==> axis(
            active.contains(ActionId::MoveLeft),
            active.contains(ActionId::MoveRight),
        ) == 1 && axis(active.contains(ActionId::MoveUp), active.contains(ActionId::MoveDown))
            == -1,
{
    let x = axis(active.contains(ActionId::MoveLeft), active.contains(ActionId::MoveRight));
    let y = axis(active.contains(ActionId::MoveUp), active.contains(ActionId::MoveDown));
    assert((x != 0 || y != 0) ==> 1 <= x * x + y * y <= 2) by (nonlinear_arith)
        requires
            -1 <= x <= 1,
            -1 <= y <= 1,
    ;
}

/// A key binding with one modifier holds exactly when its key and its
/// modifier are both down.
pub proof fn lemma_modifier_conjunction(key: KeyCode, modifier: KeyCode, p: Pressed)
    ensures
        binding_satisfied(BindingView::Key { key, modifiers: seq![modifier] }, p) == (p.keys.contains(
            key,
        ) && p.keys.contains(modifier)),
{
    let b = BindingView::Key { key, modifiers: seq![modifier] };
    let ms = b->Key_modifiers;
    assert(ms.len() == 1 && ms[0] == modifier);
    if p.keys.contains(key) && p.keys.contains(modifier) {
        assert forall|i: int| 0 <= i < ms.len() implies p.keys.contains(#[trigger] ms[i]) by {
            assert(i == 0);
        }
    }
    if !p.keys.contains(modifier) {
        assert(!p.keys.contains(ms[0]));
    }
}

/// An action bound only to a key with one modifier is active exactly when
/// both are down; so if it was active, releasing the modifier while the key
/// stays down deactivates it.
pub proof fn lemma_modifier_release_deactivates(
    s: InputView,
    input: Pressed,
    dt: nat,
    a: ActionId,
    key: KeyCode,
    modifier: KeyCode,
)
    requires
        s.bindings.contains_key(a),
        s.bindings[a] == seq![BindingView::Key { key, modifiers: seq![modifier] }],
    ensures
        step(s, input, dt).active.contains(a) == (input.keys.contains(key) && input.keys.contains(
            modifier,
        )),
        s.active.contains(a) && input.keys.contains(key) && !input.keys.contains(modifier)
            ==> step(s, input, dt).just_deactivated.contains(a),
{
    let b = BindingView::Key { key, modifiers: seq![modifier] };
    lemma_modifier_conjunction(key, modifier, input);
    assert(s.bindings[a][0] == b);
}

} // verus!
