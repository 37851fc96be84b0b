//! The input manager: owns the binding table and the per-frame state, and
//! advances them once per frame.

use vstd::prelude::*;

use crate::action::{bindings_view, Action, ActionId, BindingView, InputBinding};
use crate::action_map::ActionMap;
use crate::buffer::{all_positive, decayed, refreshed, ActionBuffer};
use crate::frame::{newly_pressed, nothing_pressed, FrameInput, Pressed};
use crate::keys::{KeyCode, MouseButton};
use crate::resolve::{
    action_set, actions_since, active_actions, contains_action, resolve_actions, table_view,
};

verus! {

/// Activation buffer lifetime used until another is set: 100 ms.
pub const DEFAULT_BUFFER_TIME: u64 = 100_000;

/// Everything the manager holds, as mathematical values.
pub struct InputView {
    /// The bindings of each bound action, in their stored order.
    pub bindings: Map<ActionId, Seq<BindingView>>,
    /// What is down this frame.
    pub down: Pressed,
    /// What went down this frame.
    pub just_pressed: Pressed,
    /// What came up this frame.
    pub just_released: Pressed,
    /// The actions that are active this frame.
    pub active: Set<ActionId>,
    /// The actions that became active this frame.
    pub just_activated: Set<ActionId>,
    /// The actions that stopped being active this frame.
    pub just_deactivated: Set<ActionId>,
    /// The lifetime that a newly activated action gets in the buffer.
    pub buffer_time: nat,
    /// The remaining lifetime of each buffered action.
    pub buffered: Map<ActionId, nat>,
}

/// A binding on a key with no modifiers.
pub open spec fn key_only(k: KeyCode) -> BindingView {
    BindingView::Key { key: k, modifiers: Seq::empty() }
}

/// A binding on a mouse button.
pub open spec fn button_only(b: MouseButton) -> BindingView {
    BindingView::Mouse { button: b }
}

/// The bindings a new manager starts with: WASD and the arrow keys for
/// movement, Space to jump, the left button or X to attack, the right
/// button or Z to defend, E to interact and Escape to pause.
pub open spec fn default_bindings() -> Map<ActionId, Seq<BindingView>> {
    Map::empty().insert(ActionId::MoveUp, seq![key_only(KeyCode::W), key_only(KeyCode::Up)]).insert(
        ActionId::MoveDown,
        seq![key_only(KeyCode::S), key_only(KeyCode::Down)],
    ).insert(ActionId::MoveLeft, seq![key_only(KeyCode::A), key_only(KeyCode::Left)]).insert(
        ActionId::MoveRight,
        seq![key_only(KeyCode::D), key_only(KeyCode::Right)],
    ).insert(ActionId::Jump, seq![key_only(KeyCode::Space)]).insert(
        ActionId::Attack,
        seq![button_only(MouseButton::Left), key_only(KeyCode::X)],
    ).insert(ActionId::Defend, seq![button_only(MouseButton::Right), key_only(KeyCode::Z)]).insert(
        ActionId::Interact,
        seq![key_only(KeyCode::E)],
    ).insert(ActionId::Pause, seq![key_only(KeyCode::Escape)])
}

/// The state of a new manager.
pub open spec fn initial_view() -> InputView {
    InputView {
        bindings: default_bindings(),
        down: nothing_pressed(),
        just_pressed: nothing_pressed(),
        just_released: nothing_pressed(),
        active: Set::empty(),
        just_activated: Set::empty(),
        just_deactivated: Set::empty(),
        buffer_time: DEFAULT_BUFFER_TIME as nat,
        buffered: Map::empty(),
    }
}

/// One frame of the engine: `input` is what is down now and `dt` the time
/// that passed since the last frame.
///
/// The raw edges compare `input` with the previous frame; the actions are
/// resolved from `input` and the binding table, and their edges compare
/// them with the previous frame's actions. The actions that just became
/// active are (re)buffered with the full lifetime, and only then does the
/// buffer decay by `dt`.
pub open spec fn step(s: InputView, input: Pressed, dt: nat) -> InputView {
    let active = active_actions(s.bindings, input);
    let just_activated = active - s.active;
    InputView {
        bindings: s.bindings,
        down: input,
        just_pressed: newly_pressed(input, s.down),
        just_released: newly_pressed(s.down, input),
        active,
        just_activated,
        just_deactivated: s.active - active,
        buffer_time: s.buffer_time,
        buffered: decayed(refreshed(s.buffered, just_activated, s.buffer_time), dt),
    }
}

/// The net direction along one axis: +1 for the positive action alone, -1
/// for the negative one alone, 0 for both or neither.
pub open spec fn axis(negative: bool, positive: bool) -> int {
    (if positive { 1int } else { 0int }) - (if negative { 1int } else { 0int })
}

/// A movement direction on the screen grid: `x` grows to the right, `y`
/// grows downwards, and each is -1, 0 or 1. The unit vector it stands for
/// is `(x, y)` divided by the square root of `length_squared`, and the zero
/// vector when both are 0.
#[derive(Clone, Copy, Debug, PartialEq, Eq, Structural)]
pub struct Movement {
    pub x: i8,
    pub y: i8,
}

impl Movement {
    /// Whether there is no direction at all.
    pub fn is_zero(&self) -> (r: bool)
        ensures
            r == (self.x == 0 && self.y == 0),
    {
        self.x == 0 && self.y == 0
    }

    /// The squared length of `(x, y)`.
    pub fn length_squared(&self) -> (r: u8)
        requires
            -1 <= self.x <= 1,
            -1 <= self.y <= 1,
        ensures
            r == self.x * self.x + self.y * self.y,
    {
        let x: u8 = if self.x != 0 { 1 } else { 0 };
        let y: u8 = if self.y != 0 { 1 } else { 0 };
        assert(self.x * self.x == x) by (nonlinear_arith)
            requires
                -1 <= self.x <= 1,
                x == (if self.x != 0 { 1int } else { 0int }),
        ;
        assert(self.y * self.y == y) by (nonlinear_arith)
            requires
                -1 <= self.y <= 1,
                y == (if self.y != 0 { 1int } else { 0int }),
        ;
        x + y
    }
}

/// Tracks the device state, the binding table, the action state and the
/// activation buffer across frames.
pub struct InputManager {
    bindings: ActionMap<Vec<InputBinding>>,
    down: FrameInput,
    just_pressed: FrameInput,
    just_released: FrameInput,
    active: Vec<Action>,
    just_activated: Vec<Action>,
    just_deactivated: Vec<Action>,
    buffer_time: u64,
    buffered: ActionBuffer,
}

impl View for InputManager {
    type V = InputView;

    closed spec fn view(&self) -> InputView {
        InputView {
            bindings: table_view(self.bindings.view()),
            down: self.down@,
            just_pressed: self.just_pressed@,
            just_released: self.just_released@,
            active: action_set(self.active@),
            just_activated: action_set(self.just_activated@),
            just_deactivated: action_set(self.just_deactivated@),
            buffer_time: self.buffer_time as nat,
            buffered: self.buffered@,
        }
    }
}

impl InputManager {
    /// The parts of the manager are each well formed.
    pub closed spec fn wf(&self) -> bool {
        &&& self.bindings.wf()
        &&& self.down.wf()
        &&& self.just_pressed.wf()
        &&& self.just_released.wf()
        &&& self.buffered.wf()
    }

    /// Every action in the buffer of a manager has time left.
    pub proof fn lemma_buffer_positive(&self)
        requires
            self.wf(),
        ensures
            all_positive(self@.buffered),
    {
        self.buffered.lemma_positive();
    }

    /// A manager with the default bindings, nothing pressed, nothing active
    /// and nothing buffered.
    pub fn new() -> (r: InputManager)
        ensures
            r.wf(),
            r@ == initial_view(),
    {
        let mut m = InputManager {
            bindings: ActionMap::new(),
            down: FrameInput::new(),
            just_pressed: FrameInput::new(),
            just_released: FrameInput::new(),
            active: Vec::new(),
            just_activated: Vec::new(),
            just_deactivated: Vec::new(),
            buffer_time: DEFAULT_BUFFER_TIME,
            buffered: ActionBuffer::new(),
        };
        assert(action_set(Seq::<Action>::empty()) =~= Set::empty());
        assert(table_view(Map::empty()) =~= Map::empty());
        m.setup_default_bindings();
        m
    }

    fn setup_default_bindings(&mut self)
        requires
            old(self).wf(),
            old(self)@.bindings == Map::<ActionId, Seq<BindingView>>::empty(),
        ensures
            final(self).wf(),
            final(self)@ == (InputView { bindings: default_bindings(), ..old(self)@ }),
    {
        let v = vec![InputBinding::key(KeyCode::W), InputBinding::key(KeyCode::Up)];
        assert(bindings_view(v@) =~= seq![key_only(KeyCode::W), key_only(KeyCode::Up)]);
        self.bind_action(Action::MoveUp, v);
        let v = vec![InputBinding::key(KeyCode::S), InputBinding::key(KeyCode::Down)];
        assert(bindings_view(v@) =~= seq![key_only(KeyCode::S), key_only(KeyCode::Down)]);
        self.bind_action(Action::MoveDown, v);
        let v = vec![InputBinding::key(KeyCode::A), InputBinding::key(KeyCode::Left)];
        assert(bindings_view(v@) =~= seq![key_only(KeyCode::A), key_only(KeyCode::Left)]);
        self.bind_action(Action::MoveLeft, v);
        let v = vec![InputBinding::key(KeyCode::D), InputBinding::key(KeyCode::Right)];
        assert(bindings_view(v@) =~= seq![key_only(KeyCode::D), key_only(KeyCode::Right)]);
        self.bind_action(Action::MoveRight, v);
        let v = vec![InputBinding::key(KeyCode::Space)];
        assert(bindings_view(v@) =~= seq![key_only(KeyCode::Space)]);
        self.bind_action(Action::Jump, v);
        let v = vec![InputBinding::mouse(MouseButton::Left), InputBinding::key(KeyCode::X)];
        assert(bindings_view(v@) =~= seq![button_only(MouseButton::Left), key_only(KeyCode::X)]);
        self.bind_action(Action::Attack, v);
        let v = vec![InputBinding::mouse(MouseButton::Right), InputBinding::key(KeyCode::Z)];
        assert(bindings_view(v@) =~= seq![button_only(MouseButton::Right), key_only(KeyCode::Z)]);
        self.bind_action(Action::Defend, v);
        let v = vec![InputBinding::key(KeyCode::E)];
        assert(bindings_view(v@) =~= seq![key_only(KeyCode::E)]);
        self.bind_action(Action::Interact, v);
        let v = vec![InputBinding::key(KeyCode::Escape)];
        assert(bindings_view(v@) =~= seq![key_only(KeyCode::Escape)]);
        self.bind_action(Action::Pause, v);
    }

    /// Advances the manager by one frame: `input` is what the device reports
    /// as down now, and `dt` the scaled time in microseconds since the last
    /// frame. Call this once per frame, before any query.
    pub fn update(&mut self, input: FrameInput, dt: u64)
        requires
            old(self).wf(),
            input.wf(),
        ensures
            final(self).wf(),
            final(self)@ == step(old(self)@, input@, dt as nat),
    {
        let just_pressed = input.pressed_since(&self.down);
        let just_released = self.down.pressed_since(&input);
        self.down = input;
        self.just_pressed = just_pressed;
        self.just_released = just_released;
        let active = resolve_actions(&self.bindings, &self.down);
        let just_activated = actions_since(&active, &self.active);
        let just_deactivated = actions_since(&self.active, &active);
        self.buffered.advance(&just_activated, self.buffer_time, dt);
        self.active = active;
        self.just_activated = just_activated;
        self.just_deactivated = just_deactivated;
        assert(self@ == step(old(self)@, input@, dt as nat));
    }

    /// Whether `action` is active this frame.
    pub fn is_action_active(&self, action: &Action) -> (r: bool)
        ensures
            r == self@.active.contains(action@),
    {
        contains_action(&self.active, action)
    }

    /// Whether `action` became active this frame.
    pub fn is_action_just_activated(&self, action: &Action) -> (r: bool)
        ensures
            r == self@.just_activated.contains(action@),
    {
        contains_action(&self.just_activated, action)
    }

    /// Whether `action` stopped being active this frame.
    pub fn is_action_just_deactivated(&self, action: &Action) -> (r: bool)
        ensures
            r == self@.just_deactivated.contains(action@),
    {
        contains_action(&self.just_deactivated, action)
    }

    /// Whether `action` is in the activation buffer. The buffer is left as
    /// it is.
    pub fn is_action_buffered(&self, action: &Action) -> (r: bool)
        requires
            self.wf(),
        ensures
            r == self@.buffered.contains_key(action@),
    {
        self.buffered.contains(action)
    }

    /// Takes `action` out of the activation buffer, and tells whether it was
    /// there.
    pub fn consume_buffered_action(&mut self, action: &Action) -> (r: bool)
        requires
            old(self).wf(),
        ensures
            final(self).wf(),
            r == old(self)@.buffered.contains_key(action@),
            final(self)@ == (InputView {
                buffered: old(self)@.buffered.remove(action@),
                ..old(self)@
            }),
    {
        self.buffered.consume(action)
    }

    /// The direction given by the four movement actions that are active.
    pub fn get_movement_input(&self) -> (r: Movement)
        ensures
            r.x == axis(
                self@.active.contains(ActionId::MoveLeft),
                self@.active.contains(ActionId::MoveRight),
            ),
            r.y == axis(
                self@.active.contains(ActionId::MoveUp),
                self@.active.contains(ActionId::MoveDown),
            ),
    {
        let mut x: i8 = 0;
        let mut y: i8 = 0;
        if self.is_action_active(&Action::MoveUp) {
            y = y - 1;
        }
        if self.is_action_active(&Action::MoveDown) {
            y = y + 1;
        }
        if self.is_action_active(&Action::MoveLeft) {
            x = x - 1;
        }
        if self.is_action_active(&Action::MoveRight) {
            x = x + 1;
        }
        Movement { x, y }
    }

    /// Whether `key` is down this frame.
    pub fn is_key_down(&self, key: KeyCode) -> (r: bool)
        requires
            self.wf(),
        ensures
            r == self@.down.keys.contains(key),
    {
        self.down.is_key_down(key)
    }

    /// Whether `key` went down this frame.
    pub fn is_key_just_pressed(&self, key: KeyCode) -> (r: bool)
        requires
            self.wf(),
        ensures
            r == self@.just_pressed.keys.contains(key),
    {
        self.just_pressed.is_key_down(key)
    }

    /// Whether `key` came up this frame.
    pub fn is_key_just_released(&self, key: KeyCode) -> (r: bool)
        requires
            self.wf(),
        ensures
            r == self@.just_released.keys.contains(key),
    {
        self.just_released.is_key_down(key)
    }

    /// Whether `button` is down this frame.
    pub fn is_mouse_button_down(&self, button: MouseButton) -> (r: bool)
        requires
            self.wf(),
        ensures
            r == self@.down.buttons.contains(button),
    {
        self.down.is_button_down(button)
    }

    /// Whether `button` went down this frame.
    pub fn is_mouse_button_just_pressed(&self, button: MouseButton) -> (r: bool)
        requires
            self.wf(),
        ensures
            r == self@.just_pressed.buttons.contains(button),
    {
        self.just_pressed.is_button_down(button)
    }

    /// Whether `button` came up this frame.
    pub fn is_mouse_button_just_released(&self, button: MouseButton) -> (r: bool)
        requires
            self.wf(),
        ensures
            r == self@.just_released.buttons.contains(button),
    {
        self.just_released.is_button_down(button)
    }

    /// Replaces all bindings of `action` with `bindings`. An empty list
    /// leaves the action bound to nothing, so it never becomes active.
    pub fn bind_action(&mut self, action: Action, bindings: Vec<InputBinding>)
        requires
            old(self).wf(),
        ensures
            final(self).wf(),
            final(self)@ == (InputView {
                bindings: old(self)@.bindings.insert(action@, bindings_view(bindings@)),
                ..old(self)@
            }),
    {
        let ghost a = action@;
        let ghost bs = bindings@;
        self.bindings.insert(action, bindings);
        assert(self@.bindings =~= old(self)@.bindings.insert(a, bindings_view(bs)));
    }

    /// Appends `binding` to the bindings of `action`, binding it first if it
    /// was not bound.
    pub fn add_binding(&mut self, action: Action, binding: InputBinding)
        requires
            old(self).wf(),
        ensures
            final(self).wf(),
            final(self)@ == (InputView {
                bindings: old(self)@.bindings.insert(
                    action@,
                    (if old(self)@.bindings.contains_key(action@) {
                        old(self)@.bindings[action@]
                    } else {
                        Seq::empty()
                    }).push(binding@),
                ),
                ..old(self)@
            }),
    {
        let ghost a = action@;
        let ghost b = binding@;
        let mut list = match self.bindings.remove(&action) {
            Some(v) => v,
            None => Vec::new(),
        };
        let ghost before = list@;
        assert(bindings_view(before) =~= (if old(self)@.bindings.contains_key(a) {
            old(self)@.bindings[a]
        } else {
            Seq::empty()
        }));
        list.push(binding);
        assert(bindings_view(list@) =~= bindings_view(before).push(b));
        self.bindings.insert(action, list);
        assert(self@.bindings =~= old(self)@.bindings.insert(
            a,
            (if old(self)@.bindings.contains_key(a) {
                old(self)@.bindings[a]
            } else {
                Seq::empty()
            }).push(b),
        ));
    }

    /// Removes every binding of `action`.
    pub fn unbind_action(&mut self, action: &Action)
        requires
            old(self).wf(),
        ensures
            final(self).wf(),
            final(self)@ == (InputView {
                bindings: old(self)@.bindings.remove(action@),
                ..old(self)@
            }),
    {
        let _ = self.bindings.remove(action);
        assert(self@.bindings =~= old(self)@.bindings.remove(action@));
    }

    /// Removes every binding of every action.
    pub fn clear_bindings(&mut self)
        requires
            old(self).wf(),
        ensures
            final(self).wf(),
            final(self)@ == (InputView { bindings: Map::empty(), ..old(self)@ }),
    {
        self.bindings.clear();
        assert(self@.bindings =~= Map::empty());
    }

    /// Sets the lifetime, in microseconds, that actions activated from now
    /// on get in the buffer. Entries already buffered keep what they have.
    pub fn set_buffer_time(&mut self, time: u64)
        requires
            old(self).wf(),
        ensures
            final(self).wf(),
            final(self)@ == (InputView { buffer_time: time as nat, ..old(self)@ }),
    {
        self.buffer_time = time;
    }

    /// The bindings of `action`, if it is bound.
    pub fn get_bindings(&self, action: &Action) -> (r: Option<&Vec<InputBinding>>)
        requires
            self.wf(),
        ensures
            r.is_some() == self@.bindings.contains_key(action@),
            r.is_some() ==> bindings_view(r.unwrap()@) == self@.bindings[action@],
    {
        self.bindings.get(action)
    }
}

impl Default for InputManager {
    fn default() -> (r: InputManager)
        ensures
            r.wf(),
            r@ == initial_view(),
    {
        InputManager::new()
    }
}

} // verus!
