//! Logical actions and the physical triggers that can be bound to them.

use vstd::prelude::*;

use crate::keys::{KeyCode, MouseButton};

verus! {

/// A logical input intent: one of the well-known game actions, or a named
/// action defined by the user.
#[derive(Debug, Eq, Hash)]
pub enum Action {
    MoveUp,
    MoveDown,
    MoveLeft,
    MoveRight,
    Jump,
    Attack,
    Defend,
    Interact,
    Pause,
    Custom(String),
}

/// The identity of an action: a named action is identified by the
/// characters of its name.
pub enum ActionId {
    MoveUp,
    MoveDown,
    MoveLeft,
    MoveRight,
    Jump,
    Attack,
    Defend,
    Interact,
    Pause,
    Custom(Seq<char>),
}

impl View for Action {
    type V = ActionId;

    open spec fn view(&self) -> ActionId {
        match self {
            Action::MoveUp => ActionId::MoveUp,
            Action::MoveDown => ActionId::MoveDown,
            Action::MoveLeft => ActionId::MoveLeft,
            Action::MoveRight => ActionId::MoveRight,
            Action::Jump => ActionId::Jump,
            Action::Attack => ActionId::Attack,
            Action::Defend => ActionId::Defend,
            Action::Interact => ActionId::Interact,
            Action::Pause => ActionId::Pause,
            Action::Custom(name) => ActionId::Custom(name@),
        }
    }
}

impl Action {
    /// A user-defined action with the given name.
    pub fn custom(name: &str) -> (r: Action)
        ensures
            r@ == ActionId::Custom(name@),
    {
        Action::Custom(name.to_owned())
    }
}

impl PartialEq for Action {
    fn eq(&self, other: &Action) -> (r: bool)
        ensures
            r == (self@ == other@),
    {
        match (self, other) {
            (Action::MoveUp, Action::MoveUp) => true,
            (Action::MoveDown, Action::MoveDown) => true,
            (Action::MoveLeft, Action::MoveLeft) => true,
            (Action::MoveRight, Action::MoveRight) => true,
            (Action::Jump, Action::Jump) => true,
            (Action::Attack, Action::Attack) => true,
            (Action::Defend, Action::Defend) => true,
            (Action::Interact, Action::Interact) => true,
            (Action::Pause, Action::Pause) => true,
            (Action::Custom(a), Action::Custom(b)) => a.eq(b),
            _ => false,
        }
    }
}

impl vstd::std_specs::cmp::PartialEqSpecImpl for Action {
    open spec fn obeys_eq_spec() -> bool {
        true
    }

    open spec fn eq_spec(&self, other: &Action) -> bool {
        self@ == other@
    }
}

impl Clone for Action {
    fn clone(&self) -> (r: Action)
        ensures
            r == *self,
    {
        match self {
            Action::MoveUp => Action::MoveUp,
            Action::MoveDown => Action::MoveDown,
            Action::MoveLeft => Action::MoveLeft,
            Action::MoveRight => Action::MoveRight,
            Action::Jump => Action::Jump,
            Action::Attack => Action::Attack,
            Action::Defend => Action::Defend,
            Action::Interact => Action::Interact,
            Action::Pause => Action::Pause,
            Action::Custom(name) => Action::Custom(name.clone()),
        }
    }
}

/// What a binding asks for: a primary key with the modifier keys that must
/// be held with it, or a single mouse button.
pub enum BindingView {
    Key { key: KeyCode, modifiers: Seq<KeyCode> },
    Mouse { button: MouseButton },
}

/// One physical trigger of an action.
#[derive(Debug, Clone)]
pub enum InputBinding {
    Key(KeyBinding),
    Mouse(MouseBinding),
}

/// A primary key and the modifier keys that must all be held with it.
#[derive(Debug, Clone)]
pub struct KeyBinding {
    pub key: KeyCode,
    pub modifiers: Vec<KeyCode>,
}

/// A single mouse button.
#[derive(Debug, Clone)]
pub struct MouseBinding {
    pub button: MouseButton,
}

impl View for InputBinding {
    type V = BindingView;

    open spec fn view(&self) -> BindingView {
        match self {
            InputBinding::Key(k) => BindingView::Key { key: k.key, modifiers: k.modifiers@ },
            InputBinding::Mouse(m) => BindingView::Mouse { button: m.button },
        }
    }
}

/// The views of a list of bindings, in order.
pub open spec fn bindings_view(bs: Seq<InputBinding>) -> Seq<BindingView> {
    bs.map_values(|b: InputBinding| b@)
}

impl KeyBinding {
    /// A binding on `key` alone.
    pub fn new(key: KeyCode) -> (r: KeyBinding)
        ensures
            r.key == key,
            r.modifiers@ == Seq::<KeyCode>::empty(),
    {
        KeyBinding { key, modifiers: Vec::new() }
    }

    /// The same binding, with `modifier` also required to be held.
    pub fn with_modifier(self, modifier: KeyCode) -> (r: KeyBinding)
        ensures
            r.key == self.key,
            r.modifiers@ == self.modifiers@.push(modifier),
    {
        let mut r = self;
        r.modifiers.push(modifier);
        r
    }
}

impl MouseBinding {
    /// A binding on `button`.
    pub fn new(button: MouseButton) -> (r: MouseBinding)
        ensures
            r.button == button,
    {
        MouseBinding { button }
    }
}

impl InputBinding {
    /// A binding on `key` with no modifiers.
    pub fn key(key: KeyCode) -> (r: InputBinding)
        ensures
            r@ == (BindingView::Key { key, modifiers: Seq::empty() }),
    {
        InputBinding::Key(KeyBinding::new(key))
    }

    /// A binding on `key` held together with `modifier`.
    pub fn key_with_modifier(key: KeyCode, modifier: KeyCode) -> (r: InputBinding)
        ensures
            r@ == (BindingView::Key { key, modifiers: seq![modifier] }),
    {
        let r = InputBinding::Key(KeyBinding::new(key).with_modifier(modifier));
        assert(r@ == (BindingView::Key { key, modifiers: seq![modifier] }));
        r
    }

    /// A binding on a mouse button.
    pub fn mouse(button: MouseButton) -> (r: InputBinding)
        ensures
            r@ == (BindingView::Mouse { button }),
    {
        InputBinding::Mouse(MouseBinding::new(button))
    }
}

} // verus!
