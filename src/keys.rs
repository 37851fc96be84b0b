//! The physical inputs that the engine tracks: the supported keyboard keys
//! and the three standard mouse buttons, each with a dense index so that a
//! set of them can be stored as a table of flags.

use vstd::prelude::*;

verus! {

/// Number of keyboard keys that are sampled each frame.
pub const KEY_COUNT: usize = 51;

/// Number of mouse buttons that are sampled each frame.
pub const BUTTON_COUNT: usize = 3;

/// A keyboard key from the supported key set.
#[derive(Clone, Copy, Debug, PartialEq, Eq, Structural, Hash)]
pub enum KeyCode {
    A,
    B,
    C,
    D,
    E,
    F,
    G,
    H,
    I,
    J,
    K,
    L,
    M,
    N,
    O,
    P,
    Q,
    R,
    S,
    T,
    U,
    V,
    W,
    X,
    Y,
    Z,
    Key0,
    Key1,
    Key2,
    Key3,
    Key4,
    Key5,
    Key6,
    Key7,
    Key8,
    Key9,
    Space,
    Enter,
    Escape,
    Backspace,
    Tab,
    LeftShift,
    RightShift,
    LeftControl,
    RightControl,
    LeftAlt,
    RightAlt,
    Up,
    Down,
    Left,
    Right,
}

/// Position of a key in the table of key flags.
pub open spec fn key_index(k: KeyCode) -> int {
    match k {
        KeyCode::A => 0,
        KeyCode::B => 1,
        KeyCode::C => 2,
        KeyCode::D => 3,
        KeyCode::E => 4,
        KeyCode::F => 5,
        KeyCode::G => 6,
        KeyCode::H => 7,
        KeyCode::I => 8,
        KeyCode::J => 9,
        KeyCode::K => 10,
        KeyCode::L => 11,
        KeyCode::M => 12,
        KeyCode::N => 13,
        KeyCode::O => 14,
        KeyCode::P => 15,
        KeyCode::Q => 16,
        KeyCode::R => 17,
        KeyCode::S => 18,
        KeyCode::T => 19,
        KeyCode::U => 20,
        KeyCode::V => 21,
        KeyCode::W => 22,
        KeyCode::X => 23,
        KeyCode::Y => 24,
        KeyCode::Z => 25,
        KeyCode::Key0 => 26,
        KeyCode::Key1 => 27,
        KeyCode::Key2 => 28,
        KeyCode::Key3 => 29,
        KeyCode::Key4 => 30,
        KeyCode::Key5 => 31,
        KeyCode::Key6 => 32,
        KeyCode::Key7 => 33,
        KeyCode::Key8 => 34,
        KeyCode::Key9 => 35,
        KeyCode::Space => 36,
        KeyCode::Enter => 37,
        KeyCode::Escape => 38,
        KeyCode::Backspace => 39,
        KeyCode::Tab => 40,
        KeyCode::LeftShift => 41,
        KeyCode::RightShift => 42,
        KeyCode::LeftControl => 43,
        KeyCode::RightControl => 44,
        KeyCode::LeftAlt => 45,
        KeyCode::RightAlt => 46,
        KeyCode::Up => 47,
        KeyCode::Down => 48,
        KeyCode::Left => 49,
        KeyCode::Right => 50,
    }
}

/// The key stored at a position of the table of key flags.
pub open spec fn key_at(i: int) -> KeyCode
    recommends
        0 <= i < KEY_COUNT,
{
    if i == 0 {
        KeyCode::A
    } else if i == 1 {
        KeyCode::B
    } else if i == 2 {
        KeyCode::C
    } else if i == 3 {
        KeyCode::D
    } else if i == 4 {
        KeyCode::E
    } else if i == 5 {
        KeyCode::F
    } else if i == 6 {
        KeyCode::G
    } else if i == 7 {
        KeyCode::H
    } else if i == 8 {
        KeyCode::I
    } else if i == 9 {
        KeyCode::J
    } else if i == 10 {
        KeyCode::K
    } else if i == 11 {
        KeyCode::L
    } else if i == 12 {
        KeyCode::M
    } else if i == 13 {
        KeyCode::N
    } else if i == 14 {
        KeyCode::O
    } else if i == 15 {
        KeyCode::P
    } else if i == 16 {
        KeyCode::Q
    } else if i == 17 {
        KeyCode::R
    } else if i == 18 {
        KeyCode::S
    } else if i == 19 {
        KeyCode::T
    } else if i == 20 {
        KeyCode::U
    } else if i == 21 {
        KeyCode::V
    } else if i == 22 {
        KeyCode::W
    } else if i == 23 {
        KeyCode::X
    } else if i == 24 {
        KeyCode::Y
    } else if i == 25 {
        KeyCode::Z
    } else if i == 26 {
        KeyCode::Key0
    } else if i == 27 {
        KeyCode::Key1
    } else if i == 28 {
        KeyCode::Key2
    } else if i == 29 {
        KeyCode::Key3
    } else if i == 30 {
        KeyCode::Key4
    } else if i == 31 {
        KeyCode::Key5
    } else if i == 32 {
        KeyCode::Key6
    } else if i == 33 {
        KeyCode::Key7
    } else if i == 34 {
        KeyCode::Key8
    } else if i == 35 {
        KeyCode::Key9
    } else if i == 36 {
        KeyCode::Space
    } else if i == 37 {
        KeyCode::Enter
    } else if i == 38 {
        KeyCode::Escape
    } else if i == 39 {
        KeyCode::Backspace
    } else if i == 40 {
        KeyCode::Tab
    } else if i == 41 {
        KeyCode::LeftShift
    } else if i == 42 {
        KeyCode::RightShift
    } else if i == 43 {
        KeyCode::LeftControl
    } else if i == 44 {
        KeyCode::RightControl
    } else if i == 45 {
        KeyCode::LeftAlt
    } else if i == 46 {
        KeyCode::RightAlt
    } else if i == 47 {
        KeyCode::Up
    } else if i == 48 {
        KeyCode::Down
    } else if i == 49 {
        KeyCode::Left
    } else {
        KeyCode::Right
    }
}

/// Every key has a position inside the table, and distinct keys have
/// distinct positions.
pub proof fn lemma_key_index(k: KeyCode)
    ensures
        0 <= key_index(k) < KEY_COUNT,
        key_at(key_index(k)) == k,
{
}

impl KeyCode {
    /// The position of this key in a table of key flags.
    pub fn index(&self) -> (r: usize)
        ensures
            r as int == key_index(*self),
            r < KEY_COUNT,
    {
        match self {
            KeyCode::A => 0,
            KeyCode::B => 1,
            KeyCode::C => 2,
            KeyCode::D => 3,
            KeyCode::E => 4,
            KeyCode::F => 5,
            KeyCode::G => 6,
            KeyCode::H => 7,
            KeyCode::I => 8,
            KeyCode::J => 9,
            KeyCode::K => 10,
            KeyCode::L => 11,
            KeyCode::M => 12,
            KeyCode::N => 13,
            KeyCode::O => 14,
            KeyCode::P => 15,
            KeyCode::Q => 16,
            KeyCode::R => 17,
            KeyCode::S => 18,
            KeyCode::T => 19,
            KeyCode::U => 20,
            KeyCode::V => 21,
            KeyCode::W => 22,
            KeyCode::X => 23,
            KeyCode::Y => 24,
            KeyCode::Z => 25,
            KeyCode::Key0 => 26,
            KeyCode::Key1 => 27,
            KeyCode::Key2 => 28,
            KeyCode::Key3 => 29,
            KeyCode::Key4 => 30,
            KeyCode::Key5 => 31,
            KeyCode::Key6 => 32,
            KeyCode::Key7 => 33,
            KeyCode::Key8 => 34,
            KeyCode::Key9 => 35,
            KeyCode::Space => 36,
            KeyCode::Enter => 37,
            KeyCode::Escape => 38,
            KeyCode::Backspace => 39,
            KeyCode::Tab => 40,
            KeyCode::LeftShift => 41,
            KeyCode::RightShift => 42,
            KeyCode::LeftControl => 43,
            KeyCode::RightControl => 44,
            KeyCode::LeftAlt => 45,
            KeyCode::RightAlt => 46,
            KeyCode::Up => 47,
            KeyCode::Down => 48,
            KeyCode::Left => 49,
            KeyCode::Right => 50,
        }
    }

    /// The key at position `i` of a table of key flags.
    pub fn from_index(i: usize) -> (r: KeyCode)
        requires
            i < KEY_COUNT,
        ensures
            r == key_at(i as int),
            key_index(r) == i as int,
    {
        if i == 0 {
            KeyCode::A
        } else if i == 1 {
            KeyCode::B
        } else if i == 2 {
            KeyCode::C
        } else if i == 3 {
            KeyCode::D
        } else if i == 4 {
            KeyCode::E
        } else if i == 5 {
            KeyCode::F
        } else if i == 6 {
            KeyCode::G
        } else if i == 7 {
            KeyCode::H
        } else if i == 8 {
            KeyCode::I
        } else if i == 9 {
            KeyCode::J
        } else if i == 10 {
            KeyCode::K
        } else if i == 11 {
            KeyCode::L
        } else if i == 12 {
            KeyCode::M
        } else if i == 13 {
            KeyCode::N
        } else if i == 14 {
            KeyCode::O
        } else if i == 15 {
            KeyCode::P
        } else if i == 16 {
            KeyCode::Q
        } else if i == 17 {
            KeyCode::R
        } else if i == 18 {
            KeyCode::S
        } else if i == 19 {
            KeyCode::T
        } else if i == 20 {
            KeyCode::U
        } else if i == 21 {
            KeyCode::V
        } else if i == 22 {
            KeyCode::W
        } else if i == 23 {
            KeyCode::X
        } else if i == 24 {
            KeyCode::Y
        } else if i == 25 {
            KeyCode::Z
        } else if i == 26 {
            KeyCode::Key0
        } else if i == 27 {
            KeyCode::Key1
        } else if i == 28 {
            KeyCode::Key2
        } else if i == 29 {
            KeyCode::Key3
        } else if i == 30 {
            KeyCode::Key4
        } else if i == 31 {
            KeyCode::Key5
        } else if i == 32 {
            KeyCode::Key6
        } else if i == 33 {
            KeyCode::Key7
        } else if i == 34 {
            KeyCode::Key8
        } else if i == 35 {
            KeyCode::Key9
        } else if i == 36 {
            KeyCode::Space
        } else if i == 37 {
            KeyCode::Enter
        } else if i == 38 {
            KeyCode::Escape
        } else if i == 39 {
            KeyCode::Backspace
        } else if i == 40 {
            KeyCode::Tab
        } else if i == 41 {
            KeyCode::LeftShift
        } else if i == 42 {
            KeyCode::RightShift
        } else if i == 43 {
            KeyCode::LeftControl
        } else if i == 44 {
            KeyCode::RightControl
        } else if i == 45 {
            KeyCode::LeftAlt
        } else if i == 46 {
            KeyCode::RightAlt
        } else if i == 47 {
            KeyCode::Up
        } else if i == 48 {
            KeyCode::Down
        } else if i == 49 {
            KeyCode::Left
        } else {
            KeyCode::Right
        }
    }
}

/// A standard mouse button.
#[derive(Clone, Copy, Debug, PartialEq, Eq, Structural, Hash)]
pub enum MouseButton {
    Left,
    Right,
    Middle,
}

/// Position of a button in the table of button flags.
pub open spec fn button_index(b: MouseButton) -> int {
    match b {
        MouseButton::Left => 0,
        MouseButton::Right => 1,
        MouseButton::Middle => 2,
    }
}

/// The button stored at a position of the table of button flags.
pub open spec fn button_at(i: int) -> MouseButton
    recommends
        0 <= i < BUTTON_COUNT,
{
    if i == 0 {
        MouseButton::Left
    } else if i == 1 {
        MouseButton::Right
    } else {
        MouseButton::Middle
    }
}

/// Every button has a position inside the table, and distinct buttons have
/// distinct positions.
pub proof fn lemma_button_index(b: MouseButton)
    ensures
        0 <= button_index(b) < BUTTON_COUNT,
        button_at(button_index(b)) == b,
{
}

impl MouseButton {
    /// The position of this button in a table of button flags.
    pub fn index(&self) -> (r: usize)
        ensures
            r as int == button_index(*self),
            r < BUTTON_COUNT,
    {
        match self {
            MouseButton::Left => 0,
            MouseButton::Right => 1,
            MouseButton::Middle => 2,
        }
    }

    /// The button at position `i` of a table of button flags.
    pub fn from_index(i: usize) -> (r: MouseButton)
        requires
            i < BUTTON_COUNT,
        ensures
            r == button_at(i as int),
            button_index(r) == i as int,
    {
        if i == 0 {
            MouseButton::Left
        } else if i == 1 {
            MouseButton::Right
        } else {
            MouseButton::Middle
        }
    }
}

} // verus!
