//! An action-based input engine: raw per-frame key and button state is
//! turned into named actions with edge detection and a short activation
//! buffer.

pub mod action;
pub mod action_map;
pub mod buffer;
pub mod frame;
pub mod keys;
pub mod manager;
pub mod resolve;
pub mod theorems;

pub use action::{Action, InputBinding, KeyBinding, MouseBinding};
pub use frame::FrameInput;
pub use keys::{KeyCode, MouseButton};
pub use manager::{InputManager, Movement};
