//! The raw device state of one frame: which keys and mouse buttons are down.

use vstd::prelude::*;

use crate::keys::{
    button_index, key_index, lemma_button_index, lemma_key_index, KeyCode, MouseButton,
    BUTTON_COUNT, KEY_COUNT,
};

verus! {

/// The keys and buttons that are down.
pub struct Pressed {
    pub keys: Set<KeyCode>,
    pub buttons: Set<MouseButton>,
}

/// Nothing is down.
pub open spec fn nothing_pressed() -> Pressed {
    Pressed { keys: Set::empty(), buttons: Set::empty() }
}

/// What is down in `now` and was not down in `before`. Applied one way it
/// gives the inputs just pressed, applied the other way those just released.
pub open spec fn newly_pressed(now: Pressed, before: Pressed) -> Pressed {
    Pressed { keys: now.keys - before.keys, buttons: now.buttons - before.buttons }
}

/// The keys whose flag is set in a table of key flags.
pub open spec fn keys_of(flags: Seq<bool>) -> Set<KeyCode> {
    Set::new(|k: KeyCode| flags[key_index(k)])
}

/// The buttons whose flag is set in a table of button flags.
pub open spec fn buttons_of(flags: Seq<bool>) -> Set<MouseButton> {
    Set::new(|b: MouseButton| flags[button_index(b)])
}

/// A snapshot of the keys and mouse buttons that are down, as one flag per
/// supported key and one per button.
pub struct FrameInput {
    keys: Vec<bool>,
    buttons: Vec<bool>,
}

impl View for FrameInput {
    type V = Pressed;

    closed spec fn view(&self) -> Pressed {
        Pressed { keys: keys_of(self.keys@), buttons: buttons_of(self.buttons@) }
    }
}

impl FrameInput {
    /// One flag for each supported key and each button.
    pub closed spec fn wf(&self) -> bool {
        self.keys@.len() == KEY_COUNT && self.buttons@.len() == BUTTON_COUNT
    }

    /// A snapshot in which everything is released. This is also what a frame
    /// reports when the device state cannot be read.
    pub fn new() -> (r: FrameInput)
        ensures
            r.wf(),
            r@ == nothing_pressed(),
    {
        let mut keys: Vec<bool> = Vec::new();
        let mut i: usize = 0;
        while i < KEY_COUNT
            invariant
                i <= KEY_COUNT,
                keys@.len() == i,
                forall|j: int| 0 <= j < i ==> !keys@[j],
            decreases KEY_COUNT - i,
        {
            keys.push(false);
            i = i + 1;
        }
        let buttons: Vec<bool> = vec![false, false, false];
        let r = FrameInput { keys, buttons };
        proof {
            assert forall|k: KeyCode| !keys_of(r.keys@).contains(k) by {
                lemma_key_index(k);
            }
            assert forall|b: MouseButton| !buttons_of(r.buttons@).contains(b) by {
                lemma_button_index(b);
            }
            assert(keys_of(r.keys@) =~= Set::empty());
            assert(buttons_of(r.buttons@) =~= Set::empty());
        }
        r
    }

    /// Marks `key` as down.
    pub fn press_key(&mut self, key: KeyCode)
        requires
            old(self).wf(),
        ensures
            final(self).wf(),
            final(self)@ == (Pressed { keys: old(self)@.keys.insert(key), ..old(self)@ }),
    {
        let i = key.index();
        self.keys.set(i, true);
        proof {
            assert forall|k: KeyCode| #[trigger]
                keys_of(self.keys@).contains(k) == old(self)@.keys.insert(key).contains(k) by {
                lemma_key_index(k);
                lemma_key_index(key);
            }
            assert(keys_of(self.keys@) =~= old(self)@.keys.insert(key));
        }
    }

    /// Marks `button` as down.
    pub fn press_button(&mut self, button: MouseButton)
        requires
            old(self).wf(),
        ensures
            final(self).wf(),
            final(self)@ == (Pressed { buttons: old(self)@.buttons.insert(button), ..old(self)@ }),
    {
        let i = button.index();
        self.buttons.set(i, true);
        proof {
            assert forall|b: MouseButton| #[trigger]
                buttons_of(self.buttons@).contains(b) == old(self)@.buttons.insert(button).contains(
                    b,
                ) by {
                lemma_button_index(b);
                lemma_button_index(button);
            }
            assert(buttons_of(self.buttons@) =~= old(self)@.buttons.insert(button));
        }
    }

    /// Whether `key` is down.
    pub fn is_key_down(&self, key: KeyCode) -> (r: bool)
        requires
            self.wf(),
        ensures
            r == self@.keys.contains(key),
    {
        self.keys[key.index()]
    }

    /// Whether `button` is down.
    pub fn is_button_down(&self, button: MouseButton) -> (r: bool)
        requires
            self.wf(),
        ensures
            r == self@.buttons.contains(button),
    {
        self.buttons[button.index()]
    }

    /// The inputs that are down here and were not down in `before`.
    pub fn pressed_since(&self, before: &FrameInput) -> (r: FrameInput)
        requires
            self.wf(),
            before.wf(),
        ensures
            r.wf(),
            r@ == newly_pressed(self@, before@),
    {
        let mut keys: Vec<bool> = Vec::new();
        let mut i: usize = 0;
        while i < KEY_COUNT
            invariant
                self.wf(),
                before.wf(),
                i <= KEY_COUNT,
                keys@.len() == i,
                forall|j: int| 0 <= j < i ==> keys@[j] == (self.keys@[j] && !before.keys@[j]),
            decreases KEY_COUNT - i,
        {
            keys.push(self.keys[i] && !before.keys[i]);
            i = i + 1;
        }
        let mut buttons: Vec<bool> = Vec::new();
        let mut i: usize = 0;
        while i < BUTTON_COUNT
            invariant
                self.wf(),
                before.wf(),
                i <= BUTTON_COUNT,
                buttons@.len() == i,
                forall|j: int|
                    0 <= j < i ==> buttons@[j] == (self.buttons@[j] && !before.buttons@[j]),
            decreases BUTTON_COUNT - i,
        {
            buttons.push(self.buttons[i] && !before.buttons[i]);
            i = i + 1;
        }
        let r = FrameInput { keys, buttons };
        proof {
            assert forall|k: KeyCode| #[trigger]
                keys_of(r.keys@).contains(k) == (self@.keys - before@.keys).contains(k) by {
                lemma_key_index(k);
            }
            assert forall|b: MouseButton| #[trigger]
                buttons_of(r.buttons@).contains(b) == (self@.buttons - before@.buttons).contains(b) by {
                lemma_button_index(b);
            }
            assert(keys_of(r.keys@) =~= self@.keys - before@.keys);
            assert(buttons_of(r.buttons@) =~= self@.buttons - before@.buttons);
        }
        r
    }
}

} // verus!
