//! Key state tracking: the per-key record that input handling keeps, and
//! its transition on press and release events.

use vstd::prelude::*;

verus! {

/// The state of one key or button over the current frame.
#[derive(Clone, Copy, PartialEq, Eq, Structural, Debug)]
pub struct State {
    pub held: bool,
    pub just_pressed: bool,
    pub just_released: bool,
}

impl State {
    /// A key that has not been touched.
    pub fn new() -> (s: State)
        ensures
            s == (State { held: false, just_pressed: false, just_released: false }),
    {
        State { held: false, just_pressed: false, just_released: false }
    }

    /// The state after a key event: a press holds the key and flags
    /// `just_pressed` exactly when the key was up; a release drops it and
    /// flags `just_released` exactly when the key was down.
    pub fn apply(self, pressed: bool) -> (s: State)
        ensures
            s.held == pressed,
            s.just_pressed == (pressed && !self.held),
            s.just_released == (!pressed && self.held),
    {
        if pressed {
            State { held: true, just_pressed: !self.held, just_released: false }
        } else {
            State { held: false, just_pressed: false, just_released: self.held }
        }
    }
}

} // verus!
