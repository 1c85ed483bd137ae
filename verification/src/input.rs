//! Input state: which movement keys are held and whether quit was asked
//! for.  The terminal event source lives outside the crate and feeds these
//! transitions.

use vstd::prelude::*;

verus! {

/// A movement key the camera responds to while held.
#[derive(Clone, Copy, PartialEq, Eq, Structural, Debug)]
pub enum MoveKey {
    Forward,
    Back,
    Left,
    Right,
}

/// Which movement keys are currently held.
#[derive(Clone, Copy, PartialEq, Eq, Structural, Debug)]
pub struct HeldMovementKeys {
    pub forward: bool,
    pub back: bool,
    pub left: bool,
    pub right: bool,
}

/// The input-driven part of the application state.
#[derive(Clone, Copy, PartialEq, Eq, Structural, Debug)]
pub struct InputState {
    pub held: HeldMovementKeys,
    pub quit_requested: bool,
}

impl HeldMovementKeys {
    /// No key held.
    pub fn new() -> (r: HeldMovementKeys)
        ensures
            r == (HeldMovementKeys { forward: false, back: false, left: false, right: false }),
    {
        HeldMovementKeys { forward: false, back: false, left: false, right: false }
    }
}

impl InputState {
    /// The initial state: nothing held, no quit asked for.
    pub fn new() -> (r: InputState)
        ensures
            r.held == (HeldMovementKeys { forward: false, back: false, left: false, right: false }),
            !r.quit_requested,
    {
        InputState { held: HeldMovementKeys::new(), quit_requested: false }
    }

    /// Records a movement key going down or up.  Only the named key changes.
    pub fn apply_key(&mut self, key: MoveKey, pressed: bool) -> (nothing: ())
        ensures
            final(self).quit_requested == old(self).quit_requested,
            final(self).held == (match key {
                MoveKey::Forward => HeldMovementKeys { forward: pressed, ..old(self).held },
                MoveKey::Back => HeldMovementKeys { back: pressed, ..old(self).held },
                MoveKey::Left => HeldMovementKeys { left: pressed, ..old(self).held },
                MoveKey::Right => HeldMovementKeys { right: pressed, ..old(self).held },
            }),
    {
        match key {
            MoveKey::Forward => {
                self.held.forward = pressed;
            },
            MoveKey::Back => {
                self.held.back = pressed;
            },
            MoveKey::Left => {
                self.held.left = pressed;
            },
            MoveKey::Right => {
                self.held.right = pressed;
            },
        }
    }

    /// Drops every held key, as when the terminal loses focus.
    pub fn clear_held(&mut self) -> (nothing: ())
        ensures
            final(self).quit_requested == old(self).quit_requested,
            final(self).held == (HeldMovementKeys {
                forward: false,
                back: false,
                left: false,
                right: false,
            }),
    {
        self.held = HeldMovementKeys::new();
    }

    /// Records a quit request.
    pub fn request_quit(&mut self) -> (nothing: ())
        ensures
            final(self).quit_requested,
            final(self).held == old(self).held,
    {
        self.quit_requested = true;
    }
}

/// The signed movement axes the held keys ask for: forward minus back, and
/// right minus left.
pub fn movement_axes(held: &HeldMovementKeys) -> (r: (i64, i64))
    ensures
        r.0 == (if held.forward {
            1int
        } else {
            0int
        }) - (if held.back {
            1int
        } else {
            0int
        }),
        r.1 == (if held.right {
            1int
        } else {
            0int
        }) - (if held.left {
            1int
        } else {
            0int
        }),
{
    let f: i64 = if held.forward {
        1
    } else {
        0
    };
    let b: i64 = if held.back {
        1
    } else {
        0
    };
    let l: i64 = if held.left {
        1
    } else {
        0
    };
    let rr: i64 = if held.right {
        1
    } else {
        0
    };
    (f - b, rr - l)
}

} // verus!
