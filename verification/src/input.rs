//! Player input as the simulation consumes it.

use vstd::prelude::*;

verus! {

/// Which way the player is turning the ship.
#[derive(PartialEq, Eq, Structural, Clone, Copy, Debug)]
pub enum Rotating {
    Still,
    Left,
    Right,
}

/// One player's control state for a tick.
#[derive(PartialEq, Eq, Structural, Clone, Copy, Debug)]
pub struct Input {
    pub quit: bool,
    pub accel: bool,
    pub firing: bool,
    pub rotating: Rotating,
    pub paused: bool,
}

impl Input {
    /// The neutral input: nothing pressed, not turning.
    pub fn new() -> (r: Input)
        ensures
            r == (Input {
                quit: false,
                accel: false,
                firing: false,
                rotating: Rotating::Still,
                paused: false,
            }),
    {
        Input {
            quit: false,
            accel: false,
            firing: false,
            rotating: Rotating::Still,
            paused: false,
        }
    }
}

} // verus!
