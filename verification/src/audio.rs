use vstd::prelude::*;

verus! {

/// The kinds of sound the board makes.
#[derive(Clone, Copy, Debug, PartialEq, Eq, Structural)]
pub enum SoundEvent {
    Move,
    Capture,
    Draw,
}

} // verus!
