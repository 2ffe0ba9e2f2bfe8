//! Movement commands for a manipulator's claw.

use vstd::prelude::*;

verus! {

/// The four directions a participant can steer their claw in; the
/// simulation turns one of these into a step of the claw's joint anchor.
pub enum Directions {
    Up,
    Down,
    Left,
    Right,
}

} // verus!
