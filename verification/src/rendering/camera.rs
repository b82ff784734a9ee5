//! The directions in which the camera can be moved.
use vstd::prelude::*;

verus! {

/// A direction of camera movement, relative to where the camera looks.
#[derive(Debug, Clone, Copy, PartialEq, Eq, Structural)]
pub enum Direction {
    Forward,
    Backward,
    Left,
    Right,
    Up,
    Down,
}

} // verus!
