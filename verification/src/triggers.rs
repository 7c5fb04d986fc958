//! Analog trigger values. Raw trigger positions are IEEE-754 single-precision
//! values on the wire; they are carried as their 32-bit bit patterns, which
//! the decoder never interprets numerically.

use vstd::prelude::*;

verus! {

/// Physical positions of the left and right triggers, as bit patterns.
#[derive(Clone, Copy, Debug, PartialEq, Eq, Structural)]
pub struct Physical {
    pub l: u32,
    pub r: u32,
}

} // verus!
