//! Controller button words.

use vstd::prelude::*;

verus! {

/// Logical button word: the game's interpretation of the controller inputs.
#[derive(Clone, Copy, Debug, PartialEq, Eq, Structural)]
pub struct Logical(pub u32);

/// Physical button word: the raw controller bits.
#[derive(Clone, Copy, Debug, PartialEq, Eq, Structural)]
pub struct Physical(pub u16);

} // verus!
