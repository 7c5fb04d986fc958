//! Interpreted action-state codes. A raw state code below the shared range
//! boundary means the same thing for every character; codes at or above it
//! are character-specific, so their interpretation is tagged with the
//! character they were decoded for.

use vstd::prelude::*;

verus! {

/// Internal character identifier as carried by per-frame records.
#[derive(Clone, Copy, Debug, PartialEq, Eq, Structural)]
pub struct Internal(pub u8);

pub const INTERNAL_SHEIK: u8 = 7;

pub const INTERNAL_ZELDA: u8 = 19;

/// First character-specific state code; codes below it are common to all
/// characters.
pub const FIRST_CHARACTER_STATE: u16 = 341;

/// The common idle state.
pub const WAIT: u16 = 14;

pub const SHEIK_TRANSFORM_GROUND: u16 = 354;

pub const SHEIK_TRANSFORM_AIR: u16 = 356;

pub const ZELDA_TRANSFORM_GROUND: u16 = 355;

pub const ZELDA_TRANSFORM_AIR: u16 = 357;

/// An interpreted action-state code.
#[derive(Clone, Copy, Debug, PartialEq, Eq, Structural)]
pub enum State {
    /// A code in the range shared by all characters.
    Common(u16),
    /// A character-specific code interpreted for Sheik.
    Sheik(u16),
    /// A character-specific code interpreted for Zelda.
    Zelda(u16),
    /// A character-specific code for any other character, tagged with that
    /// character's identifier.
    Other(u8, u16),
}

/// How a raw state code is interpreted for a given character.
pub open spec fn spec_state_from(value: u16, character: Internal) -> State {
    if value < FIRST_CHARACTER_STATE {
        State::Common(value)
    } else if character.0 == INTERNAL_SHEIK {
        State::Sheik(value)
    } else if character.0 == INTERNAL_ZELDA {
        State::Zelda(value)
    } else {
        State::Other(character.0, value)
    }
}

impl State {
    /// Interprets a raw state code for the given character.
    pub fn from(value: u16, character: Internal) -> (s: State)
        ensures
            s == spec_state_from(value, character),
    {
        if value < FIRST_CHARACTER_STATE {
            State::Common(value)
        } else if character.0 == INTERNAL_SHEIK {
            State::Sheik(value)
        } else if character.0 == INTERNAL_ZELDA {
            State::Zelda(value)
        } else {
            State::Other(character.0, value)
        }
    }
}

} // verus!
