//! Per-frame records: one pre-frame and one post-frame snapshot per object
//! per simulation tick. Wire values that are IEEE-754 single-precision are
//! carried as their 32-bit bit patterns; the only numeric interpretation the
//! decoder performs on them is the sign test behind `Direction`.

use vstd::prelude::*;

use crate::action_state;
use crate::buttons;
use crate::game;
use crate::triggers;

verus! {

/// Facing direction, derived from the sign of a raw floating value.
#[derive(Clone, Copy, Debug, PartialEq, Eq, Structural)]
pub enum Direction {
    Left,
    Right,
}

/// L-cancel outcome; the wire value 0 means "absent".
#[derive(Clone, Copy, Debug, PartialEq, Eq, Structural)]
pub struct LCancel(pub u8);

pub const L_CANCEL_SUCCESSFUL: u8 = 1;

pub const L_CANCEL_UNSUCCESSFUL: u8 = 2;

/// Hurtbox condition.
#[derive(Clone, Copy, Debug, PartialEq, Eq, Structural)]
pub struct HurtboxState(pub u8);

pub const HURTBOX_VULNERABLE: u8 = 0;

pub const HURTBOX_INVULNERABLE: u8 = 1;

pub const HURTBOX_INTANGIBLE: u8 = 2;

/// Move identifier of the last attack that landed; the wire value 0 means
/// "absent".
#[derive(Clone, Copy, Debug, PartialEq, Eq, Structural)]
pub struct Attack(pub u8);

/// A 2-D position as a pair of IEEE-754 single-precision bit patterns.
#[derive(Clone, Copy, Debug, PartialEq, Eq, Structural)]
pub struct Position {
    pub x: u32,
    pub y: u32,
}

/// Button state, logical and physical.
#[derive(Clone, Copy, Debug, PartialEq, Eq, Structural)]
pub struct Buttons {
    pub logical: buttons::Logical,
    pub physical: buttons::Physical,
}

/// Trigger state, logical and physical.
#[derive(Clone, Copy, Debug, PartialEq, Eq, Structural)]
pub struct Triggers {
    pub logical: u32,
    pub physical: triggers::Physical,
}

/// Status flag word packed from five byte-aligned reads at fixed bit offsets.
#[derive(Clone, Copy, Debug, PartialEq, Eq, Structural)]
pub struct StateFlags(pub u64);

/// Pre-frame extension introduced with format 1.4.
#[derive(Clone, Copy, Debug, PartialEq, Eq, Structural)]
pub struct PreV1_4 {
    /// Percent, as a bit pattern.
    pub damage: u32,
}

/// Pre-frame extension introduced with format 1.2.
#[derive(Clone, Copy, Debug, PartialEq)]
pub struct PreV1_2 {
    pub raw_analog_x: u8,
    pub v1_4: Option<PreV1_4>,
}

/// Pre-frame snapshot of one object.
#[derive(Clone, Copy, Debug, PartialEq)]
pub struct Pre {
    pub index: i32,
    pub position: Position,
    pub direction: Direction,
    pub joystick: Position,
    pub cstick: Position,
    pub triggers: Triggers,
    pub random_seed: u32,
    pub buttons: Buttons,
    pub state: action_state::State,
    pub v1_2: Option<PreV1_2>,
}

/// Post-frame extension introduced with format 2.1.
#[derive(Clone, Copy, Debug, PartialEq, Eq, Structural)]
pub struct PostV2_1 {
    pub hurtbox_state: HurtboxState,
}

/// Post-frame extension introduced with format 2.0.
#[derive(Clone, Copy, Debug, PartialEq)]
pub struct PostV2_0 {
    pub flags: StateFlags,
    /// State-specific scratch value, as a bit pattern.
    pub misc_as: u32,
    pub ground: u16,
    pub jumps: u8,
    pub l_cancel: Option<LCancel>,
    pub airborne: bool,
    pub v2_1: Option<PostV2_1>,
}

/// Post-frame extension introduced with format 0.2.
#[derive(Clone, Copy, Debug, PartialEq)]
pub struct PostV0_2 {
    /// Age of the current action state in frames, as a bit pattern.
    pub state_age: u32,
    pub v2_0: Option<PostV2_0>,
}

/// Post-frame snapshot of one object.
#[derive(Clone, Copy, Debug, PartialEq)]
pub struct Post {
    pub index: i32,
    pub position: Position,
    pub direction: Direction,
    /// Percent, as a bit pattern.
    pub damage: u32,
    /// Shield health, as a bit pattern.
    pub shield: u32,
    pub state: action_state::State,
    pub character: action_state::Internal,
    pub last_attack_landed: Option<Attack>,
    pub combo_count: u8,
    pub last_hit_by: u8,
    pub stocks: u8,
    pub v0_2: Option<PostV0_2>,
}

/// Records that occupy a fixed place in a per-frame array.
pub trait Indexed {
    /// The frame index this record carries.
    spec fn frame_index(&self) -> int;

    /// 0-based array index of this record's frame.
    fn array_index(&self) -> (r: usize)
        requires
            self.frame_index() >= game::FIRST_FRAME_INDEX,
        ensures
            r == self.frame_index() - game::FIRST_FRAME_INDEX,
    ;
}

impl Indexed for Pre {
    open spec fn frame_index(&self) -> int {
        self.index as int
    }

    fn array_index(&self) -> (r: usize) {
        ((self.index as i64) - (game::FIRST_FRAME_INDEX as i64)) as usize
    }
}

impl Indexed for Post {
    open spec fn frame_index(&self) -> int {
        self.index as int
    }

    fn array_index(&self) -> (r: usize) {
        ((self.index as i64) - (game::FIRST_FRAME_INDEX as i64)) as usize
    }
}

} // verus!
