//! Match-level records: game start (setup) and game end. Wire values that are
//! IEEE-754 single-precision on the wire are carried as their 32-bit bit
//! patterns; the decoder never interprets them numerically.

use vstd::prelude::*;

verus! {

/// Number of addressable player slots.
pub const NUM_PORTS: usize = 4;

/// Frame index of the first valid in-game frame; earlier (negative) indexes
/// are pre-match countdown frames.
pub const FIRST_FRAME_INDEX: i32 = -123;

/// External character identifier as used in match setup.
#[derive(Clone, Copy, Debug, PartialEq, Eq, Structural)]
pub struct External(pub u8);

/// Stage identifier.
#[derive(Clone, Copy, Debug, PartialEq, Eq, Structural)]
pub struct Stage(pub u16);

/// Raw slot-type discriminant.
#[derive(Clone, Copy, Debug, PartialEq, Eq, Structural)]
pub struct PlayerType(pub u8);

pub const PLAYER_TYPE_HUMAN: u8 = 0;

pub const PLAYER_TYPE_CPU: u8 = 1;

pub const PLAYER_TYPE_DEMO: u8 = 2;

/// Whether a slot-type discriminant denotes an occupied slot.
pub open spec fn spec_occupied(t: PlayerType) -> bool {
    t.0 == PLAYER_TYPE_HUMAN || t.0 == PLAYER_TYPE_CPU || t.0 == PLAYER_TYPE_DEMO
}

/// Dash-back fix variant; the wire value 0 means "absent".
#[derive(Clone, Copy, Debug, PartialEq, Eq, Structural)]
pub struct DashBack(pub u32);

/// Shield-drop fix variant; the wire value 0 means "absent".
#[derive(Clone, Copy, Debug, PartialEq, Eq, Structural)]
pub struct ShieldDrop(pub u32);

#[derive(Clone, Copy, Debug, PartialEq, Eq, Structural)]
pub struct TeamColor(pub u8);

#[derive(Clone, Copy, Debug, PartialEq, Eq, Structural)]
pub struct TeamShade(pub u8);

/// Team assignment, present only in teams mode.
#[derive(Clone, Copy, Debug, PartialEq, Eq, Structural)]
pub struct Team {
    pub color: TeamColor,
    pub shade: TeamShade,
}

/// Controller-fix settings.
#[derive(Clone, Copy, Debug, PartialEq, Eq, Structural)]
pub struct Ucf {
    pub dash_back: Option<DashBack>,
    pub shield_drop: Option<ShieldDrop>,
}

/// Per-player name-tag extension.
#[derive(Clone, Debug, PartialEq)]
pub struct PlayerV1_3 {
    pub name_tag: String,
}

/// Per-player controller-fix extension.
#[derive(Clone, Debug, PartialEq)]
pub struct PlayerV1_0 {
    pub ucf: Ucf,
    pub v1_3: Option<PlayerV1_3>,
}

/// One occupied player slot of the match setup.
#[derive(Clone, Debug, PartialEq)]
pub struct Player {
    pub character: External,
    pub player_type: PlayerType,
    pub stocks: u8,
    pub costume: u8,
    pub team: Option<Team>,
    pub handicap: u8,
    pub bitfield: u8,
    pub cpu_level: Option<u8>,
    pub offense_ratio: u32,
    pub defense_ratio: u32,
    pub model_scale: u32,
    pub v1_0: Option<PlayerV1_0>,
}

/// Producer format version: major, minor, revision.
#[derive(Clone, Copy, Debug, PartialEq, Eq, Structural)]
pub struct SlippiVersion(pub u8, pub u8, pub u8);

/// Recorder identification.
#[derive(Clone, Copy, Debug, PartialEq, Eq, Structural)]
pub struct Slippi {
    pub version: SlippiVersion,
}

/// Game-start extension introduced with format 2.0.
#[derive(Clone, Copy, Debug, PartialEq, Eq, Structural)]
pub struct StartV2_0 {
    pub is_frozen_ps: bool,
}

/// Game-start extension introduced with format 1.5.
#[derive(Clone, Copy, Debug, PartialEq)]
pub struct StartV1_5 {
    pub is_pal: bool,
    pub v2_0: Option<StartV2_0>,
}

/// The three raw setup bitfield bytes, in wire order.
#[derive(Clone, Copy, Debug, PartialEq, Eq, Structural)]
pub struct SetupBitfields {
    pub b1: u8,
    pub b2: u8,
    pub b3: u8,
}

/// The five raw item-spawn bitfield bytes, in wire order.
#[derive(Clone, Copy, Debug, PartialEq, Eq, Structural)]
pub struct ItemSpawnBitfields {
    pub b1: u8,
    pub b2: u8,
    pub b3: u8,
    pub b4: u8,
    pub b5: u8,
}

/// Match setup.
#[derive(Clone, Debug, PartialEq)]
pub struct Start {
    pub slippi: Slippi,
    pub bitfield: SetupBitfields,
    pub is_teams: bool,
    pub item_spawn_frequency: i8,
    pub self_destruct_score: i8,
    pub stage: Stage,
    pub timer: u32,
    pub item_spawn_bitfield: ItemSpawnBitfields,
    pub damage_ratio: u32,
    pub players: Vec<Option<Player>>,
    pub random_seed: u32,
    pub v1_5: Option<StartV1_5>,
}

/// How the match ended.
#[derive(Clone, Copy, Debug, PartialEq, Eq, Structural)]
pub struct EndMethod(pub u8);

/// Game-end extension introduced with format 2.0.
#[derive(Clone, Copy, Debug, PartialEq, Eq, Structural)]
pub struct EndV2_0 {
    pub lras_initiator: i8,
}

/// Match end.
#[derive(Clone, Copy, Debug, PartialEq)]
pub struct End {
    pub method: EndMethod,
    pub v2_0: Option<EndV2_0>,
}

} // verus!
