//! The streaming decoder: payload-size negotiation, the event dispatch loop
//! with exact byte accounting, the version-layered record decoders, and the
//! per-slot character-prediction state machine.

use vstd::prelude::*;

use crate::action_state::{
    spec_state_from, Internal, State, INTERNAL_SHEIK, INTERNAL_ZELDA, SHEIK_TRANSFORM_AIR,
    SHEIK_TRANSFORM_GROUND, WAIT, ZELDA_TRANSFORM_AIR, ZELDA_TRANSFORM_GROUND,
};
use crate::buttons;
use crate::codec::{as_i8, be_i32, be_u16, be_u32, be_u32_at, decode_name_tag, first_null, shift_jis_of, Reader};
use crate::frame::{
    Attack, Buttons, Direction, HurtboxState, LCancel, Position, Post, PostV0_2, PostV2_0,
    PostV2_1, Pre, PreV1_2, PreV1_4, StateFlags, Triggers,
};
use crate::game::{
    DashBack, End, EndMethod, EndV2_0, External, ItemSpawnBitfields, Player, PlayerType,
    PlayerV1_0, PlayerV1_3, SetupBitfields, ShieldDrop, Slippi, SlippiVersion, Stage, Start,
    StartV1_5, StartV2_0, Team, TeamColor, TeamShade, Ucf, NUM_PORTS, PLAYER_TYPE_CPU,
};
use crate::triggers;
use crate::Error;

verus! {

/// Frames a transformation animation lasts before Zelda becomes Sheik.
pub const ZELDA_TRANSFORM_FRAME: u32 = 43;

/// Frames a transformation animation lasts before Sheik becomes Zelda.
pub const SHEIK_TRANSFORM_FRAME: u32 = 36;

/// Wire code of the payload-size table record that must open the raw stream.
pub const PAYLOADS_EVENT_CODE: u8 = 0x35;

pub const GAME_START_CODE: u8 = 0x36;

pub const FRAME_PRE_CODE: u8 = 0x37;

pub const FRAME_POST_CODE: u8 = 0x38;

pub const GAME_END_CODE: u8 = 0x39;

/// The four known event kinds of the raw stream. Unknown codes are not an
/// error: the negotiated payload-size table makes them skippable.
#[derive(Clone, Copy, Debug, PartialEq, Eq, Structural)]
pub enum Event {
    GameStart,
    FramePre,
    FramePost,
    GameEnd,
}

/// Which known event kind, if any, a wire code denotes.
pub open spec fn spec_event_from_code(code: u8) -> Option<Event> {
    if code == GAME_START_CODE {
        Some(Event::GameStart)
    } else if code == FRAME_PRE_CODE {
        Some(Event::FramePre)
    } else if code == FRAME_POST_CODE {
        Some(Event::FramePost)
    } else if code == GAME_END_CODE {
        Some(Event::GameEnd)
    } else {
        None
    }
}

impl Event {
    pub fn from_code(code: u8) -> (r: Option<Event>)
        ensures
            r == spec_event_from_code(code),
    {
        if code == GAME_START_CODE {
            Some(Event::GameStart)
        } else if code == FRAME_PRE_CODE {
            Some(Event::FramePre)
        } else if code == FRAME_POST_CODE {
            Some(Event::FramePost)
        } else if code == GAME_END_CODE {
            Some(Event::GameEnd)
        } else {
            None
        }
    }
}

/// Identifies one object's state at one frame.
#[derive(Clone, Copy, Debug, PartialEq, Eq, Structural)]
pub struct FrameId {
    pub index: i32,
    pub port: u8,
    pub is_follower: bool,
}

/// A decoded per-frame record together with the frame it belongs to.
#[derive(Clone, Copy, Debug, PartialEq)]
pub struct FrameEvent<F> {
    pub id: FrameId,
    pub event: F,
}

/// Rolling per-slot record of the last confirmed character, state, and how
/// many consecutive frames that pair has persisted.
#[derive(Clone, Copy, Debug, PartialEq, Eq, Structural)]
pub struct CharState {
    pub character: Internal,
    pub state: State,
    pub age: u32,
}

/// Transformations cannot happen on the first frame, so the initial character
/// value is arbitrary.
pub open spec fn spec_default_char_state() -> CharState {
    CharState { character: Internal(255), state: State::Common(WAIT), age: 0 }
}

/// One initial `CharState` per slot.
pub fn default_char_states() -> (r: Vec<CharState>)
    ensures
        r@.len() == NUM_PORTS,
        forall|i: int| 0 <= i < r@.len() ==> r@[i] == spec_default_char_state(),
{
    let mut v: Vec<CharState> = Vec::new();
    let mut i: usize = 0;
    while i < NUM_PORTS
        invariant
            i <= NUM_PORTS,
            v@.len() == i,
            forall|j: int| 0 <= j < i ==> v@[j] == spec_default_char_state(),
        decreases NUM_PORTS - i,
    {
        v.push(CharState { character: Internal(255), state: State::Common(WAIT), age: 0 });
        i = i + 1;
    }
    v
}

/// The character predicted to occupy a slot, given the slot's last confirmed
/// state: the previous character, unless the previous state was a transform
/// state whose age has reached that character's transformation length.
pub open spec fn spec_predict(prev: CharState) -> Internal {
    if (prev.state == State::Zelda(ZELDA_TRANSFORM_GROUND) || prev.state == State::Zelda(
        ZELDA_TRANSFORM_AIR,
    )) && prev.age >= ZELDA_TRANSFORM_FRAME {
        Internal(INTERNAL_SHEIK)
    } else if (prev.state == State::Sheik(SHEIK_TRANSFORM_GROUND) || prev.state == State::Sheik(
        SHEIK_TRANSFORM_AIR,
    )) && prev.age >= SHEIK_TRANSFORM_FRAME {
        Internal(INTERNAL_ZELDA)
    } else {
        prev.character
    }
}

/// Predicts which character occupies `id`'s slot, from the slot's last
/// confirmed state.
pub fn predict_character(id: FrameId, last_char_states: &Vec<CharState>) -> (r: Internal)
    requires
        last_char_states@.len() == NUM_PORTS,
        id.port < NUM_PORTS,
    ensures
        r == spec_predict(last_char_states@[id.port as int]),
{
    let prev = last_char_states[id.port as usize];
    if (prev.state == State::Zelda(ZELDA_TRANSFORM_GROUND) || prev.state == State::Zelda(
        ZELDA_TRANSFORM_AIR,
    )) && prev.age >= ZELDA_TRANSFORM_FRAME {
        Internal(INTERNAL_SHEIK)
    } else if (prev.state == State::Sheik(SHEIK_TRANSFORM_GROUND) || prev.state == State::Sheik(
        SHEIK_TRANSFORM_AIR,
    )) && prev.age >= SHEIK_TRANSFORM_FRAME {
        Internal(INTERNAL_ZELDA)
    } else {
        prev.character
    }
}

/// The age recorded after observing `state` on a slot whose previous record
/// is `prev`: the same state increments the age (saturating); landing during
/// a transformation (the ground and air transform variants of one character
/// following each other) increments but caps one frame short of that
/// character's transformation length, since the character switch is delayed
/// by one frame; any other change resets the age.
pub open spec fn spec_next_age(prev: CharState, state: State) -> u32 {
    if state == prev.state {
        if prev.age == u32::MAX {
            u32::MAX
        } else {
            (prev.age + 1) as u32
        }
    } else if state == State::Zelda(ZELDA_TRANSFORM_GROUND) && prev.state == State::Zelda(
        ZELDA_TRANSFORM_AIR,
    ) {
        if prev.age >= ZELDA_TRANSFORM_FRAME - 1 {
            (ZELDA_TRANSFORM_FRAME - 1) as u32
        } else {
            (prev.age + 1) as u32
        }
    } else if state == State::Zelda(ZELDA_TRANSFORM_AIR) && prev.state == State::Zelda(
        ZELDA_TRANSFORM_GROUND,
    ) {
        if prev.age >= ZELDA_TRANSFORM_FRAME - 1 {
            (ZELDA_TRANSFORM_FRAME - 1) as u32
        } else {
            (prev.age + 1) as u32
        }
    } else if state == State::Sheik(SHEIK_TRANSFORM_GROUND) && prev.state == State::Sheik(
        SHEIK_TRANSFORM_AIR,
    ) {
        if prev.age >= SHEIK_TRANSFORM_FRAME - 1 {
            (SHEIK_TRANSFORM_FRAME - 1) as u32
        } else {
            (prev.age + 1) as u32
        }
    } else if state == State::Sheik(SHEIK_TRANSFORM_AIR) && prev.state == State::Sheik(
        SHEIK_TRANSFORM_GROUND,
    ) {
        if prev.age >= SHEIK_TRANSFORM_FRAME - 1 {
            (SHEIK_TRANSFORM_FRAME - 1) as u32
        } else {
            (prev.age + 1) as u32
        }
    } else {
        0
    }
}

/// The slot states after a confirmed post-frame observation.
pub open spec fn spec_updated_states(
    states: Seq<CharState>,
    port: u8,
    character: Internal,
    state: State,
) -> Seq<CharState> {
    states.update(
        port as int,
        CharState { character, state, age: spec_next_age(states[port as int], state) },
    )
}

/// Records a confirmed (character, state) observation for `id`'s slot.
pub fn update_last_char_state(
    id: FrameId,
    character: Internal,
    state: State,
    last_char_states: &mut Vec<CharState>,
)
    requires
        old(last_char_states)@.len() == NUM_PORTS,
        id.port < NUM_PORTS,
    ensures
        final(last_char_states)@ == spec_updated_states(
            old(last_char_states)@,
            id.port,
            character,
            state,
        ),
{
    let prev = last_char_states[id.port as usize];
    let age: u32 = if state == prev.state {
        if prev.age == u32::MAX {
            u32::MAX
        } else {
            prev.age + 1
        }
    } else if (state == State::Zelda(ZELDA_TRANSFORM_GROUND) && prev.state == State::Zelda(
        ZELDA_TRANSFORM_AIR,
    )) || (state == State::Zelda(ZELDA_TRANSFORM_AIR) && prev.state == State::Zelda(
        ZELDA_TRANSFORM_GROUND,
    )) {
        if prev.age >= ZELDA_TRANSFORM_FRAME - 1 {
            ZELDA_TRANSFORM_FRAME - 1
        } else {
            prev.age + 1
        }
    } else if (state == State::Sheik(SHEIK_TRANSFORM_GROUND) && prev.state == State::Sheik(
        SHEIK_TRANSFORM_AIR,
    )) || (state == State::Sheik(SHEIK_TRANSFORM_AIR) && prev.state == State::Sheik(
        SHEIK_TRANSFORM_GROUND,
    )) {
        if prev.age >= SHEIK_TRANSFORM_FRAME - 1 {
            SHEIK_TRANSFORM_FRAME - 1
        } else {
            prev.age + 1
        }
    } else {
        0
    };
    last_char_states[id.port as usize] = CharState { character, state, age };
}

/// The length of a transformation animation, for the two transform-capable
/// states of each character in the pair.
pub open spec fn spec_transform_threshold(state: State) -> u32 {
    if state == State::Zelda(ZELDA_TRANSFORM_GROUND) || state == State::Zelda(ZELDA_TRANSFORM_AIR) {
        ZELDA_TRANSFORM_FRAME
    } else if state == State::Sheik(SHEIK_TRANSFORM_GROUND) || state == State::Sheik(
        SHEIK_TRANSFORM_AIR,
    ) {
        SHEIK_TRANSFORM_FRAME
    } else {
        0
    }
}

/// On the frame before a transformation completes, the predictor still names
/// the previous character; if the following post-frame observation repeats
/// the same transform state, the recorded age becomes exactly the
/// transformation length, so the next prediction switches to the alternate
/// character.
pub proof fn lemma_transform_prediction(prev: CharState)
    requires
        prev.state == State::Zelda(ZELDA_TRANSFORM_GROUND) || prev.state == State::Zelda(
            ZELDA_TRANSFORM_AIR,
        ) || prev.state == State::Sheik(SHEIK_TRANSFORM_GROUND) || prev.state == State::Sheik(
            SHEIK_TRANSFORM_AIR,
        ),
        prev.age + 1 == spec_transform_threshold(prev.state),
    ensures
        spec_predict(prev) == prev.character,
        spec_next_age(prev, prev.state) == spec_transform_threshold(prev.state),
{
}

/// A facing direction decoded from the bit pattern of a raw floating value:
/// a negative value faces left, a positive value faces right, and a
/// zero-magnitude or not-a-number pattern has no direction.
pub open spec fn spec_direction(bits: u32) -> Option<Direction> {
    if bits & 0x7fff_ffff == 0 {
        None
    } else if bits & 0x7fff_ffff > 0x7f80_0000 {
        None
    } else if bits >= 0x8000_0000 {
        Some(Direction::Left)
    } else {
        Some(Direction::Right)
    }
}

/// Decodes a facing direction from the bit pattern of a raw floating value.
/// Zero magnitude (the producer never emits an exact-zero facing) and
/// not-a-number patterns fail with `InvalidDiscriminant`.
pub fn direction(bits: u32) -> (r: Result<Direction, Error>)
    ensures
        (match r {
            Ok(d) => spec_direction(bits) == Some(d),
            Err(e) => spec_direction(bits) is None && e == Error::InvalidDiscriminant,
        }),
{
    let mag = bits & 0x7fff_ffff;
    if mag == 0 {
        Err(Error::InvalidDiscriminant)
    } else if mag > 0x7f80_0000 {
        Err(Error::InvalidDiscriminant)
    } else if bits >= 0x8000_0000 {
        Ok(Direction::Left)
    } else {
        Ok(Direction::Right)
    }
}

/// Packs the five status-flag bytes into one wide word at fixed 8-bit
/// offsets.
pub open spec fn spec_flags(b: Seq<u8>) -> StateFlags {
    StateFlags(
        (b[0] + b[1] * 0x100 + b[2] * 0x1_0000 + b[3] * 0x100_0000 + b[4] * 0x1_0000_0000) as u64,
    )
}

/// Packs the five status-flag bytes of a post-frame record into one wide
/// word.
pub fn flags(buf: &Vec<u8>) -> (r: StateFlags)
    requires
        buf@.len() == 5,
    ensures
        r == spec_flags(buf@),
{
    StateFlags(
        (buf[0] as u64) + (buf[1] as u64) * 0x100 + (buf[2] as u64) * 0x1_0000 + (buf[3] as u64)
            * 0x100_0000 + (buf[4] as u64) * 0x1_0000_0000,
    )
}

/// Declared payload sizes, one per event code: built once per stream from
/// the first record, then used for the lifetime of the parse to know how many
/// bytes to buffer (or skip) per event.
#[derive(Debug)]
pub struct PayloadSizeTable {
    sizes: Vec<Option<u16>>,
}

impl PayloadSizeTable {
    /// The declared payload size for `code`, if any.
    pub closed spec fn spec_get(&self, code: u8) -> Option<u16> {
        self.sizes@[code as int]
    }

    pub closed spec fn wf(&self) -> bool {
        self.sizes@.len() == 0x100
    }

    /// An empty table: no code has a declared size.
    pub fn new() -> (r: PayloadSizeTable)
        ensures
            r.wf(),
            forall|c: u8| r.spec_get(c) is None,
    {
        let mut sizes: Vec<Option<u16>> = Vec::new();
        let mut i: usize = 0;
        while i < 0x100
            invariant
                i <= 0x100,
                sizes@.len() == i,
                forall|j: int| 0 <= j < i ==> sizes@[j] is None,
            decreases 0x100 - i,
        {
            sizes.push(None);
            i = i + 1;
        }
        PayloadSizeTable { sizes }
    }

    /// Declares (or replaces) the payload size for `code`.
    pub fn set(&mut self, code: u8, size: u16)
        requires
            old(self).wf(),
        ensures
            final(self).wf(),
            forall|c: u8|
                final(self).spec_get(c) == if c == code {
                    Some(size)
                } else {
                    old(self).spec_get(c)
                },
    {
        self.sizes[code as usize] = Some(size);
    }

    pub fn get(&self, code: u8) -> (r: Option<u16>)
        requires
            self.wf(),
        ensures
            r == self.spec_get(code),
    {
        self.sizes[code as usize]
    }
}

/// The payload size that the table entries `s` (triples of one code byte and
/// a big-endian 16-bit size) declare for `code`; a later entry replaces an
/// earlier one for the same code.
pub open spec fn table_lookup(s: Seq<u8>, code: u8) -> Option<u16>
    decreases s.len(),
{
    if s.len() < 3 {
        None
    } else {
        let n = s.len() as int;
        if s[n - 3] == code {
            Some(be_u16(s, n - 2) as u16)
        } else {
            table_lookup(s.take(n - 3), code)
        }
    }
}

/// Reads the payload-size table record, which must come first in the raw
/// stream. Returns the number of bytes consumed and the table. The table is
/// keyed by raw code byte, not by event kind, so that unknown event types
/// remain skippable.
#[verifier::loop_isolation(false)]
pub fn payload_sizes(r: &mut Reader) -> (res: Result<(usize, PayloadSizeTable), Error>)
    requires
        old(r).wf(),
    ensures
        final(r).wf(),
        final(r).data() == old(r).data(),
        (match res {
            Ok((n, table)) => {
                let d = old(r).data();
                let p = old(r).pos();
                &&& old(r).remaining() >= 2
                &&& d[p] == PAYLOADS_EVENT_CODE
                &&& d[p + 1] % 3 == 1
                &&& old(r).remaining() >= 1 + d[p + 1]
                &&& n == 1 + d[p + 1]
                &&& final(r).pos() == p + 1 + d[p + 1]
                &&& table.wf()
                &&& forall|c: u8|
                    table.spec_get(c) == table_lookup(
                        d.subrange(p + 2, p + 1 + d[p + 1]),
                        c,
                    )
            },
            Err(e) => {
                let d = old(r).data();
                let p = old(r).pos();
                let rem = old(r).remaining();
                ||| (rem < 1 && e == Error::TruncatedInput)
                ||| (rem >= 1 && d[p] != PAYLOADS_EVENT_CODE && e == Error::MalformedEnvelope)
                ||| (rem == 1 && d[p] == PAYLOADS_EVENT_CODE && e == Error::TruncatedInput)
                ||| (rem >= 2 && d[p] == PAYLOADS_EVENT_CODE && d[p + 1] % 3 != 1 && e
                    == Error::MalformedEnvelope)
                ||| (rem >= 2 && d[p] == PAYLOADS_EVENT_CODE && d[p + 1] % 3 == 1 && rem < 1 + d[p
                    + 1] && e == Error::TruncatedInput)
            },
        }),
{
    let ghost d = old(r).data();
    let ghost p = old(r).pos();
    let code = r.read_u8()?;
    if code != PAYLOADS_EVENT_CODE {
        return Err(Error::MalformedEnvelope);
    }
    let size = r.read_u8()?;
    if size % 3 != 1 {
        return Err(Error::MalformedEnvelope);
    }
    let mut table = PayloadSizeTable::new();
    let mut done: usize = 0;
    while done + 3 <= (size - 1) as usize
        invariant
            r.wf(),
            r.data() == d,
            size % 3 == 1,
            size == d[p + 1],
            done % 3 == 0,
            done <= size - 1,
            r.pos() == p + 2 + done,
            table.wf(),
            forall|c: u8|
                table.spec_get(c) == table_lookup(d.subrange(p + 2, p + 2 + done), c),
        decreases size - done,
    {
        let ecode = match r.read_u8() {
            Ok(b) => b,
            Err(_) => {
                return Err(Error::TruncatedInput);
            },
        };
        let esize = match r.read_u16() {
            Ok(v) => v,
            Err(_) => {
                return Err(Error::TruncatedInput);
            },
        };
        table.set(ecode, esize);
        proof {
            let pre = d.subrange(p + 2, p + 2 + done);
            let post = d.subrange(p + 2, p + 2 + done + 3);
            assert(post.take(post.len() - 3) =~= pre);
            assert(post[post.len() - 3] == d[p + 2 + done]);
            assert(be_u16(post, post.len() - 2) == be_u16(d, p + 3 + done));
        }
        done = done + 3;
    }
    proof {
        assert(done == size - 1);
        assert(d.subrange(p + 2, p + 2 + done) =~= d.subrange(p + 2, p + 1 + size));
    }
    Ok((1 + size as usize, table))
}

/// Decodes the game-end extension introduced with format 2.0.
pub fn game_end_v2_0(r: &mut Reader) -> (res: Result<EndV2_0, Error>)
    requires
        old(r).wf(),
    ensures
        final(r).wf(),
        final(r).data() == old(r).data(),
        (match res {
            Ok(v) => old(r).remaining() >= 1 && v.lras_initiator == as_i8(
                old(r).data()[old(r).pos()],
            ) && final(r).pos() == old(r).pos() + 1,
            Err(e) => old(r).remaining() < 1 && e == Error::TruncatedInput && final(r).pos()
                == old(r).pos(),
        }),
{
    let lras_initiator = r.read_i8()?;
    Ok(EndV2_0 { lras_initiator })
}

/// What a decoded game-end record says about the payload it came from.
pub open spec fn end_matches(v: End, pl: Seq<u8>) -> bool {
    &&& v.method == EndMethod(pl[0])
    &&& if pl.len() >= 2 {
        v.v2_0 matches Some(x) && x.lras_initiator == as_i8(pl[1])
    } else {
        v.v2_0 is None
    }
}

/// Decodes a game-end record from the remaining payload bytes.
pub fn game_end(r: &mut Reader) -> (res: Result<End, Error>)
    requires
        old(r).wf(),
    ensures
        final(r).wf(),
        final(r).data() == old(r).data(),
        (match res {
            Ok(v) => {
                let pl = old(r).data().skip(old(r).pos());
                &&& pl.len() >= 1
                &&& end_matches(v, pl)
                &&& final(r).pos() == old(r).pos() + if pl.len() >= 2 {
                    2int
                } else {
                    1int
                }
            },
            Err(e) => old(r).remaining() < 1 && e == Error::TruncatedInput,
        }),
{
    let method = EndMethod(r.read_u8()?);
    let v2_0 = if r.is_empty() {
        None
    } else {
        Some(game_end_v2_0(r)?)
    };
    Ok(End { method, v2_0 })
}

/// Decodes the pre-frame extension introduced with format 1.4.
pub fn frame_pre_v1_4(r: &mut Reader) -> (res: Result<PreV1_4, Error>)
    requires
        old(r).wf(),
    ensures
        final(r).wf(),
        final(r).data() == old(r).data(),
        (match res {
            Ok(v) => old(r).remaining() >= 4 && v.damage == be_u32(
                old(r).data(),
                old(r).pos(),
            ) && final(r).pos() == old(r).pos() + 4,
            Err(e) => old(r).remaining() < 4 && e == Error::TruncatedInput && final(r).pos()
                == old(r).pos(),
        }),
{
    let damage = r.read_u32()?;
    Ok(PreV1_4 { damage })
}

/// Decodes the pre-frame extension introduced with format 1.2.
pub fn frame_pre_v1_2(r: &mut Reader) -> (res: Result<PreV1_2, Error>)
    requires
        old(r).wf(),
    ensures
        final(r).wf(),
        final(r).data() == old(r).data(),
        (match res {
            Ok(v) => {
                let pl = old(r).data().skip(old(r).pos());
                &&& (pl.len() == 1 || pl.len() >= 5)
                &&& v.raw_analog_x == pl[0]
                &&& if pl.len() >= 5 {
                    v.v1_4 matches Some(x) && x.damage == be_u32(pl, 1)
                } else {
                    v.v1_4 is None
                }
                &&& final(r).pos() == old(r).pos() + if pl.len() >= 5 {
                    5int
                } else {
                    1int
                }
            },
            Err(e) => e == Error::TruncatedInput && (old(r).remaining() < 1 || 2
                <= old(r).remaining() < 5),
        }),
{
    let raw_analog_x = r.read_u8()?;
    let v1_4 = if r.is_empty() {
        None
    } else {
        Some(frame_pre_v1_4(r)?)
    };
    Ok(PreV1_2 { raw_analog_x, v1_4 })
}

/// A payload length from which a pre-frame record decodes without error
/// (given a valid direction and slot): the base record alone, or the base
/// plus each complete extension in turn.
pub open spec fn pre_ok_len(n: int) -> bool {
    n == 58 || n == 59 || n >= 63
}

/// What a decoded pre-frame record says about the payload it came from and
/// the per-slot states it was predicted against.
pub open spec fn pre_matches(ev: FrameEvent<Pre>, pl: Seq<u8>, states: Seq<CharState>) -> bool {
    let character = spec_predict(states[pl[4] as int]);
    &&& ev.id.index == be_i32(pl, 0)
    &&& ev.id.port == pl[4]
    &&& ev.id.is_follower == (pl[5] != 0)
    &&& ev.event.index == be_i32(pl, 0)
    &&& ev.event.random_seed == be_u32(pl, 6)
    &&& ev.event.state == spec_state_from(be_u16(pl, 10) as u16, character)
    &&& ev.event.position == (Position { x: be_u32(pl, 12) as u32, y: be_u32(pl, 16) as u32 })
    &&& Some(ev.event.direction) == spec_direction(be_u32(pl, 20) as u32)
    &&& ev.event.joystick == (Position { x: be_u32(pl, 24) as u32, y: be_u32(pl, 28) as u32 })
    &&& ev.event.cstick == (Position { x: be_u32(pl, 32) as u32, y: be_u32(pl, 36) as u32 })
    &&& ev.event.triggers == (Triggers {
        logical: be_u32(pl, 40) as u32,
        physical: triggers::Physical { l: be_u32(pl, 50) as u32, r: be_u32(pl, 54) as u32 },
    })
    &&& ev.event.buttons == (Buttons {
        logical: buttons::Logical(be_u32(pl, 44) as u32),
        physical: buttons::Physical(be_u16(pl, 48) as u16),
    })
    &&& if pl.len() > 58 {
        ev.event.v1_2 matches Some(x) && x.raw_analog_x == pl[58] && if pl.len() > 59 {
            x.v1_4 matches Some(y) && y.damage == be_u32(pl, 59)
        } else {
            x.v1_4 is None
        }
    } else {
        ev.event.v1_2 is None
    }
}

/// Decodes a pre-frame record from the remaining payload bytes, predicting
/// the slot's character from the last confirmed per-slot states.
pub fn frame_pre(r: &mut Reader, last_char_states: &Vec<CharState>) -> (res: Result<
    FrameEvent<Pre>,
    Error,
>)
    requires
        old(r).wf(),
        last_char_states@.len() == NUM_PORTS,
    ensures
        final(r).wf(),
        final(r).data() == old(r).data(),
        (match res {
            Ok(ev) => {
                let pl = old(r).data().skip(old(r).pos());
                &&& pre_ok_len(pl.len() as int)
                &&& pl[4] < NUM_PORTS
                &&& spec_direction(be_u32(pl, 20) as u32) is Some
                &&& pre_matches(ev, pl, last_char_states@)
                &&& final(r).pos() == old(r).pos() + if pl.len() >= 63 {
                    63int
                } else if pl.len() == 59 {
                    59int
                } else {
                    58int
                }
            },
            Err(e) => {
                let pl = old(r).data().skip(old(r).pos());
                ||| (pl.len() < 6 && e == Error::TruncatedInput)
                ||| (pl.len() >= 6 && pl[4] >= NUM_PORTS && e == Error::InvalidDiscriminant)
                ||| (pl.len() >= 6 && pl[4] < NUM_PORTS && pl.len() < 24 && e
                    == Error::TruncatedInput)
                ||| (pl.len() >= 24 && pl[4] < NUM_PORTS && spec_direction(be_u32(pl, 20) as u32)
                    is None && e == Error::InvalidDiscriminant)
                ||| (pl.len() >= 24 && pl[4] < NUM_PORTS && spec_direction(be_u32(pl, 20) as u32)
                    is Some && !pre_ok_len(pl.len() as int) && e == Error::TruncatedInput)
            },
        }),
{
    let index = r.read_i32()?;
    let port = r.read_u8()?;
    let is_follower = r.read_u8()? != 0;
    if port >= NUM_PORTS as u8 {
        return Err(Error::InvalidDiscriminant);
    }
    let id = FrameId { index, port, is_follower };
    let character = predict_character(id, last_char_states);
    let random_seed = r.read_u32()?;
    let state = State::from(r.read_u16()?, character);
    let position = Position { x: r.read_u32()?, y: r.read_u32()? };
    let direction = direction(r.read_u32()?)?;
    let joystick = Position { x: r.read_u32()?, y: r.read_u32()? };
    let cstick = Position { x: r.read_u32()?, y: r.read_u32()? };
    let trigger_logical = r.read_u32()?;
    let buttons = Buttons {
        logical: buttons::Logical(r.read_u32()?),
        physical: buttons::Physical(r.read_u16()?),
    };
    let triggers = Triggers {
        logical: trigger_logical,
        physical: triggers::Physical { l: r.read_u32()?, r: r.read_u32()? },
    };
    let v1_2 = if r.is_empty() {
        None
    } else {
        Some(frame_pre_v1_2(r)?)
    };
    Ok(
        FrameEvent {
            id,
            event: Pre {
                index,
                random_seed,
                state,
                position,
                direction,
                joystick,
                cstick,
                triggers,
                buttons,
                v1_2,
            },
        },
    )
}

/// Decodes the post-frame extension introduced with format 2.1.
pub fn frame_post_v2_1(r: &mut Reader) -> (res: Result<PostV2_1, Error>)
    requires
        old(r).wf(),
    ensures
        final(r).wf(),
        final(r).data() == old(r).data(),
        (match res {
            Ok(v) => old(r).remaining() >= 1 && v.hurtbox_state == HurtboxState(
                old(r).data()[old(r).pos()],
            ) && final(r).pos() == old(r).pos() + 1,
            Err(e) => old(r).remaining() < 1 && e == Error::TruncatedInput && final(r).pos()
                == old(r).pos(),
        }),
{
    let hurtbox_state = HurtboxState(r.read_u8()?);
    Ok(PostV2_1 { hurtbox_state })
}

/// What a decoded format-2.0 post-frame extension says about the payload
/// region it came from.
pub open spec fn post_v2_0_matches(v: PostV2_0, pl: Seq<u8>) -> bool {
    &&& v.flags == spec_flags(pl.subrange(0, 5))
    &&& v.misc_as == be_u32(pl, 5)
    &&& v.ground == be_u16(pl, 9)
    &&& v.jumps == pl[11]
    &&& v.l_cancel == (if pl[12] == 0 {
        Option::<LCancel>::None
    } else {
        Some(LCancel(pl[12]))
    })
    &&& v.airborne == (pl[13] != 0)
    &&& if pl.len() >= 15 {
        v.v2_1 matches Some(x) && x.hurtbox_state == HurtboxState(pl[14])
    } else {
        v.v2_1 is None
    }
}

/// Decodes the post-frame extension introduced with format 2.0.
pub fn frame_post_v2_0(r: &mut Reader) -> (res: Result<PostV2_0, Error>)
    requires
        old(r).wf(),
    ensures
        final(r).wf(),
        final(r).data() == old(r).data(),
        (match res {
            Ok(v) => {
                let pl = old(r).data().skip(old(r).pos());
                &&& (pl.len() == 14 || pl.len() >= 15)
                &&& post_v2_0_matches(v, pl)
                &&& final(r).pos() == old(r).pos() + if pl.len() >= 15 {
                    15int
                } else {
                    14int
                }
            },
            Err(e) => e == Error::TruncatedInput && old(r).remaining() < 14,
        }),
{
    let flag_bytes = r.read_bytes(5)?;
    let flags = flags(&flag_bytes);
    let misc_as = r.read_u32()?;
    let ground = r.read_u16()?;
    let jumps = r.read_u8()?;
    let l_cancel = match r.read_u8()? {
        0 => None,
        l_cancel => Some(LCancel(l_cancel)),
    };
    let airborne = r.read_u8()? != 0;
    let v2_1 = if r.is_empty() {
        None
    } else {
        Some(frame_post_v2_1(r)?)
    };
    Ok(PostV2_0 { flags, misc_as, ground, jumps, l_cancel, airborne, v2_1 })
}

/// What a decoded format-0.2 post-frame extension says about the payload
/// region it came from.
pub open spec fn post_v0_2_matches(v: PostV0_2, pl: Seq<u8>) -> bool {
    &&& v.state_age == be_u32(pl, 0)
    &&& if pl.len() > 4 {
        v.v2_0 matches Some(x) && post_v2_0_matches(x, pl.skip(4))
    } else {
        v.v2_0 is None
    }
}

/// A region length from which a format-0.2 post-frame extension decodes
/// without error.
pub open spec fn post_v0_2_ok_len(n: int) -> bool {
    n == 4 || n == 18 || n >= 19
}

/// Decodes the post-frame extension introduced with format 0.2.
pub fn frame_post_v0_2(r: &mut Reader) -> (res: Result<PostV0_2, Error>)
    requires
        old(r).wf(),
    ensures
        final(r).wf(),
        final(r).data() == old(r).data(),
        (match res {
            Ok(v) => {
                let pl = old(r).data().skip(old(r).pos());
                &&& post_v0_2_ok_len(pl.len() as int)
                &&& post_v0_2_matches(v, pl)
                &&& final(r).pos() == old(r).pos() + if pl.len() >= 19 {
                    19int
                } else if pl.len() == 18 {
                    18int
                } else {
                    4int
                }
            },
            Err(e) => e == Error::TruncatedInput && !post_v0_2_ok_len(
                old(r).remaining(),
            ),
        }),
{
    let state_age = r.read_u32()?;
    let v2_0 = if r.is_empty() {
        None
    } else {
        Some(frame_post_v2_0(r)?)
    };
    Ok(PostV0_2 { state_age, v2_0 })
}

/// A payload length from which a post-frame record decodes without error
/// (given a valid direction and slot).
pub open spec fn post_ok_len(n: int) -> bool {
    n == 33 || n == 37 || n == 51 || n >= 52
}

/// What a decoded post-frame record says about the payload it came from.
pub open spec fn post_matches(ev: FrameEvent<Post>, pl: Seq<u8>) -> bool {
    &&& ev.id.index == be_i32(pl, 0)
    &&& ev.id.port == pl[4]
    &&& ev.id.is_follower == (pl[5] != 0)
    &&& ev.event.index == be_i32(pl, 0)
    &&& ev.event.character == Internal(pl[6])
    &&& ev.event.state == spec_state_from(be_u16(pl, 7) as u16, Internal(pl[6]))
    &&& ev.event.position == (Position { x: be_u32(pl, 9) as u32, y: be_u32(pl, 13) as u32 })
    &&& Some(ev.event.direction) == spec_direction(be_u32(pl, 17) as u32)
    &&& ev.event.damage == be_u32(pl, 21)
    &&& ev.event.shield == be_u32(pl, 25)
    &&& ev.event.last_attack_landed == (if pl[29] == 0 {
        Option::<Attack>::None
    } else {
        Some(Attack(pl[29]))
    })
    &&& ev.event.combo_count == pl[30]
    &&& ev.event.last_hit_by == pl[31]
    &&& ev.event.stocks == pl[32]
    &&& if pl.len() > 33 {
        ev.event.v0_2 matches Some(x) && post_v0_2_matches(x, pl.skip(33))
    } else {
        ev.event.v0_2 is None
    }
}

/// The per-slot states after a post-frame record decoded from payload `pl`
/// has been confirmed.
pub open spec fn spec_states_after_post(states: Seq<CharState>, pl: Seq<u8>) -> Seq<CharState> {
    spec_updated_states(
        states,
        pl[4],
        Internal(pl[6]),
        spec_state_from(be_u16(pl, 7) as u16, Internal(pl[6])),
    )
}

/// Decodes a post-frame record from the remaining payload bytes and records
/// the confirmed (character, state) observation for the slot.
pub fn frame_post(r: &mut Reader, last_char_states: &mut Vec<CharState>) -> (res: Result<
    FrameEvent<Post>,
    Error,
>)
    requires
        old(r).wf(),
        old(last_char_states)@.len() == NUM_PORTS,
    ensures
        final(r).wf(),
        final(r).data() == old(r).data(),
        (match res {
            Ok(ev) => {
                let pl = old(r).data().skip(old(r).pos());
                &&& post_ok_len(pl.len() as int)
                &&& pl[4] < NUM_PORTS
                &&& spec_direction(be_u32(pl, 17) as u32) is Some
                &&& post_matches(ev, pl)
                &&& final(last_char_states)@ == spec_states_after_post(
                    old(last_char_states)@,
                    pl,
                )
                &&& final(r).pos() == old(r).pos() + if pl.len() >= 52 {
                    52int
                } else if pl.len() == 51 {
                    51int
                } else if pl.len() == 37 {
                    37int
                } else {
                    33int
                }
            },
            Err(e) => {
                let pl = old(r).data().skip(old(r).pos());
                &&& final(last_char_states)@ == old(last_char_states)@
                &&& {
                    ||| (pl.len() < 6 && e == Error::TruncatedInput)
                    ||| (pl.len() >= 6 && pl[4] >= NUM_PORTS && e == Error::InvalidDiscriminant)
                    ||| (pl.len() >= 6 && pl[4] < NUM_PORTS && pl.len() < 21 && e
                        == Error::TruncatedInput)
                    ||| (pl.len() >= 21 && pl[4] < NUM_PORTS && spec_direction(
                        be_u32(pl, 17) as u32,
                    ) is None && e == Error::InvalidDiscriminant)
                    ||| (pl.len() >= 21 && pl[4] < NUM_PORTS && spec_direction(
                        be_u32(pl, 17) as u32,
                    ) is Some && !post_ok_len(pl.len() as int) && e == Error::TruncatedInput)
                }
            },
        }),
{
    let index = r.read_i32()?;
    let port = r.read_u8()?;
    let is_follower = r.read_u8()? != 0;
    if port >= NUM_PORTS as u8 {
        return Err(Error::InvalidDiscriminant);
    }
    let id = FrameId { index, port, is_follower };
    let character = Internal(r.read_u8()?);
    let state = State::from(r.read_u16()?, character);
    let position = Position { x: r.read_u32()?, y: r.read_u32()? };
    let direction = direction(r.read_u32()?)?;
    let damage = r.read_u32()?;
    let shield = r.read_u32()?;
    let last_attack_landed = match r.read_u8()? {
        0 => None,
        attack => Some(Attack(attack)),
    };
    let combo_count = r.read_u8()?;
    let last_hit_by = r.read_u8()?;
    let stocks = r.read_u8()?;
    let v0_2 = if r.is_empty() {
        None
    } else {
        Some(frame_post_v0_2(r)?)
    };
    update_last_char_state(id, character, state, last_char_states);
    Ok(
        FrameEvent {
            id,
            event: Post {
                index,
                character,
                state,
                position,
                direction,
                damage,
                shield,
                last_attack_landed,
                combo_count,
                last_hit_by,
                stocks,
                v0_2,
            },
        },
    )
}

/// Reads the raw controller-fix byte block of one player slot.
pub fn player_bytes_v1_0(r: &mut Reader) -> (res: Result<Vec<u8>, Error>)
    requires
        old(r).wf(),
    ensures
        final(r).wf(),
        final(r).data() == old(r).data(),
        (match res {
            Ok(v) => old(r).remaining() >= 8 && v@ == old(r).data().subrange(
                old(r).pos(),
                old(r).pos() + 8,
            ) && final(r).pos() == old(r).pos() + 8,
            Err(e) => old(r).remaining() < 8 && e == Error::TruncatedInput && final(r).pos()
                == old(r).pos(),
        }),
{
    r.read_bytes(8)
}

/// Reads the raw name-tag byte block of one player slot.
pub fn player_bytes_v1_3(r: &mut Reader) -> (res: Result<Vec<u8>, Error>)
    requires
        old(r).wf(),
    ensures
        final(r).wf(),
        final(r).data() == old(r).data(),
        (match res {
            Ok(v) => old(r).remaining() >= 16 && v@ == old(r).data().subrange(
                old(r).pos(),
                old(r).pos() + 16,
            ) && final(r).pos() == old(r).pos() + 16,
            Err(e) => old(r).remaining() < 16 && e == Error::TruncatedInput && final(r).pos()
                == old(r).pos(),
        }),
{
    r.read_bytes(16)
}

/// Decodes the game-start extension introduced with format 2.0.
pub fn game_start_v2_0(r: &mut Reader) -> (res: Result<StartV2_0, Error>)
    requires
        old(r).wf(),
    ensures
        final(r).wf(),
        final(r).data() == old(r).data(),
        (match res {
            Ok(v) => old(r).remaining() >= 1 && v.is_frozen_ps == (old(r).data()[old(r).pos()]
                != 0) && final(r).pos() == old(r).pos() + 1,
            Err(e) => old(r).remaining() < 1 && e == Error::TruncatedInput && final(r).pos()
                == old(r).pos(),
        }),
{
    let is_frozen_ps = r.read_u8()? != 0;
    Ok(StartV2_0 { is_frozen_ps })
}

/// Decodes the game-start extension introduced with format 1.5.
pub fn game_start_v1_5(r: &mut Reader) -> (res: Result<StartV1_5, Error>)
    requires
        old(r).wf(),
    ensures
        final(r).wf(),
        final(r).data() == old(r).data(),
        (match res {
            Ok(v) => {
                let pl = old(r).data().skip(old(r).pos());
                &&& pl.len() >= 1
                &&& v.is_pal == (pl[0] != 0)
                &&& if pl.len() >= 2 {
                    v.v2_0 matches Some(x) && x.is_frozen_ps == (pl[1] != 0)
                } else {
                    v.v2_0 is None
                }
                &&& final(r).pos() == old(r).pos() + if pl.len() >= 2 {
                    2int
                } else {
                    1int
                }
            },
            Err(e) => old(r).remaining() < 1 && e == Error::TruncatedInput,
        }),
{
    let is_pal = r.read_u8()? != 0;
    let v2_0 = if r.is_empty() {
        None
    } else {
        Some(game_start_v2_0(r)?)
    };
    Ok(StartV1_5 { is_pal, v2_0 })
}

/// The bytes, if any, of an optional per-slot block: `Some` carries the
/// block's bytes, `None` means the stream ended before the block's layer.
pub open spec fn opt_bytes(o: Option<Vec<u8>>) -> Option<Seq<u8>> {
    match o {
        Some(v) => Some(v@),
        None => None,
    }
}

/// What a decoded controller-fix extension says about the byte blocks it
/// came from.
pub open spec fn player_v1_0_matches(
    v: Option<PlayerV1_0>,
    v1_0: Option<Seq<u8>>,
    v1_3: Option<Seq<u8>>,
) -> bool {
    match v1_0 {
        Some(b) => v matches Some(x) && {
            &&& x.ucf.dash_back == (if be_u32(b, 0) == 0 {
                Option::<DashBack>::None
            } else {
                Some(DashBack(be_u32(b, 0) as u32))
            })
            &&& x.ucf.shield_drop == (if be_u32(b, 4) == 0 {
                Option::<ShieldDrop>::None
            } else {
                Some(ShieldDrop(be_u32(b, 4) as u32))
            })
            &&& match v1_3 {
                Some(t) => x.v1_3 matches Some(y) && y.name_tag@ == shift_jis_of(
                    t.take(first_null(t)),
                ),
                None => x.v1_3 is None,
            }
        },
        None => v is None,
    }
}

/// What a decoded player slot says about its 36-byte base block, the teams
/// flag, and its optional extension blocks: slot types other than human, CPU
/// or demo produce no record.
pub open spec fn player_matches(
    p: Option<Player>,
    v0: Seq<u8>,
    is_teams: bool,
    v1_0: Option<Seq<u8>>,
    v1_3: Option<Seq<u8>>,
) -> bool {
    if crate::game::spec_occupied(PlayerType(v0[1])) {
        p matches Some(pl) && {
            &&& pl.character == External(v0[0])
            &&& pl.player_type == PlayerType(v0[1])
            &&& pl.stocks == v0[2]
            &&& pl.costume == v0[3]
            &&& pl.team == (if is_teams {
                Some(Team { color: TeamColor(v0[9]), shade: TeamShade(v0[7]) })
            } else {
                Option::<Team>::None
            })
            &&& pl.handicap == v0[8]
            &&& pl.bitfield == v0[12]
            &&& pl.cpu_level == (if v0[1] == PLAYER_TYPE_CPU {
                Some(v0[15])
            } else {
                Option::<u8>::None
            })
            &&& pl.offense_ratio == be_u32(v0, 20)
            &&& pl.defense_ratio == be_u32(v0, 24)
            &&& pl.model_scale == be_u32(v0, 28)
            &&& player_v1_0_matches(pl.v1_0, v1_0, v1_3)
        }
    } else {
        p is None
    }
}

/// Decodes the name-tag extension of one player slot from its fixed-width
/// byte block.
pub fn player_v1_3(t: &Vec<u8>) -> (v: PlayerV1_3)
    requires
        t@.len() == 16,
    ensures
        v.name_tag@ == shift_jis_of(t@.take(first_null(t@))),
{
    PlayerV1_3 { name_tag: decode_name_tag(t.as_slice()) }
}

/// Decodes the controller-fix extension of one player slot; the wire value 0
/// means "no fix applied".
pub fn player_v1_0(b: &Vec<u8>, v1_3: Option<Vec<u8>>) -> (v: PlayerV1_0)
    requires
        b@.len() == 8,
        v1_3 matches Some(t) ==> t@.len() == 16,
    ensures
        player_v1_0_matches(Some(v), Some(b@), opt_bytes(v1_3)),
{
    let dash_back_raw = be_u32_at(b.as_slice(), 0);
    let shield_drop_raw = be_u32_at(b.as_slice(), 4);
    let v1_3_rec = match v1_3 {
        Some(t) => Some(player_v1_3(&t)),
        None => None,
    };
    PlayerV1_0 {
        ucf: Ucf {
            dash_back: if dash_back_raw == 0 {
                None
            } else {
                Some(DashBack(dash_back_raw))
            },
            shield_drop: if shield_drop_raw == 0 {
                None
            } else {
                Some(ShieldDrop(shield_drop_raw))
            },
        },
        v1_3: v1_3_rec,
    }
}

/// Decodes one player slot from its 36-byte base block and optional
/// extension blocks.
pub fn player(v0: &Vec<u8>, is_teams: bool, v1_0: Option<Vec<u8>>, v1_3: Option<Vec<u8>>) -> (p:
    Option<Player>)
    requires
        v0@.len() == 36,
        v1_0 matches Some(b) ==> b@.len() == 8,
        v1_3 matches Some(b) ==> b@.len() == 16,
        v1_3 is Some ==> v1_0 is Some,
    ensures
        player_matches(p, v0@, is_teams, opt_bytes(v1_0), opt_bytes(v1_3)),
{
    let character = External(v0[0]);
    let player_type = PlayerType(v0[1]);
    let stocks = v0[2];
    let costume = v0[3];
    let team_shade = v0[7];
    let handicap = v0[8];
    let team_color = v0[9];
    let team = if is_teams {
        Some(Team { color: TeamColor(team_color), shade: TeamShade(team_shade) })
    } else {
        None
    };
    let bitfield = v0[12];
    let cpu_level_byte = v0[15];
    let cpu_level = if player_type.0 == PLAYER_TYPE_CPU {
        Some(cpu_level_byte)
    } else {
        None
    };
    let offense_ratio = be_u32_at(v0.as_slice(), 20);
    let defense_ratio = be_u32_at(v0.as_slice(), 24);
    let model_scale = be_u32_at(v0.as_slice(), 28);
    let v1_0_rec = match v1_0 {
        Some(b) => Some(player_v1_0(&b, v1_3)),
        None => None,
    };
    if player_type.0 <= PLAYER_TYPE_DEMO_MAX {
        Some(
            Player {
                character,
                player_type,
                stocks,
                costume,
                team,
                handicap,
                bitfield,
                cpu_level,
                offense_ratio,
                defense_ratio,
                model_scale,
                v1_0: v1_0_rec,
            },
        )
    } else {
        None
    }
}

/// Largest slot-type discriminant that denotes an occupied slot.
pub const PLAYER_TYPE_DEMO_MAX: u8 = 2;

/// The controller-fix block for slot `i`, present when the payload reaches
/// that layer.
pub open spec fn start_v1_0_block(pl: Seq<u8>, i: int) -> Option<Seq<u8>> {
    if pl.len() > 320 {
        Some(pl.subrange(320 + 8 * i, 328 + 8 * i))
    } else {
        None
    }
}

/// The name-tag block for slot `i`, present when the payload reaches that
/// layer.
pub open spec fn start_v1_3_block(pl: Seq<u8>, i: int) -> Option<Seq<u8>> {
    if pl.len() > 352 {
        Some(pl.subrange(352 + 16 * i, 368 + 16 * i))
    } else {
        None
    }
}

/// A payload length from which a game-start record decodes without error.
pub open spec fn start_ok_len(n: int) -> bool {
    n == 320 || n == 352 || n == 416 || n == 417 || n >= 418
}

/// What a decoded game-start record says about the payload it came from.
pub open spec fn start_matches(s: Start, pl: Seq<u8>) -> bool {
    &&& s.slippi == (Slippi { version: SlippiVersion(pl[0], pl[1], pl[2]) })
    &&& s.bitfield == (SetupBitfields { b1: pl[4], b2: pl[5], b3: pl[7] })
    &&& s.is_teams == (pl[12] != 0)
    &&& s.item_spawn_frequency == as_i8(pl[15])
    &&& s.self_destruct_score == as_i8(pl[16])
    &&& s.stage == Stage(be_u16(pl, 18) as u16)
    &&& s.timer == be_u32(pl, 20)
    &&& s.item_spawn_bitfield == (ItemSpawnBitfields {
        b1: pl[39],
        b2: pl[40],
        b3: pl[41],
        b4: pl[42],
        b5: pl[43],
    })
    &&& s.damage_ratio == be_u32(pl, 52)
    &&& s.random_seed == be_u32(pl, 316)
    &&& s.players@.len() == NUM_PORTS
    &&& forall|i: int|
        0 <= i < 4 ==> player_matches(
            s.players@[i],
            pl.subrange(100 + 36 * i, 136 + 36 * i),
            pl[12] != 0,
            start_v1_0_block(pl, i),
            start_v1_3_block(pl, i),
        )
    &&& if pl.len() > 416 {
        s.v1_5 matches Some(x) && x.is_pal == (pl[416] != 0) && if pl.len() > 417 {
            x.v2_0 matches Some(y) && y.is_frozen_ps == (pl[417] != 0)
        } else {
            x.v2_0 is None
        }
    } else {
        s.v1_5 is None
    }
}

/// Decodes a game-start record from the remaining payload bytes.
#[verifier::rlimit(100)]
pub fn game_start(r: &mut Reader) -> (res: Result<Start, Error>)
    requires
        old(r).wf(),
    ensures
        final(r).wf(),
        final(r).data() == old(r).data(),
        (match res {
            Ok(s) => {
                let pl = old(r).data().skip(old(r).pos());
                &&& start_ok_len(pl.len() as int)
                &&& start_matches(s, pl)
                &&& final(r).pos() == old(r).pos() + if pl.len() >= 418 {
                    418int
                } else if pl.len() == 417 {
                    417int
                } else if pl.len() == 416 {
                    416int
                } else if pl.len() == 352 {
                    352int
                } else {
                    320int
                }
            },
            Err(e) => e == Error::TruncatedInput && !start_ok_len(old(r).remaining()),
        }),
{
    let ghost d = old(r).data();
    let ghost p = old(r).pos();
    let ghost pl = d.skip(p);
    let b_major = r.read_u8()?;
    let b_minor = r.read_u8()?;
    let b_revision = r.read_u8()?;
    let slippi = Slippi { version: SlippiVersion(b_major, b_minor, b_revision) };
    r.skip(1)?;  // build number
    let b1 = r.read_u8()?;
    let b2 = r.read_u8()?;
    r.skip(1)?;
    let b3 = r.read_u8()?;
    let bitfield = SetupBitfields { b1, b2, b3 };
    r.skip(4)?;
    let is_teams = r.read_u8()? != 0;
    r.skip(2)?;
    let item_spawn_frequency = r.read_i8()?;
    let self_destruct_score = r.read_i8()?;
    r.skip(1)?;
    let stage = Stage(r.read_u16()?);
    let timer = r.read_u32()?;
    r.skip(15)?;
    let isb = r.read_bytes(5)?;
    let item_spawn_bitfield = ItemSpawnBitfields {
        b1: isb[0],
        b2: isb[1],
        b3: isb[2],
        b4: isb[3],
        b5: isb[4],
    };
    r.skip(8)?;
    let damage_ratio = r.read_u32()?;
    r.skip(44)?;
    let p0 = r.read_bytes(36)?;
    let p1 = r.read_bytes(36)?;
    let p2 = r.read_bytes(36)?;
    let p3 = r.read_bytes(36)?;
    r.skip(72)?;
    let random_seed = r.read_u32()?;
    let (u0, u1, u2, u3) = if r.is_empty() {
        (None, None, None, None)
    } else {
        (
            Some(player_bytes_v1_0(r)?),
            Some(player_bytes_v1_0(r)?),
            Some(player_bytes_v1_0(r)?),
            Some(player_bytes_v1_0(r)?),
        )
    };
    let (t0, t1, t2, t3) = if r.is_empty() {
        (None, None, None, None)
    } else {
        (
            Some(player_bytes_v1_3(r)?),
            Some(player_bytes_v1_3(r)?),
            Some(player_bytes_v1_3(r)?),
            Some(player_bytes_v1_3(r)?),
        )
    };
    proof {
        assert(pl.subrange(100, 136) =~= d.subrange(p + 100, p + 136));
        assert(pl.subrange(136, 172) =~= d.subrange(p + 136, p + 172));
        assert(pl.subrange(172, 208) =~= d.subrange(p + 172, p + 208));
        assert(pl.subrange(208, 244) =~= d.subrange(p + 208, p + 244));
        if pl.len() > 320 {
            assert(pl.subrange(320, 328) =~= d.subrange(p + 320, p + 328));
            assert(pl.subrange(328, 336) =~= d.subrange(p + 328, p + 336));
            assert(pl.subrange(336, 344) =~= d.subrange(p + 336, p + 344));
            assert(pl.subrange(344, 352) =~= d.subrange(p + 344, p + 352));
        }
        if pl.len() > 352 {
            assert(pl.subrange(352, 368) =~= d.subrange(p + 352, p + 368));
            assert(pl.subrange(368, 384) =~= d.subrange(p + 368, p + 384));
            assert(pl.subrange(384, 400) =~= d.subrange(p + 384, p + 400));
            assert(pl.subrange(400, 416) =~= d.subrange(p + 400, p + 416));
        }
    }
    let mut players: Vec<Option<Player>> = Vec::new();
    players.push(player(&p0, is_teams, u0, t0));
    players.push(player(&p1, is_teams, u1, t1));
    players.push(player(&p2, is_teams, u2, t2));
    players.push(player(&p3, is_teams, u3, t3));
    let v1_5 = if r.is_empty() {
        None
    } else {
        Some(game_start_v1_5(r)?)
    };
    let s = Start {
        slippi,
        bitfield,
        is_teams,
        item_spawn_frequency,
        self_destruct_score,
        stage,
        timer,
        item_spawn_bitfield,
        damage_ratio,
        players,
        random_seed,
        v1_5,
    };
    proof {
        assert forall|i: int| 0 <= i < 4 implies player_matches(
            s.players@[i],
            pl.subrange(100 + 36 * i, 136 + 36 * i),
            pl[12] != 0,
            start_v1_0_block(pl, i),
            start_v1_3_block(pl, i),
        ) by {
            if i == 0 {
            } else if i == 1 {
            } else if i == 2 {
            } else {
                assert(i == 3);
            }
        }
    }
    Ok(s)
}

/// The error, if any, that decoding a pre-frame record from payload `pl`
/// must raise, in the order the decoder reads.
pub open spec fn pre_decode_err(pl: Seq<u8>) -> Option<Error> {
    if pl.len() < 6 {
        Some(Error::TruncatedInput)
    } else if pl[4] >= NUM_PORTS {
        Some(Error::InvalidDiscriminant)
    } else if pl.len() < 24 {
        Some(Error::TruncatedInput)
    } else if spec_direction(be_u32(pl, 20) as u32) is None {
        Some(Error::InvalidDiscriminant)
    } else if !pre_ok_len(pl.len() as int) {
        Some(Error::TruncatedInput)
    } else {
        None
    }
}

/// The error, if any, that decoding a post-frame record from payload `pl`
/// must raise.
pub open spec fn post_decode_err(pl: Seq<u8>) -> Option<Error> {
    if pl.len() < 6 {
        Some(Error::TruncatedInput)
    } else if pl[4] >= NUM_PORTS {
        Some(Error::InvalidDiscriminant)
    } else if pl.len() < 21 {
        Some(Error::TruncatedInput)
    } else if spec_direction(be_u32(pl, 17) as u32) is None {
        Some(Error::InvalidDiscriminant)
    } else if !post_ok_len(pl.len() as int) {
        Some(Error::TruncatedInput)
    } else {
        None
    }
}

/// The error, if any, that decoding a game-start record from payload `pl`
/// must raise.
pub open spec fn start_decode_err(pl: Seq<u8>) -> Option<Error> {
    if !start_ok_len(pl.len() as int) {
        Some(Error::TruncatedInput)
    } else {
        None
    }
}

/// The error, if any, that decoding a game-end record from payload `pl` must
/// raise.
pub open spec fn end_decode_err(pl: Seq<u8>) -> Option<Error> {
    if pl.len() < 1 {
        Some(Error::TruncatedInput)
    } else {
        None
    }
}

/// Consumes bytes that must match `expected` exactly, comparing byte by byte
/// and stopping at the first mismatch, so that no byte beyond what was needed
/// to detect a mismatch is read.
#[verifier::loop_isolation(false)]
pub fn expect_bytes(r: &mut Reader, expected: &[u8]) -> (res: Result<(), Error>)
    requires
        old(r).wf(),
    ensures
        final(r).wf(),
        final(r).data() == old(r).data(),
        (match res {
            Ok(()) => {
                &&& old(r).remaining() >= expected@.len()
                &&& old(r).data().subrange(old(r).pos(), old(r).pos() + expected@.len())
                    == expected@
                &&& final(r).pos() == old(r).pos() + expected@.len()
            },
            Err(e) => {
                let d = old(r).data();
                let p = old(r).pos();
                ||| (e == Error::TruncatedInput && d.len() - p < expected@.len() && d.skip(p)
                    == expected@.take(d.len() - p) && final(r).pos() == d.len())
                ||| (e == Error::MalformedEnvelope && exists|k: int|
                    0 <= k < expected@.len() && p + k < d.len() && d.subrange(p, p + k)
                        == expected@.take(k) && d[p + k] != expected@[k] && final(r).pos() == p + k
                        + 1)
            },
        }),
{
    let mut i: usize = 0;
    while i < expected.len()
        invariant
            r.wf(),
            r.data() == old(r).data(),
            r.pos() == old(r).pos() + i,
            i <= expected@.len(),
            old(r).data().subrange(old(r).pos(), old(r).pos() + i) == expected@.take(i as int),
        decreases expected@.len() - i,
    {
        let b = match r.read_u8() {
            Ok(b) => b,
            Err(_) => {
                proof {
                    assert(r.data().skip(old(r).pos()) =~= expected@.take(
                        r.data().len() - old(r).pos(),
                    ));
                }
                return Err(Error::TruncatedInput);
            },
        };
        if b != expected[i] {
            proof {
                let k = i as int;
                assert(0 <= k < expected@.len() && old(r).pos() + k < old(r).data().len() && old(
                    r,
                ).data().subrange(old(r).pos(), old(r).pos() + k) == expected@.take(k) && old(
                    r,
                ).data()[old(r).pos() + k] != expected@[k] && r.pos() == old(r).pos() + k + 1);
            }
            return Err(Error::MalformedEnvelope);
        }
        i = i + 1;
        proof {
            assert(old(r).data().subrange(old(r).pos(), old(r).pos() + i) =~= expected@.take(
                i as int,
            ));
        }
    }
    proof {
        assert(expected@.take(expected@.len() as int) =~= expected@);
    }
    Ok(())
}

/// The sink: push callbacks for each decoded event, all optional (the
/// defaults accept and discard). A callback returning an error aborts the
/// parse, and that error is passed through unchanged.
pub trait Handlers {
    fn game_start(&mut self, s: Start) -> Result<(), Error> {
        Ok(())
    }

    fn game_end(&mut self, e: End) -> Result<(), Error> {
        Ok(())
    }

    fn frame_pre(&mut self, ev: FrameEvent<Pre>) -> Result<(), Error> {
        Ok(())
    }

    fn frame_post(&mut self, ev: FrameEvent<Post>) -> Result<(), Error> {
        Ok(())
    }

    fn metadata(&mut self, m: Vec<(String, crate::ubjson::Object)>) -> Result<(), Error> {
        Ok(())
    }
}

/// Parses a single event from the raw stream: one code byte, then exactly
/// the payload size the table declares for that code. A known event kind is
/// decoded and delivered to the sink; an unknown code is skipped without
/// error. Returns the bytes consumed (one more than the payload size) and
/// the known event kind, if any.
pub fn event<H: Handlers>(
    r: &mut Reader,
    sizes: &PayloadSizeTable,
    last_char_states: &mut Vec<CharState>,
    handlers: &mut H,
) -> (res: Result<(usize, Option<Event>), Error>)
    requires
        old(r).wf(),
        sizes.wf(),
        old(last_char_states)@.len() == NUM_PORTS,
    ensures
        final(r).wf(),
        final(r).data() == old(r).data(),
        final(last_char_states)@.len() == NUM_PORTS,
        (match res {
            Ok((n, ev)) => {
                let d = old(r).data();
                let p = old(r).pos();
                &&& old(r).remaining() >= 1
                &&& sizes.spec_get(d[p]) matches Some(sz) && n == 1 + sz && old(r).remaining() >= 1
                    + sz && final(r).pos() == p + 1 + sz
                &&& ev == spec_event_from_code(d[p])
                &&& (ev != Some(Event::FramePost) ==> final(last_char_states)@ == old(
                    last_char_states,
                )@)
                &&& (ev == Some(Event::FramePost) ==> final(last_char_states)@
                    == spec_states_after_post(
                    old(last_char_states)@,
                    d.subrange(p + 1, p + 1 + sizes.spec_get(d[p]).unwrap()),
                ))
            },
            Err(e) => {
                let d = old(r).data();
                let p = old(r).pos();
                let rem = old(r).remaining();
                ||| (rem < 1 && e == Error::TruncatedInput)
                ||| (rem >= 1 && sizes.spec_get(d[p]) is None && e == Error::UnknownEventSize)
                ||| (sizes.spec_get(d[p]) matches Some(sz) && rem >= 1 && rem < 1 + sz && e
                    == Error::TruncatedInput)
                ||| (sizes.spec_get(d[p]) matches Some(sz) && rem >= 1 + sz)
            },
        }),
        ({
            let d = old(r).data();
            let p = old(r).pos();
            &&& (sizes.spec_get(d[p]) matches Some(sz) && old(r).remaining() >= 1 + sz
                && spec_event_from_code(d[p]) is None ==> res is Ok)
            &&& ({
                let pl = d.subrange(p + 1, p + 1 + sizes.spec_get(d[p]).unwrap());
                sizes.spec_get(d[p]) is Some && old(r).remaining() >= 1 + sizes.spec_get(
                    d[p],
                ).unwrap() && spec_event_from_code(d[p]) == Some(Event::FramePre) && pre_decode_err(pl)
                    is Some ==> res == Err::<(usize, Option<Event>), Error>(
                    pre_decode_err(pl).unwrap(),
                )
            })
            &&& ({
                let pl = d.subrange(p + 1, p + 1 + sizes.spec_get(d[p]).unwrap());
                sizes.spec_get(d[p]) is Some && old(r).remaining() >= 1 + sizes.spec_get(
                    d[p],
                ).unwrap() && spec_event_from_code(d[p]) == Some(Event::FramePost) && post_decode_err(pl)
                    is Some ==> res == Err::<(usize, Option<Event>), Error>(
                    post_decode_err(pl).unwrap(),
                )
            })
            &&& ({
                let pl = d.subrange(p + 1, p + 1 + sizes.spec_get(d[p]).unwrap());
                sizes.spec_get(d[p]) is Some && old(r).remaining() >= 1 + sizes.spec_get(
                    d[p],
                ).unwrap() && spec_event_from_code(d[p]) == Some(Event::GameStart) && start_decode_err(pl)
                    is Some ==> res == Err::<(usize, Option<Event>), Error>(
                    start_decode_err(pl).unwrap(),
                )
            })
            &&& ({
                let pl = d.subrange(p + 1, p + 1 + sizes.spec_get(d[p]).unwrap());
                sizes.spec_get(d[p]) is Some && old(r).remaining() >= 1 + sizes.spec_get(
                    d[p],
                ).unwrap() && spec_event_from_code(d[p]) == Some(Event::GameEnd) && end_decode_err(pl)
                    is Some ==> res == Err::<(usize, Option<Event>), Error>(
                    end_decode_err(pl).unwrap(),
                )
            })
        }),
{
    let code = r.read_u8()?;
    let size = match sizes.get(code) {
        Some(s) => s as usize,
        None => {
            return Err(Error::UnknownEventSize);
        },
    };
    let buf = r.read_bytes(size)?;
    proof {
        assert(buf@.skip(0) =~= buf@);
    }
    let ev = Event::from_code(code);
    match ev {
        Some(Event::GameStart) => {
            let mut pr = Reader::new(buf.as_slice());
            let s = game_start(&mut pr)?;
            handlers.game_start(s)?;
        },
        Some(Event::FramePre) => {
            let mut pr = Reader::new(buf.as_slice());
            let ev = frame_pre(&mut pr, last_char_states)?;
            handlers.frame_pre(ev)?;
        },
        Some(Event::FramePost) => {
            let mut pr = Reader::new(buf.as_slice());
            let ev = frame_post(&mut pr, last_char_states)?;
            handlers.frame_post(ev)?;
        },
        Some(Event::GameEnd) => {
            let mut pr = Reader::new(buf.as_slice());
            let e = game_end(&mut pr)?;
            handlers.game_end(e)?;
        },
        None => {},
    }
    Ok((1 + size, ev))
}

/// The fixed container prologue: the top-level opening brace and the raw
/// byte-block field introducer.
pub open spec fn raw_header() -> Seq<u8> {
    seq![0x7bu8, 0x55u8, 0x03u8, 0x72u8, 0x61u8, 0x77u8, 0x5bu8, 0x24u8, 0x55u8, 0x23u8, 0x6cu8]
}

/// The fixed metadata field introducer, including the metadata map's opening
/// brace.
pub open spec fn metadata_header() -> Seq<u8> {
    seq![0x55u8, 0x08u8, 0x6du8, 0x65u8, 0x74u8, 0x61u8, 0x64u8, 0x61u8, 0x74u8, 0x61u8, 0x7bu8]
}

/// The payload size that the stream's own table record (at the head of the
/// raw block of `d`) declares for code `c`.
pub open spec fn spec_size_of(d: Seq<u8>, c: u8) -> Option<u16> {
    table_lookup(d.subrange(17, 16 + d[16]), c)
}

/// Whether offset `to` is reachable from offset `from` by whole records that
/// the event loop passes through without stopping: each step is one code
/// byte plus the payload size the stream's table declares for that code, and
/// none of the codes is the game-end code.
pub open spec fn records_span(d: Seq<u8>, from: int, to: int) -> bool
    decreases to - from,
    when from <= to
{
    if from >= to {
        from == to
    } else {
        &&& 0 <= from < d.len()
        &&& spec_event_from_code(d[from]) != Some(Event::GameEnd)
        &&& (spec_size_of(d, d[from]) matches Some(sz) && from + 1 + sz <= to && records_span(
            d,
            from + 1 + sz,
            to,
        ))
    }
}

proof fn lemma_records_span_extend(d: Seq<u8>, a: int, b: int, c: int)
    requires
        a <= b,
        records_span(d, a, b),
        0 <= b < d.len(),
        spec_event_from_code(d[b]) != Some(Event::GameEnd),
        spec_size_of(d, d[b]) matches Some(sz) && b + 1 + sz == c,
    ensures
        records_span(d, a, c),
    decreases b - a,
{
    if a == b {
        assert(records_span(d, c, c));
    } else {
        assert(a < b);
        let sz0 = spec_size_of(d, d[a]).unwrap();
        assert(a + 1 + sz0 <= b && records_span(d, a + 1 + sz0, b));
        lemma_records_span_extend(d, a + 1 + sz0, b, c);
    }
}

/// From `from`, records that are all unknown-coded (so that no decode and no
/// sink call is involved) drive the loop past `limit` without ever landing
/// on it: each record is declared in the table and fully available, and some
/// record strictly crosses `limit`.
pub open spec fn unknown_records_overshoot(d: Seq<u8>, from: int, limit: int) -> bool
    decreases limit - from,
{
    if from >= limit {
        false
    } else {
        &&& 0 <= from < d.len()
        &&& spec_event_from_code(d[from]) is None
        &&& (spec_size_of(d, d[from]) matches Some(sz) && from + 1 + sz <= d.len() && from + 1 + sz
            != limit && (from + 1 + sz > limit || unknown_records_overshoot(
            d,
            from + 1 + sz,
            limit,
        )))
    }
}

/// The raw region from `start` to `to` is the records the loop passes
/// through, closed either by the declared end itself or by exactly one final
/// game-end record: processing stops at the first game-end.
pub open spec fn raw_region_spans(d: Seq<u8>, start: int, to: int) -> bool {
    exists|m: int|
        #![trigger d.subrange(m, to)]
        {
            &&& records_span(d, start, m)
            &&& (m == to || (0 <= m < d.len() && spec_event_from_code(d[m]) == Some(
                Event::GameEnd,
            ) && (spec_size_of(d, d[m]) matches Some(sz) && m + 1 + sz == to)))
        }
}

/// Parses a whole replay from `buf`, delivering events to `handlers` in
/// stream order, one at a time. The raw stream's declared length (zero
/// meaning "unknown, still in progress") bounds the event loop; a nonzero
/// declared length must be matched exactly by the bytes consumed, or the
/// parse fails with `ByteAccountingMismatch`. On success the declared raw
/// region is exactly the table record followed by whole event records, each
/// consuming one more byte than its declared payload size.
#[verifier::loop_isolation(false)]
pub fn parse<H: Handlers>(buf: &[u8], handlers: &mut H) -> (res: Result<(), Error>)
    ensures
        (match res {
            Ok(()) => {
                let raw_len = be_u32(buf@, 11);
                &&& buf@.len() >= 15
                &&& buf@.subrange(0, 11) == raw_header()
                &&& buf@.len() >= 16 && buf@[15] == PAYLOADS_EVENT_CODE
                &&& (raw_len != 0 ==> 15 + raw_len + 11 <= buf@.len() && buf@.subrange(
                    15 + raw_len,
                    26 + raw_len,
                ) == metadata_header())
                &&& (raw_len != 0 ==> raw_region_spans(buf@, 16 + buf@[16], 15 + raw_len))
                &&& (raw_len == 0 ==> exists|m: int, b: int|
                    #![trigger buf@.subrange(m, b)]
                    {
                        &&& records_span(buf@, 16 + buf@[16], m)
                        &&& 0 <= m < buf@.len()
                        &&& spec_event_from_code(buf@[m]) == Some(Event::GameEnd)
                        &&& (spec_size_of(buf@, buf@[m]) matches Some(sz) && m + 1 + sz == b)
                        &&& b + 11 <= buf@.len()
                        &&& buf@.subrange(b, b + 11) == metadata_header()
                    })
                &&& exists|h: int, e: int, mm: Seq<(String, crate::ubjson::Object)>|
                    #![trigger crate::ubjson::pairs_region(buf@, h, e, Seq::empty(), mm)]
                    {
                        &&& buf@.subrange(h - 11, h) == metadata_header()
                        &&& crate::ubjson::pairs_region(buf@, h, e, Seq::empty(), mm)
                        &&& 0 <= e < buf@.len()
                        &&& buf@[e] == 0x7d
                    }
            },
            Err(e) => true,
        }),
        buf@.len() >= 11 && buf@.subrange(0, 11) != raw_header() ==> res == Err::<(), Error>(
            Error::MalformedEnvelope,
        ),
        buf@.len() < 11 && buf@ == raw_header().take(buf@.len() as int) ==> res == Err::<
            (),
            Error,
        >(Error::TruncatedInput),
        buf@.len() >= 11 && buf@.subrange(0, 11) == raw_header() && buf@.len() < 16 ==> res
            == Err::<(), Error>(Error::TruncatedInput),
        buf@.len() >= 16 && buf@.subrange(0, 11) == raw_header() && buf@[15]
            != PAYLOADS_EVENT_CODE ==> res == Err::<(), Error>(Error::MalformedEnvelope),
        buf@.len() == 16 && buf@.subrange(0, 11) == raw_header() && buf@[15]
            == PAYLOADS_EVENT_CODE ==> res == Err::<(), Error>(Error::TruncatedInput),
        buf@.len() >= 17 && buf@.subrange(0, 11) == raw_header() && buf@[15]
            == PAYLOADS_EVENT_CODE && buf@[16] % 3 != 1 ==> res == Err::<(), Error>(
            Error::MalformedEnvelope,
        ),
        ({
            let raw_len = be_u32(buf@, 11);
            buf@.len() >= 17 && buf@.subrange(0, 11) == raw_header() && buf@[15]
                == PAYLOADS_EVENT_CODE && buf@[16] % 3 == 1 && 16 + buf@[16] <= buf@.len()
                && raw_len != 0 && unknown_records_overshoot(buf@, 16 + buf@[16], 15 + raw_len)
                ==> res == Err::<(), Error>(Error::ByteAccountingMismatch)
        }),
{
    let total = buf.len();
    proof {
        assert(buf@.len() == total);
    }
    let mut r = Reader::new(buf);
    let header: Vec<u8> = vec![0x7b, 0x55, 0x03, 0x72, 0x61, 0x77, 0x5b, 0x24, 0x55, 0x23, 0x6c];
    proof {
        assert(header@ =~= raw_header());
    }
    match expect_bytes(&mut r, header.as_slice()) {
        Ok(()) => {},
        Err(e) => {
            proof {
                if buf@.len() >= 11 && buf@.subrange(0, 11) != raw_header() {
                    assert(buf@.skip(0) =~= buf@);
                }
            }
            return Err(e);
        },
    }
    let raw_len_u32 = r.read_u32()?;
    let raw_len = raw_len_u32 as usize;
    let (first, sizes) = payload_sizes(&mut r)?;
    let mut bytes_read: usize = first;
    let mut last_char_states = default_char_states();
    let mut ended = false;
    let ghost mut end_start: int = 0;
    let ghost ov: bool = buf@.len() >= 17 && buf@.subrange(0, 11) == raw_header() && buf@[15]
        == PAYLOADS_EVENT_CODE && buf@[16] % 3 == 1 && 16 + buf@[16] <= buf@.len() && raw_len != 0
        && unknown_records_overshoot(buf@, 16 + buf@[16], 15 + be_u32(buf@, 11));
    while (raw_len == 0 || bytes_read < raw_len) && !ended
        invariant
            ov ==> !ended && (bytes_read < raw_len ==> unknown_records_overshoot(
                buf@,
                15 + bytes_read,
                15 + raw_len,
            )) && (bytes_read >= raw_len ==> bytes_read > raw_len),
            r.wf(),
            r.data() == buf@,
            buf@.len() <= usize::MAX,
            sizes.wf(),
            last_char_states@.len() == NUM_PORTS,
            r.pos() == 15 + bytes_read,
            first <= bytes_read,
            !ended ==> records_span(buf@, 15 + first, 15 + bytes_read),
            ended ==> 0 <= end_start < buf@.len() && records_span(buf@, 15 + first, end_start)
                && spec_event_from_code(buf@[end_start]) == Some(Event::GameEnd) && (spec_size_of(
                buf@,
                buf@[end_start],
            ) matches Some(sz) && end_start + 1 + sz == 15 + bytes_read),
        decreases r.remaining(),
    {
        let ghost prev_read = bytes_read as int;
        let (n, ev) = event(&mut r, &sizes, &mut last_char_states, handlers)?;
        bytes_read = bytes_read + n;
        if let Some(Event::GameEnd) = ev {
            ended = true;
            proof {
                end_start = 15 + prev_read;
            }
        } else {
            proof {
                lemma_records_span_extend(buf@, 15 + first, 15 + prev_read, 15 + prev_read + n);
            }
        }
    }
    if raw_len != 0 && bytes_read != raw_len {
        return Err(Error::ByteAccountingMismatch);
    }
    proof {
        if raw_len != 0 {
            if ended {
                assert(buf@.subrange(end_start, 15 + raw_len as int) =~= buf@.subrange(
                    end_start,
                    15 + raw_len as int,
                ));
            } else {
                assert(buf@.subrange(15 + raw_len as int, 15 + raw_len as int) =~= buf@.subrange(
                    15 + raw_len as int,
                    15 + raw_len as int,
                ));
            }
            assert(raw_region_spans(buf@, 16 + buf@[16], 15 + raw_len as int));
        }
    }
    let meta_header: Vec<u8> = vec![
        0x55,
        0x08,
        0x6d,
        0x65,
        0x74,
        0x61,
        0x64,
        0x61,
        0x74,
        0x61,
        0x7b,
    ];
    proof {
        assert(meta_header@ =~= metadata_header());
    }
    expect_bytes(&mut r, meta_header.as_slice())?;
    proof {
        if raw_len == 0 {
            assert(buf@.subrange(end_start, 15 + bytes_read as int) =~= buf@.subrange(
                end_start,
                15 + bytes_read as int,
            ));
        }
    }
    let ghost h = r.pos();
    let meta = crate::ubjson::parse_map(&mut r)?;
    let ghost e_end = r.pos();
    let ghost meta_view = meta@;
    handlers.metadata(meta)?;
    let closing: Vec<u8> = vec![0x7d];
    expect_bytes(&mut r, closing.as_slice())?;
    proof {
        assert(buf@.subrange(e_end, e_end + 1)[0] == buf@[e_end]);
        assert(closing@[0] == 0x7d);
        assert(crate::ubjson::pairs_region(buf@, h, e_end, Seq::empty(), meta_view));
    }
    Ok(())
}

/// Extension presence is monotone for pre-frame records: a record that
/// decoded from some payload can only carry the damage extension inside the
/// analog extension, and each layer appears exactly when the payload reaches
/// it, so a missing layer silences all later ones.
pub proof fn lemma_pre_extension_monotonic(
    ev: FrameEvent<Pre>,
    pl: Seq<u8>,
    states: Seq<CharState>,
)
    requires
        pre_matches(ev, pl, states),
    ensures
        ev.event.v1_2 is None ==> pl.len() <= 58,
        (ev.event.v1_2 matches Some(x) && x.v1_4 is Some) ==> ev.event.v1_2 is Some,
        ev.event.v1_2 is None ==> !(ev.event.v1_2 matches Some(x) && x.v1_4 is Some),
{
}

/// Extension presence is monotone for post-frame records: the format 2.1
/// layer requires the 2.0 layer, which requires the 0.2 layer.
pub proof fn lemma_post_extension_monotonic(ev: FrameEvent<Post>, pl: Seq<u8>)
    requires
        post_matches(ev, pl),
    ensures
        ev.event.v0_2 is None ==> pl.len() <= 33,
        (ev.event.v0_2 matches Some(x) && x.v2_0 is Some) ==> pl.len() > 37,
        (ev.event.v0_2 matches Some(x) && x.v2_0 matches Some(y) && y.v2_1 is Some) ==> pl.len()
            > 51,
        ev.event.v0_2 is None ==> !(ev.event.v0_2 matches Some(x) && x.v2_0 is Some),
{
    if let Some(x) = ev.event.v0_2 {
        if pl.len() > 33 {
            assert(post_v0_2_matches(x, pl.skip(33)));
            assert(pl.skip(33).len() == pl.len() - 33);
        }
    }
}

/// Extension presence is monotone for game-start records: the frozen-stage
/// layer requires the region layer, and each appears exactly when the
/// payload reaches it.
pub proof fn lemma_start_extension_monotonic(s: Start, pl: Seq<u8>)
    requires
        start_matches(s, pl),
    ensures
        s.v1_5 is None ==> pl.len() <= 416,
        (s.v1_5 matches Some(x) && x.v2_0 is Some) ==> pl.len() > 417,
        s.v1_5 is None ==> !(s.v1_5 matches Some(x) && x.v2_0 is Some),
{
}

/// Extension presence is monotone for game-end records: the only extension
/// appears exactly when the payload reaches it.
pub proof fn lemma_end_extension_monotonic(v: End, pl: Seq<u8>)
    requires
        end_matches(v, pl),
    ensures
        v.v2_0 is None ==> pl.len() <= 1,
        v.v2_0 is Some ==> pl.len() >= 2,
{
}

} // verus!
