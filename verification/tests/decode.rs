//! Unit tests of the record decoders and the character-prediction machine.

use slippi_parse::action_state::{Internal, State};
use slippi_parse::codec::Reader;
use slippi_parse::frame::{Direction, Indexed};
use slippi_parse::game::PLAYER_TYPE_CPU;
use slippi_parse::parse::{
    default_char_states, direction, flags, frame_post, frame_pre, game_end, game_start,
    payload_sizes, predict_character, update_last_char_state, CharState, FrameId,
    SHEIK_TRANSFORM_FRAME, ZELDA_TRANSFORM_FRAME,
};
use slippi_parse::Error;

const ZELDA: u8 = 19;
const SHEIK: u8 = 7;
const ZELDA_TG: u16 = 355;
const ZELDA_TA: u16 = 357;
const SHEIK_TG: u16 = 354;

fn id(port: u8) -> FrameId {
    FrameId {
        index: 0,
        port,
        is_follower: false,
    }
}

#[test]
fn direction_zero_magnitude_is_invalid() {
    assert_eq!(direction(0x0000_0000), Err(Error::InvalidDiscriminant));
    assert_eq!(direction(0x8000_0000), Err(Error::InvalidDiscriminant));
}

#[test]
fn direction_nan_is_invalid() {
    assert_eq!(direction(0x7fc0_0000), Err(Error::InvalidDiscriminant));
    assert_eq!(direction(0xffc0_0000), Err(Error::InvalidDiscriminant));
}

#[test]
fn direction_sign_decides() {
    // -1.0, -inf, and a tiny negative all face left; positives face right.
    assert_eq!(direction(0xbf80_0000), Ok(Direction::Left));
    assert_eq!(direction(0xff80_0000), Ok(Direction::Left));
    assert_eq!(direction(0x8000_0001), Ok(Direction::Left));
    assert_eq!(direction(0x3f80_0000), Ok(Direction::Right));
    assert_eq!(direction(0x7f80_0000), Ok(Direction::Right));
    assert_eq!(direction(0x0000_0001), Ok(Direction::Right));
}

#[test]
fn flags_pack_at_byte_offsets() {
    let r = flags(&vec![0x10, 0x00, 0x00, 0x00, 0x80]);
    assert_eq!(r.0, 0x80_0000_0010);
}

#[test]
fn prediction_keeps_character_below_threshold() {
    let mut states = default_char_states();
    update_last_char_state(
        id(0),
        Internal(ZELDA),
        State::Zelda(ZELDA_TG),
        &mut states,
    );
    // age 0 after the state change: far below the threshold
    assert_eq!(predict_character(id(0), &states), Internal(ZELDA));
}

#[test]
fn prediction_switches_at_threshold() {
    // One frame short of the threshold the predictor still names Zelda; the
    // next repeated transform observation brings the age to the threshold
    // and the prediction switches to Sheik.
    let mut states = default_char_states();
    states[0] = CharState {
        character: Internal(ZELDA),
        state: State::Zelda(ZELDA_TG),
        age: ZELDA_TRANSFORM_FRAME - 1,
    };
    assert_eq!(predict_character(id(0), &states), Internal(ZELDA));
    update_last_char_state(
        id(0),
        Internal(ZELDA),
        State::Zelda(ZELDA_TG),
        &mut states,
    );
    assert_eq!(states[0].age, ZELDA_TRANSFORM_FRAME);
    assert_eq!(predict_character(id(0), &states), Internal(SHEIK));
}

#[test]
fn sheik_prediction_switches_at_threshold() {
    let mut states = default_char_states();
    states[1] = CharState {
        character: Internal(SHEIK),
        state: State::Sheik(SHEIK_TG),
        age: SHEIK_TRANSFORM_FRAME,
    };
    assert_eq!(predict_character(id(1), &states), Internal(ZELDA));
    // Other ports are untouched.
    assert_eq!(predict_character(id(0), &states), Internal(255));
}

#[test]
fn landing_during_transform_caps_age() {
    // Transitioning air-transform to ground-transform increments the age but
    // caps it one frame short of the threshold, modelling the one-frame
    // landing delay of the character switch.
    let mut states = default_char_states();
    states[0] = CharState {
        character: Internal(ZELDA),
        state: State::Zelda(ZELDA_TA),
        age: ZELDA_TRANSFORM_FRAME - 1,
    };
    update_last_char_state(
        id(0),
        Internal(ZELDA),
        State::Zelda(ZELDA_TG),
        &mut states,
    );
    assert_eq!(states[0].age, ZELDA_TRANSFORM_FRAME - 1);
    assert_eq!(predict_character(id(0), &states), Internal(ZELDA));
}

#[test]
fn unrelated_state_resets_age() {
    let mut states = default_char_states();
    states[0] = CharState {
        character: Internal(ZELDA),
        state: State::Zelda(ZELDA_TG),
        age: 10,
    };
    update_last_char_state(id(0), Internal(ZELDA), State::Common(14), &mut states);
    assert_eq!(states[0].age, 0);
    assert_eq!(states[0].state, State::Common(14));
}

#[test]
fn payload_table_parses_entries() {
    let bytes = vec![0x35, 0x07, 0x37, 0x00, 0x64, 0x38, 0x00, 0x78];
    let mut r = Reader::new(&bytes);
    let (n, table) = payload_sizes(&mut r).unwrap();
    assert_eq!(n, 8);
    assert_eq!(table.get(0x37), Some(100));
    assert_eq!(table.get(0x38), Some(120));
    assert_eq!(table.get(0x40), None);
}

#[test]
fn payload_table_later_entry_wins() {
    let bytes = vec![0x35, 0x07, 0x37, 0x00, 0x64, 0x37, 0x00, 0x01];
    let mut r = Reader::new(&bytes);
    let (_, table) = payload_sizes(&mut r).unwrap();
    assert_eq!(table.get(0x37), Some(1));
}

#[test]
fn payload_table_truncated_mid_entry() {
    let bytes = vec![0x35, 0x07, 0x37, 0x00, 0x64, 0x38];
    let mut r = Reader::new(&bytes);
    assert_eq!(payload_sizes(&mut r).unwrap_err(), Error::TruncatedInput);
}

#[test]
fn game_end_lengths() {
    let one = vec![0x07];
    let mut r = Reader::new(&one);
    let e = game_end(&mut r).unwrap();
    assert_eq!(e.method.0, 7);
    assert!(e.v2_0.is_none());

    let empty: Vec<u8> = Vec::new();
    let mut r = Reader::new(&empty);
    assert_eq!(game_end(&mut r).unwrap_err(), Error::TruncatedInput);
}

fn pre_payload(len: usize) -> Vec<u8> {
    let mut p = vec![0u8; len];
    p[20] = 0xbf;
    p[21] = 0x80;
    p
}

fn post_payload(len: usize) -> Vec<u8> {
    let mut p = vec![0u8; len];
    p[17] = 0x3f;
    p[18] = 0x80;
    p
}

#[test]
fn frame_pre_extension_chain_follows_length() {
    let states = default_char_states();

    let base = pre_payload(58);
    let mut r = Reader::new(&base);
    let ev = frame_pre(&mut r, &states).unwrap();
    assert!(ev.event.v1_2.is_none());
    assert_eq!(ev.event.direction, Direction::Left);

    let with_analog = pre_payload(59);
    let mut r = Reader::new(&with_analog);
    let ev = frame_pre(&mut r, &states).unwrap();
    let v1_2 = ev.event.v1_2.unwrap();
    assert!(v1_2.v1_4.is_none());

    let with_damage = pre_payload(63);
    let mut r = Reader::new(&with_damage);
    let ev = frame_pre(&mut r, &states).unwrap();
    assert!(ev.event.v1_2.unwrap().v1_4.is_some());

    // A payload that reaches into the damage extension but cannot complete
    // it is truncated, never partially decoded.
    let short = pre_payload(61);
    let mut r = Reader::new(&short);
    assert_eq!(frame_pre(&mut r, &states).unwrap_err(), Error::TruncatedInput);
}

#[test]
fn frame_pre_interprets_state_for_predicted_character() {
    // With the slot's transform age at the threshold, the pre-frame decoder
    // must interpret a character-specific state code for the alternate
    // character of the pair.
    let mut states = default_char_states();
    states[0] = CharState {
        character: Internal(ZELDA),
        state: State::Zelda(ZELDA_TG),
        age: ZELDA_TRANSFORM_FRAME,
    };
    let mut p = pre_payload(58);
    p[10] = (360u16 >> 8) as u8;
    p[11] = 360u16 as u8;
    let mut r = Reader::new(&p);
    let ev = frame_pre(&mut r, &states).unwrap();
    assert_eq!(ev.event.state, State::Sheik(360));

    // One frame earlier the prediction stays with Zelda.
    states[0].age = ZELDA_TRANSFORM_FRAME - 1;
    let mut r = Reader::new(&p);
    let ev = frame_pre(&mut r, &states).unwrap();
    assert_eq!(ev.event.state, State::Zelda(360));
}

#[test]
fn frame_pre_rejects_out_of_range_port() {
    let states = default_char_states();
    let mut p = pre_payload(58);
    p[4] = 4;
    let mut r = Reader::new(&p);
    assert_eq!(
        frame_pre(&mut r, &states).unwrap_err(),
        Error::InvalidDiscriminant
    );
}

#[test]
fn frame_pre_zero_direction_is_invalid() {
    let states = default_char_states();
    let p = vec![0u8; 58];
    let mut r = Reader::new(&p);
    assert_eq!(
        frame_pre(&mut r, &states).unwrap_err(),
        Error::InvalidDiscriminant
    );
}

#[test]
fn frame_post_extension_chain_follows_length() {
    let mut states = default_char_states();

    let base = post_payload(33);
    let mut r = Reader::new(&base);
    let ev = frame_post(&mut r, &mut states).unwrap();
    assert!(ev.event.v0_2.is_none());

    let v0_2 = post_payload(37);
    let mut r = Reader::new(&v0_2);
    let ev = frame_post(&mut r, &mut states).unwrap();
    assert!(ev.event.v0_2.unwrap().v2_0.is_none());

    let v2_0 = post_payload(51);
    let mut r = Reader::new(&v2_0);
    let ev = frame_post(&mut r, &mut states).unwrap();
    assert!(ev.event.v0_2.unwrap().v2_0.unwrap().v2_1.is_none());

    let v2_1 = post_payload(52);
    let mut r = Reader::new(&v2_1);
    let ev = frame_post(&mut r, &mut states).unwrap();
    assert!(ev.event.v0_2.unwrap().v2_0.unwrap().v2_1.is_some());
}

#[test]
fn frame_post_updates_slot_state() {
    let mut states = default_char_states();
    let mut p = post_payload(33);
    p[4] = 1; // port
    p[6] = ZELDA; // character
    p[7] = (ZELDA_TG >> 8) as u8;
    p[8] = ZELDA_TG as u8;
    let mut r = Reader::new(&p);
    let ev = frame_post(&mut r, &mut states).unwrap();
    assert_eq!(ev.event.character, Internal(ZELDA));
    assert_eq!(ev.event.state, State::Zelda(ZELDA_TG));
    assert_eq!(states[1].character, Internal(ZELDA));
    assert_eq!(states[1].state, State::Zelda(ZELDA_TG));
    assert_eq!(states[1].age, 0);
}

#[test]
fn game_start_base_fields() {
    let mut p = vec![0u8; 320];
    p[0] = 3;
    p[1] = 7;
    p[2] = 1; // version
    p[12] = 1; // teams
    p[15] = 0xff; // item spawn frequency -1
    p[18] = 0x00;
    p[19] = 0x1c; // stage 28
    p[100] = 9; // player 0 external character
    p[101] = PLAYER_TYPE_CPU;
    p[115] = 5; // player 0 cpu level
    p[137] = 3; // player 1 slot type: unused, so no record
    p[173] = 1; // player 2 slot type: CPU
    let mut r = Reader::new(&p);
    let s = game_start(&mut r).unwrap();
    assert_eq!(s.slippi.version.0, 3);
    assert_eq!(s.slippi.version.1, 7);
    assert_eq!(s.slippi.version.2, 1);
    assert!(s.is_teams);
    assert_eq!(s.item_spawn_frequency, -1);
    assert_eq!(s.stage.0, 28);
    assert!(s.v1_5.is_none());
    let p0 = s.players[0].as_ref().unwrap();
    assert_eq!(p0.character.0, 9);
    assert_eq!(p0.cpu_level, Some(5));
    assert!(p0.team.is_some());
    assert!(p0.v1_0.is_none());
    assert!(s.players[1].is_none());
    assert!(s.players[2].is_some());
    assert!(s.players[3].is_some());
}

#[test]
fn game_start_name_tag_stops_at_first_null() {
    let mut p = vec![0u8; 416];
    // Name tag block of player 0 begins at 352.
    p[352] = 0x41;
    p[353] = 0x42;
    p[354] = 0x00;
    p[355] = 0x43; // after the terminator: ignored
    let mut r = Reader::new(&p);
    let s = game_start(&mut r).unwrap();
    let p0 = s.players[0].as_ref().unwrap();
    let v1_0 = p0.v1_0.as_ref().unwrap();
    assert_eq!(v1_0.v1_3.as_ref().unwrap().name_tag, "AB");
    assert!(s.v1_5.is_none());
}

#[test]
fn game_start_name_tag_decodes_double_byte_text() {
    let mut p = vec![0u8; 416];
    // A two-byte sequence of the name-tag charset.
    p[352] = 0x82;
    p[353] = 0xa0;
    let mut r = Reader::new(&p);
    let s = game_start(&mut r).unwrap();
    let p0 = s.players[0].as_ref().unwrap();
    let v1_0 = p0.v1_0.as_ref().unwrap();
    assert_eq!(v1_0.v1_3.as_ref().unwrap().name_tag, "\u{3042}");
}

#[test]
fn game_start_ucf_zero_means_absent() {
    let mut p = vec![0u8; 352];
    // Controller-fix block of player 1 begins at 328: dash back 1, shield
    // drop stays 0.
    p[331] = 1;
    let mut r = Reader::new(&p);
    let s = game_start(&mut r).unwrap();
    let p0 = s.players[0].as_ref().unwrap();
    let u0 = p0.v1_0.as_ref().unwrap();
    assert!(u0.ucf.dash_back.is_none());
    assert!(u0.ucf.shield_drop.is_none());
    let p1 = s.players[1].as_ref().unwrap();
    let u1 = p1.v1_0.as_ref().unwrap();
    assert_eq!(u1.ucf.dash_back.as_ref().unwrap().0, 1);
    // Teams flag clear: no team record on any slot.
    assert!(p0.team.is_none());
}

#[test]
fn game_start_region_extensions() {
    let mut p = vec![0u8; 418];
    p[416] = 1; // PAL
    p[417] = 1; // frozen stage
    let mut r = Reader::new(&p);
    let s = game_start(&mut r).unwrap();
    let v1_5 = s.v1_5.unwrap();
    assert!(v1_5.is_pal);
    assert!(v1_5.v2_0.unwrap().is_frozen_ps);

    let q = vec![0u8; 417];
    let mut r = Reader::new(&q);
    let s = game_start(&mut r).unwrap();
    let v1_5 = s.v1_5.unwrap();
    assert!(!v1_5.is_pal);
    assert!(v1_5.v2_0.is_none());
}

#[test]
fn array_index_offsets_by_first_frame() {
    let states = default_char_states();
    let mut p = pre_payload(58);
    p[0] = 0xff;
    p[1] = 0xff;
    p[2] = 0xff;
    p[3] = 0x85; // frame -123
    let mut r = Reader::new(&p);
    let ev = frame_pre(&mut r, &states).unwrap();
    assert_eq!(ev.event.array_index(), 0);

    let mut q = post_payload(33);
    q[3] = 0x05; // frame 5
    let mut r = Reader::new(&q);
    let mut st = default_char_states();
    let ev = frame_post(&mut r, &mut st).unwrap();
    assert_eq!(ev.event.array_index(), 128);
}

#[test]
fn game_start_truncated_between_layers() {
    let p = vec![0u8; 330];
    let mut r = Reader::new(&p);
    assert_eq!(game_start(&mut r).unwrap_err(), Error::TruncatedInput);
}
