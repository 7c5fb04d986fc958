//! End-to-end parses of synthetic replay streams.

use slippi_parse::frame::{Post, Pre};
use slippi_parse::game::{End, Start};
use slippi_parse::parse::{parse, Event, FrameEvent, Handlers};
use slippi_parse::ubjson::Object;
use slippi_parse::Error;

#[derive(Default)]
struct Rec {
    calls: Vec<&'static str>,
    meta: Option<Object>,
    starts: Vec<Start>,
    pres: Vec<FrameEvent<Pre>>,
    posts: Vec<FrameEvent<Post>>,
    ends: Vec<End>,
    fail_on_pre: bool,
}

impl Handlers for Rec {
    fn game_start(&mut self, s: Start) -> Result<(), Error> {
        self.calls.push("start");
        self.starts.push(s);
        Ok(())
    }

    fn game_end(&mut self, e: End) -> Result<(), Error> {
        self.calls.push("end");
        self.ends.push(e);
        Ok(())
    }

    fn frame_pre(&mut self, ev: FrameEvent<Pre>) -> Result<(), Error> {
        if self.fail_on_pre {
            return Err(Error::SinkRejected);
        }
        self.calls.push("pre");
        self.pres.push(ev);
        Ok(())
    }

    fn frame_post(&mut self, ev: FrameEvent<Post>) -> Result<(), Error> {
        self.calls.push("post");
        self.posts.push(ev);
        Ok(())
    }

    fn metadata(&mut self, m: Vec<(String, Object)>) -> Result<(), Error> {
        self.calls.push("metadata");
        self.meta = Some(Object::Dict(m));
        Ok(())
    }
}

fn push_u16(v: &mut Vec<u8>, x: u16) {
    v.push((x >> 8) as u8);
    v.push(x as u8);
}

fn push_u32(v: &mut Vec<u8>, x: u32) {
    v.push((x >> 24) as u8);
    v.push((x >> 16) as u8);
    v.push((x >> 8) as u8);
    v.push(x as u8);
}

fn table_record(entries: &[(u8, u16)]) -> Vec<u8> {
    let mut v = vec![0x35, (1 + 3 * entries.len()) as u8];
    for &(c, s) in entries {
        v.push(c);
        push_u16(&mut v, s);
    }
    v
}

/// A pre-frame payload of the given length, zero except a rightward facing.
fn pre_payload(len: usize) -> Vec<u8> {
    let mut p = vec![0u8; len];
    p[20] = 0x3f;
    p[21] = 0x80;
    p
}

/// A post-frame payload of the given length, zero except a rightward facing.
fn post_payload(len: usize) -> Vec<u8> {
    let mut p = vec![0u8; len];
    p[17] = 0x3f;
    p[18] = 0x80;
    p
}

const RAW_HEADER: [u8; 11] = [
    0x7b, 0x55, 0x03, 0x72, 0x61, 0x77, 0x5b, 0x24, 0x55, 0x23, 0x6c,
];
const META_HEADER: [u8; 11] = [
    0x55, 0x08, 0x6d, 0x65, 0x74, 0x61, 0x64, 0x61, 0x74, 0x61, 0x7b,
];

/// Assembles a container: prologue, declared length, raw records, metadata
/// body (the bytes after the metadata map's opening brace), closing brace.
fn container(records: &[Vec<u8>], raw_len: u32, metadata_body: &[u8]) -> Vec<u8> {
    let mut v = Vec::new();
    v.extend_from_slice(&RAW_HEADER);
    push_u32(&mut v, raw_len);
    for r in records {
        v.extend_from_slice(r);
    }
    v.extend_from_slice(&META_HEADER);
    v.extend_from_slice(metadata_body);
    v.push(0x7d);
    v
}

fn minimal_records() -> (Vec<Vec<u8>>, u32) {
    let table = table_record(&[(0x36, 320), (0x37, 58), (0x38, 33), (0x39, 1)]);
    let mut records = vec![table];
    let mut start = vec![0x36];
    start.extend_from_slice(&vec![0u8; 320]);
    records.push(start);
    let mut pre = vec![0x37];
    pre.extend_from_slice(&pre_payload(58));
    records.push(pre);
    let mut post = vec![0x38];
    post.extend_from_slice(&post_payload(33));
    records.push(post);
    records.push(vec![0x39, 0x03]);
    let raw_len: u32 = records.iter().map(|r| r.len() as u32).sum();
    (records, raw_len)
}

#[test]
fn round_trip_minimal_stream() {
    let (records, raw_len) = minimal_records();
    assert_eq!(raw_len, 14 + 321 + 59 + 34 + 2);
    let buf = container(&records, raw_len, &[0x7d]);
    let mut rec = Rec::default();
    assert_eq!(parse(&buf, &mut rec), Ok(()));
    assert_eq!(rec.calls, vec!["start", "pre", "post", "end", "metadata"]);
    assert_eq!(rec.ends[0].method.0, 3);
    assert_eq!(rec.meta, Some(Object::Dict(Vec::new())));
}

#[test]
fn nested_metadata_reaches_the_sink() {
    let (records, raw_len) = minimal_records();
    // { "x": { "y": 5 } } after the opening brace of the metadata map
    let meta_body = vec![
        0x55, 0x01, 0x78, 0x7b, 0x55, 0x01, 0x79, 0x6c, 0x00, 0x00, 0x00, 0x05, 0x7d, 0x7d,
    ];
    let buf = container(&records, raw_len, &meta_body);
    let mut rec = Rec::default();
    assert_eq!(parse(&buf, &mut rec), Ok(()));
    let expected = Object::Dict(vec![(
        "x".to_string(),
        Object::Dict(vec![("y".to_string(), Object::Int(5))]),
    )]);
    assert_eq!(rec.meta, Some(expected));
}

#[test]
fn zero_declared_length_stops_at_game_end() {
    let (records, _) = minimal_records();
    let buf = container(&records, 0, &[0x7d]);
    let mut rec = Rec::default();
    assert_eq!(parse(&buf, &mut rec), Ok(()));
    assert_eq!(rec.calls, vec!["start", "pre", "post", "end", "metadata"]);
}

#[test]
fn known_record_consumes_code_plus_declared_size() {
    // A 0x37-coded record with declared size 100 consumes 101 bytes, and an
    // unrecognized code present in the table is skipped without error.
    let table = table_record(&[(0x37, 100), (0x38, 120), (0x39, 1), (0x40, 10)]);
    let table_len = table.len() as u32;
    let mut records = vec![table];
    let mut pre = vec![0x37];
    pre.extend_from_slice(&pre_payload(100));
    records.push(pre);
    let mut unknown = vec![0x40];
    unknown.extend_from_slice(&vec![0u8; 10]);
    records.push(unknown);
    records.push(vec![0x39, 0x00]);
    let raw_len = table_len + 101 + 11 + 2;
    let buf = container(&records, raw_len, &[0x7d]);
    let mut rec = Rec::default();
    assert_eq!(parse(&buf, &mut rec), Ok(()));
    assert_eq!(rec.calls, vec!["pre", "end", "metadata"]);
}

#[test]
fn in_progress_stream_without_game_end_overruns_into_epilogue() {
    // With an unknown (zero) declared length and no game-end record, the
    // loop keeps reading and takes the metadata introducer's first byte for
    // an event code that the table never declared.
    let table = table_record(&[(0x37, 58)]);
    let mut pre = vec![0x37];
    pre.extend_from_slice(&pre_payload(58));
    let buf = container(&[table, pre], 0, &[0x7d]);
    let mut rec = Rec::default();
    assert_eq!(parse(&buf, &mut rec), Err(Error::UnknownEventSize));
    assert_eq!(rec.calls, vec!["pre"]);
}

#[test]
fn unknown_records_overshooting_declared_length_mismatch() {
    // Unknown-coded records whose sizes step past the declared length can
    // never land on it exactly, so the accounting check must fail.
    let table = table_record(&[(0x40, 10)]);
    let table_len = table.len() as u32;
    let mut records = vec![table];
    for _ in 0..3 {
        let mut unknown = vec![0x40];
        unknown.extend_from_slice(&vec![0u8; 10]);
        records.push(unknown);
    }
    // Declared length falls in the middle of the third record.
    let raw_len = table_len + 11 + 11 + 5;
    let buf = container(&records, raw_len, &[0x7d]);
    let mut rec = Rec::default();
    assert_eq!(parse(&buf, &mut rec), Err(Error::ByteAccountingMismatch));
    assert!(rec.calls.is_empty());
}

#[test]
fn byte_accounting_mismatch_is_detected() {
    let (records, raw_len) = minimal_records();
    let buf = container(&records, raw_len - 1, &[0x7d]);
    let mut rec = Rec::default();
    assert_eq!(parse(&buf, &mut rec), Err(Error::ByteAccountingMismatch));
}

#[test]
fn malformed_prologue_fails_before_any_event() {
    let (records, raw_len) = minimal_records();
    let mut buf = container(&records, raw_len, &[0x7d]);
    buf[0] = 0x7c;
    let mut rec = Rec::default();
    assert_eq!(parse(&buf, &mut rec), Err(Error::MalformedEnvelope));
    assert!(rec.calls.is_empty());
}

#[test]
fn unknown_event_size_is_fatal() {
    // Code 0x41 never appears in the table, so its payload size is unknown.
    let table = table_record(&[(0x39, 1)]);
    let table_len = table.len() as u32;
    let records = vec![table, vec![0x41, 0x00, 0x00], vec![0x39, 0x00]];
    let raw_len = table_len + 3 + 2;
    let buf = container(&records, raw_len, &[0x7d]);
    let mut rec = Rec::default();
    assert_eq!(parse(&buf, &mut rec), Err(Error::UnknownEventSize));
}

#[test]
fn first_record_must_be_the_size_table() {
    let mut buf = Vec::new();
    buf.extend_from_slice(&RAW_HEADER);
    push_u32(&mut buf, 2);
    buf.push(0x39);
    buf.push(0x00);
    let mut rec = Rec::default();
    assert_eq!(parse(&buf, &mut rec), Err(Error::MalformedEnvelope));
}

#[test]
fn size_table_length_must_be_congruent() {
    // A table whose size byte is not 1 mod 3 cannot frame whole entries.
    let mut buf = Vec::new();
    buf.extend_from_slice(&RAW_HEADER);
    push_u32(&mut buf, 3);
    buf.extend_from_slice(&[0x35, 0x02, 0x00]);
    let mut rec = Rec::default();
    assert_eq!(parse(&buf, &mut rec), Err(Error::MalformedEnvelope));
}

#[test]
fn truncated_stream_fails() {
    let (records, raw_len) = minimal_records();
    let buf = container(&records, raw_len, &[0x7d]);
    let mut rec = Rec::default();
    assert_eq!(parse(&buf[..40], &mut rec), Err(Error::TruncatedInput));
}

#[test]
fn sink_failure_is_passed_through() {
    let (records, raw_len) = minimal_records();
    let buf = container(&records, raw_len, &[0x7d]);
    let mut rec = Rec {
        fail_on_pre: true,
        ..Rec::default()
    };
    assert_eq!(parse(&buf, &mut rec), Err(Error::SinkRejected));
    assert_eq!(rec.calls, vec!["start"]);
}

#[test]
fn game_end_event_carries_method_and_initiator() {
    // A two-byte game-end payload carries the optional initiator; 0xff is -1.
    let table = table_record(&[(0x39, 2)]);
    let table_len = table.len() as u32;
    let records = vec![table, vec![0x39, 0x02, 0xff]];
    let raw_len = table_len + 3;
    let buf = container(&records, raw_len, &[0x7d]);
    let mut rec = Rec::default();
    assert_eq!(parse(&buf, &mut rec), Ok(()));
    assert_eq!(rec.ends[0].method.0, 2);
    assert_eq!(rec.ends[0].v2_0.unwrap().lras_initiator, -1);
}

#[test]
fn frame_events_carry_their_ids() {
    let table = table_record(&[(0x37, 58), (0x39, 1)]);
    let table_len = table.len() as u32;
    let mut pre = pre_payload(58);
    // frame index -123, port 2, follower flag set
    pre[0] = 0xff;
    pre[1] = 0xff;
    pre[2] = 0xff;
    pre[3] = 0x85;
    pre[4] = 2;
    pre[5] = 1;
    let mut pre_rec = vec![0x37];
    pre_rec.extend_from_slice(&pre);
    let records = vec![table, pre_rec, vec![0x39, 0x00]];
    let raw_len = table_len + 59 + 2;
    let buf = container(&records, raw_len, &[0x7d]);
    let mut rec = Rec::default();
    assert_eq!(parse(&buf, &mut rec), Ok(()));
    let ev = &rec.pres[0];
    assert_eq!(ev.id.index, -123);
    assert_eq!(ev.id.port, 2);
    assert!(ev.id.is_follower);
    assert_eq!(ev.event.index, -123);
}
