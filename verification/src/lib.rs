//! Streaming decoder for a length-prefixed binary replay format: a small
//! self-describing container wraps a raw event stream (match setup, per-frame
//! state snapshots, match end) followed by a metadata map encoded in a UBJSON
//! subset. Events are decoded one at a time and pushed to a caller-supplied
//! sink; the whole stream is never materialized.

use vstd::prelude::*;

pub mod action_state;
pub mod buttons;
pub mod codec;
pub mod frame;
pub mod game;
pub mod parse;
pub mod triggers;
pub mod ubjson;

verus! {

/// How a parse can fail. Every failure aborts the current parse: once a read
/// has been misinterpreted the stream position is unrecoverable.
#[derive(Clone, Copy, Debug, PartialEq, Eq, Structural)]
pub enum Error {
    /// Container prologue/epilogue mismatch, or invalid payload-size-table framing.
    MalformedEnvelope,
    /// An event code was not present in the negotiated payload-size table.
    UnknownEventSize,
    /// The declared raw length was nonzero but not exactly matched by the bytes consumed.
    ByteAccountingMismatch,
    /// The underlying byte source was exhausted mid-read.
    TruncatedInput,
    /// A decoded value was outside its legal domain (e.g. a zero-magnitude direction).
    InvalidDiscriminant,
    /// Text bytes were not valid under the expected encoding.
    InvalidText,
    /// A map key position held neither a key marker nor the closing marker.
    MalformedMetadata,
    /// A value marker outside the supported UBJSON subset.
    UnsupportedValueType,
    /// The sink rejected an otherwise valid event.
    SinkRejected,
}

} // verus!
