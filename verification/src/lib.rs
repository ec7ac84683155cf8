//! Hue: a now-playing display for the Mac. This crate holds the wire
//! protocol between host and display (frames, payloads, the streaming parser,
//! sequence tracking, the artwork-stream receiver) and the decisions of both
//! ends around it, each function with a contract proved by Verus.
use vstd::prelude::*;

pub mod le;
pub mod wire;
pub mod hash;
pub mod hstr;
pub mod state;
pub mod payload;
pub mod delta;
pub mod frame;
pub mod parser;
pub mod builder;
pub mod seq;
pub mod artwork;
pub mod transport;
pub mod media;
pub mod bridge;
pub mod display;

pub use artwork::{ArtworkRx, ArtworkRxStatus};
pub use seq::{seq_distance, SeqStatus, SeqTracker};

verus! {

/// The result of a protocol operation.
pub type Result<T> = core::result::Result<T, wire::ProtocolError>;

} // verus!
