//! A single-session WebRTC relay server library: signaling codec, single-slot
//! signaling handoff, handshake orchestration, per-track packet relay,
//! keep-alive feedback, and lifecycle/shutdown coordination.
pub mod codec;
pub mod json;
pub mod keepalive;
pub mod lifecycle;
pub mod orchestrator;
pub mod relay;
pub mod session;
pub mod signal;

use vstd::prelude::*;

verus! {

/// The closed set of media track kinds served by the relay.
#[derive(Clone, Copy, PartialEq, Eq, Structural, Debug)]
pub enum TrackKind {
    Audio,
    Video,
}

} // verus!
