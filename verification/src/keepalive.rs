//! Keep-alive loss feedback: video tracks only, one control packet per tick
//! while the connection handle still resolves, silence forever afterwards.
use vstd::prelude::*;

use crate::TrackKind;

verus! {

/// Seconds between keep-alive ticks.
pub const KEEPALIVE_INTERVAL_SECS: u64 = 3;

/// A loss-feedback control packet targeting one media stream by its
/// synchronization-source identifier; the server sends with sender zero.
#[derive(Clone, Copy, PartialEq, Eq, Structural, Debug)]
pub struct FeedbackPacket {
    pub sender_ssrc: u32,
    pub media_ssrc: u32,
}

/// The per-track keep-alive loop state. Only a video track ever becomes
/// active; once inactive it stays inactive.
pub struct KeepAlive {
    pub kind: TrackKind,
    pub ssrc: u32,
    pub active: bool,
}

impl KeepAlive {
    /// Feedback applies only to video tracks: an audio track's loop starts
    /// inactive and therefore never emits anything.
    pub fn new(kind: TrackKind, ssrc: u32) -> (r: Self)
        ensures
            r.kind == kind,
            r.ssrc == ssrc,
            r.active == (kind == TrackKind::Video),
    {
        let active = match kind {
            TrackKind::Video => true,
            TrackKind::Audio => false,
        };
        KeepAlive { kind, ssrc, active }
    }

    /// One tick: exactly one packet is emitted if and only if the loop is
    /// still active and the connection handle resolved; a handle that no
    /// longer resolves silences the loop from this tick on.
    pub fn tick(&mut self, connection_live: bool) -> (r: Option<FeedbackPacket>)
        ensures
            final(self).kind == old(self).kind,
            final(self).ssrc == old(self).ssrc,
            r is Some <==> old(self).active && connection_live,
            r matches Some(pkt) ==> pkt.media_ssrc == old(self).ssrc && pkt.sender_ssrc == 0,
            final(self).active == (old(self).active && connection_live),
    {
        if self.active && connection_live {
            Some(FeedbackPacket { sender_ssrc: 0, media_ssrc: self.ssrc })
        } else {
            self.active = false;
            None
        }
    }

    /// A failed send stops this track's loop alone; the session goes on.
    pub fn on_send_result(&mut self, ok: bool) -> (r: ())
        ensures
            final(self).kind == old(self).kind,
            final(self).ssrc == old(self).ssrc,
            final(self).active == (old(self).active && ok),
    {
        if !ok {
            self.active = false;
        }
    }
}

/// How many packets a loop emits over a run of ticks, given whether the
/// connection resolved at each tick.
pub open spec fn feedback_count(active: bool, lives: Seq<bool>) -> nat
    decreases lives.len(),
{
    if lives.len() == 0 {
        0
    } else {
        (if active && lives[0] {
            1nat
        } else {
            0nat
        }) + feedback_count(active && lives[0], lives.drop_first())
    }
}

/// The number of leading ticks at which the connection still resolved.
pub open spec fn live_prefix(lives: Seq<bool>) -> nat
    decreases lives.len(),
{
    if lives.len() == 0 {
        0
    } else if lives[0] {
        1 + live_prefix(lives.drop_first())
    } else {
        0
    }
}

/// An inactive loop never emits a packet; in particular an audio-only track
/// never gets loss feedback.
pub proof fn lemma_inactive_silent(lives: Seq<bool>)
    ensures
        feedback_count(false, lives) == 0,
    decreases lives.len(),
{
    if lives.len() > 0 {
        lemma_inactive_silent(lives.drop_first());
    }
}

/// A live video loop emits exactly one packet per tick, and emission ceases
/// at the first tick whose handle no longer resolves.
pub proof fn lemma_video_one_per_tick(lives: Seq<bool>)
    ensures
        feedback_count(true, lives) == live_prefix(lives),
    decreases lives.len(),
{
    if lives.len() > 0 {
        if lives[0] {
            lemma_video_one_per_tick(lives.drop_first());
        } else {
            lemma_inactive_silent(lives.drop_first());
        }
    }
}

} // verus!
