//! Per-track packet relay: each inbound track gets one pump that forwards
//! every packet, unmodified and in order, to the outbound track of the same
//! kind, with at most one packet in flight.
//!
//! The pump keeps ghost logs of what it has read and what has been confirmed
//! written; well-formedness (`wf`) says the written packets are exactly a
//! prefix of the read packets, which is the order-preservation guarantee. A
//! failed write or the end of the inbound stream stops this pump alone.
use vstd::prelude::*;

use crate::TrackKind;

verus! {

/// What the runner reports to a pump.
pub enum RelayEvent {
    /// The inbound track yielded a packet.
    Packet(Vec<u8>),
    /// The inbound stream ended: the peer closed the track.
    ReadEnded,
    /// The outbound write of the packet in flight succeeded.
    WriteOk,
    /// The outbound write failed.
    WriteFailed,
}

/// What the runner must do next.
pub enum RelayAction {
    /// Write this packet to the matching outbound track.
    Forward(Vec<u8>),
    /// This pump is finished; sibling pumps are unaffected.
    Stop,
    /// Nothing to do.
    Idle,
}

/// One relay pump, keyed by its track kind.
pub struct RelayPump {
    pub kind: TrackKind,
    pub running: bool,
    /// The packet handed to the writer and not yet confirmed.
    pub pending: Ghost<Option<Seq<u8>>>,
    /// Every packet read from the inbound track, in order.
    pub read_log: Ghost<Seq<Seq<u8>>>,
    /// Every packet confirmed written to the outbound track, in order.
    pub write_log: Ghost<Seq<Seq<u8>>>,
}

impl RelayPump {
    /// The packets written are exactly a prefix of the packets read: order
    /// is preserved and nothing is reordered, duplicated or altered.
    pub open spec fn wf(self) -> bool {
        &&& self.write_log@.len() <= self.read_log@.len()
        &&& self.write_log@ == self.read_log@.take(self.write_log@.len() as int)
        &&& (self.pending@ matches Some(p) ==> self.read_log@ == self.write_log@ + seq![p])
        &&& (self.pending@ is None && self.running ==> self.read_log@ == self.write_log@)
    }

    /// A fresh pump for one inbound track.
    pub fn new(kind: TrackKind) -> (r: Self)
        ensures
            r.kind == kind,
            r.running,
            r.pending@ is None,
            r.read_log@ == Seq::<Seq<u8>>::empty(),
            r.write_log@ == Seq::<Seq<u8>>::empty(),
            r.wf(),
    {
        let r = RelayPump {
            kind,
            running: true,
            pending: Ghost(None),
            read_log: Ghost(Seq::empty()),
            write_log: Ghost(Seq::empty()),
        };
        proof {
            assert(r.write_log@ =~= r.read_log@.take(0));
        }
        r
    }

    /// Feeds one event to the pump. A packet read while running is forwarded
    /// unchanged; a write failure or the end of the stream stops the pump.
    pub fn on_event(&mut self, ev: RelayEvent) -> (a: RelayAction)
        requires
            old(self).wf(),
            ev matches RelayEvent::Packet(p) ==> old(self).pending@ is None,
        ensures
            final(self).wf(),
            final(self).kind == old(self).kind,
            !old(self).running ==> a is Stop && *final(self) == *old(self),
            old(self).running ==> (ev matches RelayEvent::Packet(p) ==> {
                &&& (a matches RelayAction::Forward(q) && q@ == p@)
                &&& final(self).read_log@ == old(self).read_log@ + seq![p@]
                &&& final(self).write_log@ == old(self).write_log@
                &&& final(self).pending@ == Some(p@)
                &&& final(self).running
            }),
            (old(self).running && ev matches RelayEvent::WriteOk) ==> (old(
                self,
            ).pending@ matches Some(q) ==> {
                &&& a is Idle
                &&& final(self).write_log@ == old(self).write_log@ + seq![q]
                &&& final(self).read_log@ == old(self).read_log@
                &&& final(self).pending@ is None
                &&& final(self).running
            }),
            (old(self).running && (ev matches RelayEvent::WriteOk) && old(self).pending@ is None)
                ==> a is Idle && *final(self) == *old(self),
            (old(self).running && ev matches RelayEvent::WriteFailed) ==> {
                &&& a is Stop
                &&& !final(self).running
                &&& final(self).write_log@ == old(self).write_log@
                &&& final(self).read_log@ == old(self).read_log@
            },
            (old(self).running && ev matches RelayEvent::ReadEnded) ==> {
                &&& a is Stop
                &&& !final(self).running
                &&& final(self).write_log@ == old(self).write_log@
                &&& final(self).read_log@ == old(self).read_log@
            },
    {
        if !self.running {
            return RelayAction::Stop;
        }
        match ev {
            RelayEvent::Packet(p) => {
                proof {
                    self.read_log@ = self.read_log@ + seq![p@];
                    self.pending@ = Some(p@);
                    assert(self.write_log@ =~= self.read_log@.take(
                        self.write_log@.len() as int,
                    ));
                }
                RelayAction::Forward(p)
            },
            RelayEvent::WriteOk => {
                proof {
                    match self.pending@ {
                        Some(q) => {
                            self.write_log@ = self.write_log@ + seq![q];
                            self.pending@ = None;
                            assert(self.write_log@ =~= self.read_log@.take(
                                self.write_log@.len() as int,
                            ));
                        },
                        None => {},
                    }
                }
                RelayAction::Idle
            },
            RelayEvent::WriteFailed => {
                self.running = false;
                proof {
                    self.pending@ = None;
                }
                RelayAction::Stop
            },
            RelayEvent::ReadEnded => {
                self.running = false;
                proof {
                    self.pending@ = None;
                }
                RelayAction::Stop
            },
        }
    }
}

/// For a pump with no write outstanding, what was written equals, in order,
/// what was read.
pub proof fn lemma_relay_order(p: RelayPump)
    requires
        p.wf(),
        p.running,
        p.pending@ is None,
    ensures
        p.write_log@ == p.read_log@,
{
}

/// Whatever happened to the pump, the written packets are the read packets'
/// prefix, in order.
pub proof fn lemma_relay_prefix(p: RelayPump)
    requires
        p.wf(),
    ensures
        p.write_log@ == p.read_log@.take(p.write_log@.len() as int),
{
}

/// Which outbound tracks exist, one per kind at most; the tracks themselves
/// live with the transport engine and are referred to by index.
pub struct OutboundTracks {
    pub audio: Option<usize>,
    pub video: Option<usize>,
}

/// Looks up the outbound track matching an inbound track's kind; if none
/// exists, the pump never starts.
pub fn lookup_outbound(t: &OutboundTracks, kind: TrackKind) -> (r: Option<usize>)
    ensures
        kind == TrackKind::Audio ==> r == t.audio,
        kind == TrackKind::Video ==> r == t.video,
{
    match kind {
        TrackKind::Audio => t.audio,
        TrackKind::Video => t.video,
    }
}

} // verus!
