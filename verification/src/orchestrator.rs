//! The one-shot handshake orchestrator: accept the offer, apply it, create
//! the answer, wait for candidate gathering, publish the encoded answer.
//!
//! The orchestrator is a strictly sequential state machine; the transport
//! engine's asynchronous work happens outside and comes back as events. Any
//! failure after the offer arrives is fatal to the handshake (`Abort`), and a
//! terminal phase absorbs every further event: the handshake runs at most
//! once per process.
use vstd::prelude::*;

use crate::codec::b64_of;
use crate::json::json_of;
use crate::session::SessionDescription;
use crate::signal::encode_answer;

verus! {

/// The phases of the handshake, in the order they are entered.
#[derive(Clone, Copy, PartialEq, Eq, Structural, Debug)]
pub enum Phase {
    WaitingForOffer,
    ApplyingOffer,
    CreatingAnswer,
    Gathering,
    Publishing,
    Done,
    Failed,
}

/// What the signaling layer or the transport engine reports.
pub enum OrchEvent {
    /// The handoff delivered the peer's offer.
    OfferReceived(SessionDescription),
    /// Whether applying the remote description succeeded.
    RemoteApplied(bool),
    /// Whether creating and installing the local answer succeeded.
    AnswerCreated(bool),
    /// Candidate gathering finished.
    GatheringComplete,
    /// The local description read back after gathering, if any.
    LocalDescription(Option<SessionDescription>),
}

/// What the runner must do next.
pub enum OrchAction {
    /// Apply this offer as the remote description.
    ApplyRemote(SessionDescription),
    /// Create the local answer and install it.
    CreateAnswer,
    /// Wait for the gathering-complete notification.
    AwaitGathering,
    /// Read back the local description.
    ReadLocalDescription,
    /// Push this encoded answer into the answer slot.
    PublishAnswer(Vec<u8>),
    /// The handshake failed; tear the process down.
    Abort,
    /// The event does not belong to the current phase; do nothing.
    Ignore,
}

/// The phase transition relation.
pub open spec fn next_phase(p: Phase, ev: OrchEvent) -> Phase {
    match p {
        Phase::WaitingForOffer => match ev {
            OrchEvent::OfferReceived(_) => Phase::ApplyingOffer,
            _ => p,
        },
        Phase::ApplyingOffer => match ev {
            OrchEvent::RemoteApplied(ok) => if ok {
                Phase::CreatingAnswer
            } else {
                Phase::Failed
            },
            _ => p,
        },
        Phase::CreatingAnswer => match ev {
            OrchEvent::AnswerCreated(ok) => if ok {
                Phase::Gathering
            } else {
                Phase::Failed
            },
            _ => p,
        },
        Phase::Gathering => match ev {
            OrchEvent::GatheringComplete => Phase::Publishing,
            _ => p,
        },
        Phase::Publishing => match ev {
            OrchEvent::LocalDescription(od) => match od {
                Some(_) => Phase::Done,
                None => Phase::Failed,
            },
            _ => p,
        },
        Phase::Done => p,
        Phase::Failed => p,
    }
}

/// Whether the event is the one the phase is waiting for.
pub open spec fn event_expected(p: Phase, ev: OrchEvent) -> bool {
    match p {
        Phase::WaitingForOffer => ev matches OrchEvent::OfferReceived(_),
        Phase::ApplyingOffer => ev matches OrchEvent::RemoteApplied(_),
        Phase::CreatingAnswer => ev matches OrchEvent::AnswerCreated(_),
        Phase::Gathering => ev matches OrchEvent::GatheringComplete,
        Phase::Publishing => ev matches OrchEvent::LocalDescription(_),
        Phase::Done => false,
        Phase::Failed => false,
    }
}

/// How far along the handshake a phase is; terminal phases rank highest.
pub open spec fn phase_rank(p: Phase) -> nat {
    match p {
        Phase::WaitingForOffer => 0,
        Phase::ApplyingOffer => 1,
        Phase::CreatingAnswer => 2,
        Phase::Gathering => 3,
        Phase::Publishing => 4,
        Phase::Done => 5,
        Phase::Failed => 5,
    }
}

/// The handshake never moves backwards.
pub proof fn lemma_phase_monotone(p: Phase, ev: OrchEvent)
    ensures
        phase_rank(next_phase(p, ev)) >= phase_rank(p),
{
}

/// A terminal phase absorbs every event: the handshake runs at most once.
pub proof fn lemma_terminal_absorbs(p: Phase, ev: OrchEvent)
    requires
        p == Phase::Done || p == Phase::Failed,
    ensures
        next_phase(p, ev) == p,
{
}

/// The orchestrator's state is its phase; descriptions flow through events
/// and actions, never stored.
pub struct Orchestrator {
    pub phase: Phase,
}

impl Orchestrator {
    /// A fresh orchestrator waits for the offer.
    pub fn new() -> (r: Self)
        ensures
            r.phase == Phase::WaitingForOffer,
    {
        Orchestrator { phase: Phase::WaitingForOffer }
    }

    /// Advances the handshake by one event and says what to do next.
    pub fn step(&mut self, ev: OrchEvent) -> (a: OrchAction)
        ensures
            final(self).phase == next_phase(old(self).phase, ev),
            !event_expected(old(self).phase, ev) ==> a is Ignore,
            old(self).phase == Phase::WaitingForOffer ==> (ev matches OrchEvent::OfferReceived(
                d,
            ) ==> (a matches OrchAction::ApplyRemote(x) && x@ == d@)),
            (old(self).phase == Phase::ApplyingOffer && ev == OrchEvent::RemoteApplied(true))
                ==> a is CreateAnswer,
            (old(self).phase == Phase::ApplyingOffer && ev == OrchEvent::RemoteApplied(false))
                ==> a is Abort,
            (old(self).phase == Phase::CreatingAnswer && ev == OrchEvent::AnswerCreated(true))
                ==> a is AwaitGathering,
            (old(self).phase == Phase::CreatingAnswer && ev == OrchEvent::AnswerCreated(false))
                ==> a is Abort,
            (old(self).phase == Phase::Gathering && ev == OrchEvent::GatheringComplete)
                ==> a is ReadLocalDescription,
            old(self).phase == Phase::Publishing ==> (ev matches OrchEvent::LocalDescription(
                Some(d),
            ) ==> (a matches OrchAction::PublishAnswer(v) && v@ == b64_of(json_of(d@)))),
            (old(self).phase == Phase::Publishing && ev matches OrchEvent::LocalDescription(None))
                ==> a is Abort,
    {
        match self.phase {
            Phase::WaitingForOffer => match ev {
                OrchEvent::OfferReceived(d) => {
                    self.phase = Phase::ApplyingOffer;
                    OrchAction::ApplyRemote(d)
                },
                _ => OrchAction::Ignore,
            },
            Phase::ApplyingOffer => match ev {
                OrchEvent::RemoteApplied(ok) => if ok {
                    self.phase = Phase::CreatingAnswer;
                    OrchAction::CreateAnswer
                } else {
                    self.phase = Phase::Failed;
                    OrchAction::Abort
                },
                _ => OrchAction::Ignore,
            },
            Phase::CreatingAnswer => match ev {
                OrchEvent::AnswerCreated(ok) => if ok {
                    self.phase = Phase::Gathering;
                    OrchAction::AwaitGathering
                } else {
                    self.phase = Phase::Failed;
                    OrchAction::Abort
                },
                _ => OrchAction::Ignore,
            },
            Phase::Gathering => match ev {
                OrchEvent::GatheringComplete => {
                    self.phase = Phase::Publishing;
                    OrchAction::ReadLocalDescription
                },
                _ => OrchAction::Ignore,
            },
            Phase::Publishing => match ev {
                OrchEvent::LocalDescription(od) => match od {
                    Some(d) => {
                        self.phase = Phase::Done;
                        OrchAction::PublishAnswer(encode_answer(&d))
                    },
                    None => {
                        self.phase = Phase::Failed;
                        OrchAction::Abort
                    },
                },
                _ => OrchAction::Ignore,
            },
            Phase::Done => OrchAction::Ignore,
            Phase::Failed => OrchAction::Ignore,
        }
    }
}

} // verus!
