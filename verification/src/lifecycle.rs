//! Lifecycle monitoring: connection state notifications drive a capacity-one
//! shutdown signal; the first transition into `Failed` fills it, duplicates
//! are absorbed, and teardown follows from the signal or an interrupt.
use vstd::prelude::*;

verus! {

/// Connection states as the transport engine reports them; externally
/// driven, with `Failed` reachable from any non-terminal state.
#[derive(Clone, Copy, PartialEq, Eq, Structural, Debug)]
pub enum ConnectionState {
    New,
    Connecting,
    Connected,
    Disconnected,
    Failed,
    Closed,
}

/// A capacity-one signal: a send into the occupied slot is a no-op.
pub struct ShutdownSignal {
    pub occupied: bool,
}

impl ShutdownSignal {
    /// The slot starts empty.
    pub fn new() -> (r: Self)
        ensures
            !r.occupied,
    {
        ShutdownSignal { occupied: false }
    }

    /// Best-effort, non-blocking send: succeeds exactly when the slot was
    /// empty, and the slot is occupied afterwards either way.
    pub fn try_send(&mut self) -> (sent: bool)
        ensures
            sent == !old(self).occupied,
            final(self).occupied,
    {
        let sent = !self.occupied;
        self.occupied = true;
        sent
    }

    /// Drains the slot, reporting whether a signal was pending.
    pub fn try_recv(&mut self) -> (r: bool)
        ensures
            r == old(self).occupied,
            !final(self).occupied,
    {
        let r = self.occupied;
        self.occupied = false;
        r
    }
}

/// Delivers one state-change notification: a transition into `Failed` sends
/// on the signal (a duplicate is silently absorbed), anything else changes
/// nothing.
pub fn on_state_change(sig: &mut ShutdownSignal, st: ConnectionState) -> (sent: bool)
    ensures
        st == ConnectionState::Failed ==> final(sig).occupied && sent == !old(sig).occupied,
        st != ConnectionState::Failed ==> *final(sig) == *old(sig) && !sent,
{
    match st {
        ConnectionState::Failed => sig.try_send(),
        _ => false,
    }
}

/// How many sends succeed over a run of notifications starting from a slot
/// in the given state.
pub open spec fn sends_of(occupied: bool, states: Seq<ConnectionState>) -> nat
    decreases states.len(),
{
    if states.len() == 0 {
        0
    } else {
        let failed = states[0] == ConnectionState::Failed;
        (if failed && !occupied {
            1nat
        } else {
            0nat
        }) + sends_of(occupied || failed, states.drop_first())
    }
}

/// Whether any notification in the run reports `Failed`.
pub open spec fn contains_failed(states: Seq<ConnectionState>) -> bool
    decreases states.len(),
{
    if states.len() == 0 {
        false
    } else {
        states[0] == ConnectionState::Failed || contains_failed(states.drop_first())
    }
}

/// An occupied slot absorbs every further send.
pub proof fn lemma_occupied_absorbs(states: Seq<ConnectionState>)
    ensures
        sends_of(true, states) == 0,
    decreases states.len(),
{
    if states.len() > 0 {
        lemma_occupied_absorbs(states.drop_first());
    }
}

/// A transition into `Failed` reported once or more produces exactly one
/// shutdown signal; a run without one produces none.
pub proof fn lemma_single_shutdown(states: Seq<ConnectionState>)
    ensures
        sends_of(false, states) == if contains_failed(states) {
            1nat
        } else {
            0nat
        },
    decreases states.len(),
{
    if states.len() > 0 {
        if states[0] == ConnectionState::Failed {
            lemma_occupied_absorbs(states.drop_first());
        } else {
            lemma_single_shutdown(states.drop_first());
        }
    }
}

} // verus!
