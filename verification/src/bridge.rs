//! The one-shot completion bridge and the caller's result handle.
//!
//! `CompletionSignal` is the single shared point of the engine: a one-shot
//! cell that carries the final tally (or a failure) from whichever
//! execution context computed it back to the initiating context. It is
//! single-writer and single-reader by construction, so no general-purpose
//! mutual exclusion is modelled, only the atomic one-shot handoff: every
//! transition is fixed by `signal_step`, and once the cell leaves `Empty`
//! it never changes again.

use vstd::prelude::*;
use crate::counts::CharCounts;

verus! {

/// Bridge failures: a second send on the one-shot cell, or a producer that
/// was dropped without ever sending.
#[derive(Clone, Copy, PartialEq, Eq, Structural, Debug)]
pub enum BridgeError {
    AlreadySent,
    BridgeCancelled,
}

/// The one-shot cell: empty until the producer either sends the final
/// tally or is dropped, and frozen from then on.
pub enum CompletionSignal {
    Empty,
    Fulfilled(CharCounts),
    Cancelled,
}

/// The events a signal reacts to: the producer sends a value, or the
/// producer is dropped without sending.
pub enum SignalEvent {
    Send(CharCounts),
    DropProducer,
}

/// How one event changes the cell: only an empty cell moves, to
/// `Fulfilled` on a send and to `Cancelled` on a dropped producer; a
/// fulfilled or cancelled cell is frozen.
pub open spec fn signal_step(s: CompletionSignal, e: SignalEvent) -> CompletionSignal {
    match e {
        SignalEvent::Send(v) => if s is Empty {
            CompletionSignal::Fulfilled(v)
        } else {
            s
        },
        SignalEvent::DropProducer => if s is Empty {
            CompletionSignal::Cancelled
        } else {
            s
        },
    }
}

/// The cell after a whole sequence of events, oldest first.
pub open spec fn signal_run(s: CompletionSignal, events: Seq<SignalEvent>) -> CompletionSignal
    decreases events.len(),
{
    if events.len() == 0 {
        s
    } else {
        signal_step(signal_run(s, events.drop_last()), events.last())
    }
}

/// Exactly-once delivery: once the cell has resolved — fulfilled or
/// cancelled — no sequence of further sends or drops changes it, so its
/// one receiver observes one outcome, forever.
pub proof fn lemma_exactly_once_delivery(s: CompletionSignal, events: Seq<SignalEvent>)
    requires
        !(s is Empty),
    ensures
        signal_run(s, events) == s,
    decreases events.len(),
{
    if events.len() > 0 {
        lemma_exactly_once_delivery(s, events.drop_last());
    }
}

impl CompletionSignal {
    /// A fresh, empty one-shot cell.
    pub fn new() -> (s: CompletionSignal)
        ensures
            s is Empty,
    {
        CompletionSignal::Empty
    }

    /// The producer's single send. It fulfils an empty cell and succeeds;
    /// on a cell that has already resolved it changes nothing and fails
    /// with `AlreadySent`.
    pub fn send(&mut self, value: CharCounts) -> (r: Result<(), BridgeError>)
        ensures
            *final(self) == signal_step(*old(self), SignalEvent::Send(value)),
            r is Ok <==> *old(self) is Empty,
            !(*old(self) is Empty) ==> r == Err::<(), BridgeError>(BridgeError::AlreadySent),
    {
        match self {
            CompletionSignal::Empty => {
                *self = CompletionSignal::Fulfilled(value);
                Ok(())
            },
            _ => Err(BridgeError::AlreadySent),
        }
    }

    /// The producer was dropped without sending: an empty cell resolves to
    /// `Cancelled` so the receiver never hangs; a resolved cell is
    /// unchanged.
    pub fn drop_producer(&mut self)
        ensures
            *final(self) == signal_step(*old(self), SignalEvent::DropProducer),
    {
        match self {
            CompletionSignal::Empty => {
                *self = CompletionSignal::Cancelled;
            },
            _ => {},
        }
    }
}

/// What one observation of a handle reports.
pub enum Observation {
    /// The bridge has not fired yet; the caller's context is free to run
    /// other work.
    Pending,
    /// The bridge fired with the final tally.
    Delivered(CharCounts),
    /// The producer was dropped without sending.
    Cancelled,
}

/// The object the caller holds: the consumer endpoint of one
/// `CompletionSignal`, observable without blocking and owned by exactly
/// one awaiting party.
pub struct ResultHandle {
    signal: CompletionSignal,
}

/// Everything `observe` promises of one observation `r` of a handle whose
/// cell is `s`: the outcome mirrors the cell's state, and a delivered
/// tally records exactly the counts the cell holds.
pub open spec fn observe_post(s: CompletionSignal, r: Observation) -> bool {
    &&& (r is Pending <==> s is Empty)
    &&& (r is Cancelled <==> s is Cancelled)
    &&& (r is Delivered <==> s is Fulfilled)
    &&& (s matches CompletionSignal::Fulfilled(v) ==> (r matches Observation::Delivered(c)
        && c.wf() == v.wf() && c.spec_len() == v.spec_len() && forall|key: char|
        c.count(key) == v.count(key)))
}

/// The count a single observation reports under `key`: the delivered
/// tally's count, or zero while nothing was delivered.
pub open spec fn observed_count(r: Observation, key: char) -> nat {
    match r {
        Observation::Delivered(c) => c.count(key),
        _ => 0,
    }
}

/// Idempotent observation: two observations of one handle report the same
/// outcome, and the same count under every key — the outcome is cached by
/// the cell, not recomputed.
pub proof fn lemma_idempotent_observation(
    s: CompletionSignal,
    r1: Observation,
    r2: Observation,
)
    requires
        observe_post(s, r1),
        observe_post(s, r2),
    ensures
        r1 is Pending <==> r2 is Pending,
        r1 is Cancelled <==> r2 is Cancelled,
        r1 is Delivered <==> r2 is Delivered,
        forall|key: char| observed_count(r1, key) == observed_count(r2, key),
{
}

impl ResultHandle {
    /// The state of the handle's cell.
    pub closed spec fn spec_signal(self) -> CompletionSignal {
        self.signal
    }

    /// Whether the handle is still pending.
    pub open spec fn is_pending(self) -> bool {
        self.spec_signal() is Empty
    }

    /// A fresh handle over an empty cell: pending until the producer side
    /// fires.
    pub fn new() -> (h: ResultHandle)
        ensures
            h.is_pending(),
    {
        ResultHandle { signal: CompletionSignal::new() }
    }

    /// The producer side fires the bridge with the final tally. Succeeds
    /// exactly once; a handle that has already resolved is unchanged and
    /// the send fails with `AlreadySent`.
    pub fn deliver(&mut self, value: CharCounts) -> (r: Result<(), BridgeError>)
        ensures
            final(self).spec_signal() == signal_step(
                old(self).spec_signal(),
                SignalEvent::Send(value),
            ),
            r is Ok <==> old(self).is_pending(),
            !old(self).is_pending() ==> r == Err::<(), BridgeError>(BridgeError::AlreadySent),
    {
        self.signal.send(value)
    }

    /// The producer side was dropped without sending: a pending handle
    /// resolves to `Cancelled`; a resolved one is unchanged.
    pub fn producer_dropped(&mut self)
        ensures
            final(self).spec_signal() == signal_step(
                old(self).spec_signal(),
                SignalEvent::DropProducer,
            ),
    {
        self.signal.drop_producer()
    }

    /// One non-blocking observation: reports the cell's outcome without
    /// waiting and without changing the handle, so a pending result leaves
    /// the caller's context free and a resolved one reads the same cached
    /// outcome every time.
    pub fn observe(&self) -> (r: Observation)
        ensures
            observe_post(self.spec_signal(), r),
    {
        match &self.signal {
            CompletionSignal::Empty => Observation::Pending,
            CompletionSignal::Fulfilled(v) => Observation::Delivered(v.clone()),
            CompletionSignal::Cancelled => Observation::Cancelled,
        }
    }
}

} // verus!
