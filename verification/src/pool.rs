//! The fixed-size pool of reusable execution units.
//!
//! `WorkerPool` is the engine's account of the pool: how many units exist,
//! how many are busy, how many submissions wait, and whether the pool has
//! been torn down. The host mechanism that actually spawns units is an
//! injected capability outside this crate; every decision the pool makes —
//! whether a submission is accepted, started or queued — is taken here and
//! proved against the transition function `pool_step`.
//!
//! Teardown policy: in-flight and queued work is run to completion; tearing
//! down only refuses new submissions.

use vstd::prelude::*;

verus! {

/// Pool failures: creation with an invalid size, or submission to a pool
/// that has been torn down.
#[derive(Clone, Copy, PartialEq, Eq, Structural, Debug)]
pub enum PoolError {
    PoolCreationFailure,
    DispatchFailure,
}

/// The events a pool reacts to: a task is submitted, a unit finishes its
/// current task, the pool is torn down.
pub enum PoolEvent {
    Submit,
    FinishOne,
    Teardown,
}

/// The mathematical state of a pool.
pub struct PoolModel {
    /// The number of execution units, fixed at construction.
    pub size: nat,
    /// The number of units currently running a task.
    pub active: nat,
    /// The number of accepted submissions no unit has picked up yet.
    pub queued: nat,
    /// Whether the pool has been torn down.
    pub down: bool,
}

impl PoolModel {
    /// The pool invariant: at least one unit exists and no more units are
    /// busy than exist.
    pub open spec fn wf(self) -> bool {
        1 <= self.size && self.active <= self.size
    }
}

/// How one event changes the pool: a submission to a live pool starts on an
/// idle unit or queues; a finishing unit picks up queued work before going
/// idle; teardown marks the pool down and nothing else.
pub open spec fn pool_step(m: PoolModel, e: PoolEvent) -> PoolModel {
    match e {
        PoolEvent::Submit => if m.down {
            m
        } else if m.active < m.size {
            PoolModel { active: m.active + 1, ..m }
        } else {
            PoolModel { queued: m.queued + 1, ..m }
        },
        PoolEvent::FinishOne => if m.queued > 0 {
            PoolModel { queued: (m.queued - 1) as nat, ..m }
        } else if m.active > 0 {
            PoolModel { active: (m.active - 1) as nat, ..m }
        } else {
            m
        },
        PoolEvent::Teardown => PoolModel { down: true, ..m },
    }
}

/// The pool after a whole sequence of events, oldest first.
pub open spec fn pool_run(m: PoolModel, events: Seq<PoolEvent>) -> PoolModel
    decreases events.len(),
{
    if events.len() == 0 {
        m
    } else {
        pool_step(pool_run(m, events.drop_last()), events.last())
    }
}

/// Pool size stability: from any well-formed state, no sequence of
/// submissions, completions and teardowns ever changes the number of
/// execution units, and never makes more than that number concurrently
/// active.
pub proof fn lemma_pool_size_stability(m: PoolModel, events: Seq<PoolEvent>)
    requires
        m.wf(),
    ensures
        pool_run(m, events).wf(),
        pool_run(m, events).size == m.size,
    decreases events.len(),
{
    if events.len() > 0 {
        lemma_pool_size_stability(m, events.drop_last());
    }
}

/// A fixed collection of reusable execution units with a task queue.
pub struct WorkerPool {
    size: usize,
    active: usize,
    queued: usize,
    down: bool,
}

impl WorkerPool {
    /// The pool's mathematical state.
    pub closed spec fn model(self) -> PoolModel {
        PoolModel {
            size: self.size as nat,
            active: self.active as nat,
            queued: self.queued as nat,
            down: self.down,
        }
    }

    /// The pool invariant, on the model.
    pub open spec fn wf(self) -> bool {
        self.model().wf()
    }

    /// Creates a pool of exactly `size` reusable execution units. Fails
    /// with `PoolCreationFailure` exactly when `size` is zero; no partial
    /// pool is left behind.
    pub fn create(size: usize) -> (r: Result<WorkerPool, PoolError>)
        ensures
            size == 0 ==> r == Err::<WorkerPool, PoolError>(PoolError::PoolCreationFailure),
            size >= 1 ==> (r matches Ok(p) && p.model() == (PoolModel {
                size: size as nat,
                active: 0,
                queued: 0,
                down: false,
            })),
    {
        if size == 0 {
            Err(PoolError::PoolCreationFailure)
        } else {
            Ok(WorkerPool { size, active: 0, queued: 0, down: false })
        }
    }

    /// The number of execution units, as fixed at construction.
    pub fn size(&self) -> (r: usize)
        ensures
            r == self.model().size,
    {
        self.size
    }

    /// The number of units currently running a task.
    pub fn active_units(&self) -> (r: usize)
        ensures
            r == self.model().active,
    {
        self.active
    }

    /// The number of accepted submissions not yet picked up.
    pub fn queued_tasks(&self) -> (r: usize)
        ensures
            r == self.model().queued,
    {
        self.queued
    }

    /// Whether the pool has been torn down.
    pub fn is_down(&self) -> (r: bool)
        ensures
            r == self.model().down,
    {
        self.down
    }

    /// Hands one unit of work to the pool: started on an idle unit if one
    /// is free, queued otherwise, and refused with `DispatchFailure` exactly
    /// when the pool has been torn down. Returns immediately either way;
    /// the queue bound is a machine limit.
    pub fn submit(&mut self) -> (r: Result<(), PoolError>)
        requires
            old(self).wf(),
            old(self).model().queued < usize::MAX,
        ensures
            final(self).model() == pool_step(old(self).model(), PoolEvent::Submit),
            final(self).wf(),
            r is Ok <==> !old(self).model().down,
            old(self).model().down ==> r == Err::<(), PoolError>(PoolError::DispatchFailure),
    {
        if self.down {
            Err(PoolError::DispatchFailure)
        } else if self.active < self.size {
            self.active = self.active + 1;
            Ok(())
        } else {
            self.queued = self.queued + 1;
            Ok(())
        }
    }

    /// Records that a unit finished its current task: it picks up queued
    /// work if any waits, and goes idle otherwise.
    pub fn finish_one(&mut self)
        requires
            old(self).wf(),
        ensures
            final(self).model() == pool_step(old(self).model(), PoolEvent::FinishOne),
            final(self).wf(),
    {
        if self.queued > 0 {
            self.queued = self.queued - 1;
        } else if self.active > 0 {
            self.active = self.active - 1;
        }
    }

    /// Tears the pool down: no further submission is accepted. Work already
    /// accepted is run to completion, so busy units and queued tasks are
    /// left to drain.
    pub fn teardown(&mut self)
        requires
            old(self).wf(),
        ensures
            final(self).model() == pool_step(old(self).model(), PoolEvent::Teardown),
            final(self).wf(),
    {
        self.down = true;
    }
}

} // verus!
