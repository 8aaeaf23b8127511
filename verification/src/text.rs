//! The engine's entry points: the text payload, frequency counting, and
//! the non-blocking `process` operation.
//!
//! `process` takes every decision of a submission — whether the pool
//! accepts it, how the text is cut, how many map tasks are dispatched —
//! and hands back a pending `ResultHandle` together with the `Job` the
//! execution substrate must drive. The caller's thread of control never
//! waits: the handle resolves later, through the one-shot bridge, and
//! `run_job` is the verified driver that takes a job to its final tally.

use vstd::prelude::*;
use vstd::seq_lib::lemma_flatten_concat;
use crate::bridge::ResultHandle;
use crate::chars::{char_count, chars_of};
use crate::chars::{lemma_char_count_concat, lemma_char_count_le_len};
use crate::counts::CharCounts;
use crate::pool::{PoolError, WorkerPool};
use crate::reducer::{map_chunk, merge, reduce};
use crate::splitter::{chunks_view, effective_concurrency, split, Chunk};

verus! {

/// The characters each line of a list of lines holds.
pub open spec fn lines_view(lines: Seq<String>) -> Seq<Seq<char>> {
    lines.map_values(|s: String| s@)
}

/// The frequency of each alphabetic character of `input`, case-folded to
/// lowercase.
pub fn frequency_in_string(input: String) -> (r: CharCounts)
    ensures
        r.wf(),
        forall|key: char| r.count(key) == char_count(input@, key),
{
    let cs = chars_of(input.as_str());
    map_chunk(&cs)
}

/// The frequency of each alphabetic character over all of `input`'s lines
/// in order, case-folded to lowercase, computed in one pass on the calling
/// thread. The bound on the total length is a machine limit.
pub fn frequency_single_threaded(input: &Vec<String>) -> (r: CharCounts)
    requires
        lines_view(input@).flatten().len() <= usize::MAX,
    ensures
        r.wf(),
        forall|key: char| r.count(key) == char_count(lines_view(input@).flatten(), key),
{
    let n = input.len();
    let mut acc = CharCounts::new();
    let mut i: usize = 0;
    proof {
        assert(lines_view(input@).take(0).flatten() =~= Seq::<char>::empty());
    }
    while i < n
        invariant
            n == input@.len(),
            i <= n,
            acc.wf(),
            lines_view(input@).flatten().len() <= usize::MAX,
            forall|key: char| #[trigger] acc.count(key) == char_count(
                lines_view(input@).take(i as int).flatten(),
                key,
            ),
        decreases n - i,
    {
        let cs = chars_of(input[i].as_str());
        let m = map_chunk(&cs);
        proof {
            let lv = lines_view(input@);
            let i_ = i as int;
            assert(lv.take(i_ + 1) =~= lv.take(i_).push(lv[i_]));
            lv.take(i_).lemma_flatten_push(lv[i_]);
            assert(lv =~= lv.take(i_ + 1) + lv.skip(i_ + 1));
            lemma_flatten_concat(lv.take(i_ + 1), lv.skip(i_ + 1));
            assert(cs@ =~= lv[i_]);
            assert forall|key: char| acc.count(key) + m.count(key) <= usize::MAX by {
                lemma_char_count_concat(lv.take(i_).flatten(), lv[i_], key);
                lemma_char_count_le_len(lv.take(i_ + 1).flatten(), key);
            }
        }
        merge(&mut acc, &m);
        proof {
            let lv = lines_view(input@);
            let i_ = i as int;
            assert forall|key: char| #[trigger] acc.count(key) == char_count(
                lv.take(i_ + 1).flatten(),
                key,
            ) by {
                lemma_char_count_concat(lv.take(i_).flatten(), lv[i_], key);
            }
        }
        i += 1;
    }
    proof {
        assert(lines_view(input@).take(n as int) =~= lines_view(input@));
    }
    acc
}

/// The chunk-map work one submission dispatches: the chunks still to be
/// mapped, in input order.
pub struct Job {
    chunks: Vec<Chunk>,
}

impl Job {
    /// The chunks as sequences of characters.
    pub closed spec fn chunks_seq(self) -> Seq<Seq<char>> {
        chunks_view(self.chunks@)
    }

    /// The characters the job covers: the ordered concatenation of its
    /// chunks.
    pub open spec fn input(self) -> Seq<char> {
        self.chunks_seq().flatten()
    }

    /// The number of map tasks the job dispatches.
    pub open spec fn chunk_count(self) -> nat {
        self.chunks_seq().len()
    }

    /// Well-formedness: the covered text fits the machine.
    pub open spec fn wf(self) -> bool {
        self.input().len() <= usize::MAX
    }

    /// The number of map tasks, for the driver of the execution substrate.
    pub fn count_chunks(&self) -> (r: usize)
        ensures
            r == self.chunk_count(),
    {
        self.chunks.len()
    }

    /// Surrenders the chunks to the execution substrate, which maps each
    /// one independently.
    pub fn into_chunks(self) -> (r: Vec<Chunk>)
        ensures
            chunks_view(r@) == self.chunks_seq(),
    {
        self.chunks
    }
}

/// Runs a job to completion on the current context: maps every chunk,
/// reduces the partial tallies, and fires the bridge. The handle resolves
/// to the tally of exactly the job's input, delivered once.
pub fn run_job(job: Job, handle: &mut ResultHandle)
    requires
        job.wf(),
        old(handle).is_pending(),
    ensures
        !final(handle).is_pending(),
        final(handle).spec_signal() matches crate::bridge::CompletionSignal::Fulfilled(v)
            && v.wf() && forall|key: char| v.count(key) == char_count(job.input(), key),
{
    let chunks = job.into_chunks();
    let tally = reduce(&chunks);
    let _ = handle.deliver(tally);
}

/// The text payload handed to the engine.
pub struct Text {
    inner: String,
}

impl Text {
    /// The characters the payload holds.
    pub closed spec fn contents(self) -> Seq<char> {
        self.inner@
    }

    /// Wraps a text payload.
    pub fn new(inner: String) -> (t: Self)
        ensures
            t.contents() == inner@,
    {
        Self { inner }
    }

    /// Issues the payload for parallel aggregation and returns without
    /// waiting: the pool (unless torn down) accepts one map task per
    /// chunk, and the caller receives the job for the execution substrate
    /// together with a still-pending handle that resolves only when the
    /// bridge fires. The queue headroom is a machine limit.
    pub fn process(self, concurrency: usize, pool: &mut WorkerPool) -> (r: Result<
        (Job, ResultHandle),
        PoolError,
    >)
        requires
            old(pool).wf(),
            old(pool).model().queued + effective_concurrency(concurrency) <= usize::MAX,
        ensures
            old(pool).model().down ==> r == Err::<(Job, ResultHandle), PoolError>(
                PoolError::DispatchFailure,
            ) && *final(pool) == *old(pool),
            !old(pool).model().down ==> (r matches Ok(p) && {
                &&& p.1.is_pending()
                &&& p.0.wf()
                &&& p.0.input() == self.contents()
                &&& 1 <= p.0.chunk_count() <= effective_concurrency(concurrency)
                &&& final(pool).wf()
                &&& final(pool).model().size == old(pool).model().size
                &&& final(pool).model().down == false
                &&& final(pool).model().active + final(pool).model().queued == old(
                    pool,
                ).model().active + old(pool).model().queued + p.0.chunk_count()
            }),
    {
        if pool.is_down() {
            return Err(PoolError::DispatchFailure);
        }
        let cs = chars_of(self.inner.as_str());
        let chunks = split(&cs, concurrency);
        let k = chunks.len();
        let mut j: usize = 0;
        while j < k
            invariant
                j <= k,
                k <= effective_concurrency(concurrency),
                pool.wf(),
                pool.model().down == false,
                pool.model().size == old(pool).model().size,
                pool.model().queued <= old(pool).model().queued + j,
                old(pool).model().queued + effective_concurrency(concurrency) <= usize::MAX,
                pool.model().active + pool.model().queued == old(pool).model().active + old(
                    pool,
                ).model().queued + j,
            decreases k - j,
        {
            let _ = pool.submit();
            j += 1;
        }
        proof {
            assert(cs@.len() <= usize::MAX) by {
                assert(cs@.len() == cs.len());
            }
            assert(chunks_view(chunks@).len() == chunks@.len());
            assert(chunks_view(chunks@).flatten() == cs@);
        }
        let job = Job { chunks };
        let handle = ResultHandle::new();
        Ok((job, handle))
    }
}

} // verus!
