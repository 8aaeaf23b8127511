//! A bounded worker-pool parallel aggregation engine.
//!
//! A fixed-size pool of reusable execution units accepts a splittable text
//! workload, runs a map phase independently per chunk (counting alphabetic
//! characters, case-folded to lowercase), merges the partial tallies with a
//! commutative, associative operator, and delivers the single final tally to
//! a non-blocking caller through a one-shot completion signal.

use vstd::prelude::*;

mod bridge;
mod chars;
mod counts;
mod pool;
mod reducer;
mod splitter;
mod text;

pub use bridge::{BridgeError, CompletionSignal, Observation, ResultHandle};
pub use chars::to_lower;
pub use counts::CharCounts;
pub use pool::{PoolError, WorkerPool};
pub use reducer::{map_chunk, merge, merge_partials, reduce};
pub use splitter::split;
pub use text::{frequency_in_string, frequency_single_threaded, run_job, Job, Text};
