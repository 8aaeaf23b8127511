//! The map and reduce phases over chunks.
//!
//! Each chunk is mapped independently to a partial tally; partial tallies
//! are merged with an operator that sums counts key by key. Because every
//! contract here is stated as a pointwise sum, the final tally is
//! independent of chunk count, chunk order, and merge tree shape: that is
//! the partition-invariance property the engine preserves under any
//! concurrency setting.

use vstd::prelude::*;
use crate::chars::{char_count, char_is_alphabetic, to_lower};
use crate::chars::{lemma_char_count_concat, lemma_char_count_le_len, lemma_char_count_take_step};
use crate::counts::{entries_count, CharCounts};
use crate::counts::{lemma_entries_count_take_le, lemma_entries_count_take_step};
use crate::splitter::{chunks_view, Chunk};

verus! {

/// The sum over `chunks` of the tally of each chunk under `key`.
pub open spec fn chunks_count(chunks: Seq<Seq<char>>, key: char) -> nat
    decreases chunks.len(),
{
    if chunks.len() == 0 {
        0
    } else {
        chunks_count(chunks.drop_last(), key) + char_count(chunks.last(), key)
    }
}

/// The sum over `partials` of the count each partial records under `key`.
pub open spec fn partials_count(partials: Seq<CharCounts>, key: char) -> nat
    decreases partials.len(),
{
    if partials.len() == 0 {
        0
    } else {
        partials_count(partials.drop_last(), key) + partials.last().count(key)
    }
}

/// Partition invariance: however the input is cut into chunks, counting
/// each chunk and summing gives exactly the tally of the concatenated
/// whole. The chunk count, the cut points, and the merge order therefore
/// cannot change the final result.
pub proof fn lemma_partition_invariance(chunks: Seq<Seq<char>>, key: char)
    ensures
        chunks_count(chunks, key) == char_count(chunks.flatten(), key),
    decreases chunks.len(),
{
    chunks.lemma_flatten_and_flatten_alt_are_equivalent();
    if chunks.len() > 0 {
        lemma_partition_invariance(chunks.drop_last(), key);
        chunks.drop_last().lemma_flatten_and_flatten_alt_are_equivalent();
        lemma_char_count_concat(chunks.drop_last().flatten_alt(), chunks.last(), key);
    }
}

/// Unrolling one step at the front of the prefix order of partial sums.
proof fn lemma_partials_count_take_step(partials: Seq<CharCounts>, i: int, key: char)
    requires
        0 <= i < partials.len(),
    ensures
        partials_count(partials.take(i + 1), key) == partials_count(partials.take(i), key)
            + partials[i].count(key),
{
    assert(partials.take(i + 1).drop_last() =~= partials.take(i));
    assert(partials.take(i + 1).last() == partials[i]);
}

/// A prefix of the partials never sums to more than the whole.
proof fn lemma_partials_count_take_le(partials: Seq<CharCounts>, i: int, key: char)
    requires
        0 <= i <= partials.len(),
    ensures
        partials_count(partials.take(i), key) <= partials_count(partials, key),
    decreases partials.len() - i,
{
    if i == partials.len() {
        assert(partials.take(i) =~= partials);
    } else {
        lemma_partials_count_take_step(partials, i, key);
        lemma_partials_count_take_le(partials, i + 1, key);
    }
}

/// Partial sums add across concatenation.
proof fn lemma_partials_count_concat(a: Seq<CharCounts>, b: Seq<CharCounts>, key: char)
    ensures
        partials_count(a + b, key) == partials_count(a, key) + partials_count(b, key),
    decreases b.len(),
{
    if b.len() == 0 {
        assert(a + b =~= a);
    } else {
        lemma_partials_count_concat(a, b.drop_last(), key);
        assert((a + b).drop_last() =~= a + b.drop_last());
        assert((a + b).last() == b.last());
    }
}

/// Taking one partial out of the sequence takes exactly its count out of
/// the sum.
proof fn lemma_partials_count_remove(s: Seq<CharCounts>, j: int, key: char)
    requires
        0 <= j < s.len(),
    ensures
        partials_count(s, key) == partials_count(s.remove(j), key) + s[j].count(key),
{
    let single = seq![s[j]];
    assert(s =~= (s.take(j) + single) + s.skip(j + 1));
    assert(s.remove(j) =~= s.take(j) + s.skip(j + 1));
    lemma_partials_count_concat(s.take(j) + single, s.skip(j + 1), key);
    lemma_partials_count_concat(s.take(j), single, key);
    lemma_partials_count_concat(s.take(j), s.skip(j + 1), key);
    assert(single.drop_last() =~= Seq::<CharCounts>::empty());
    assert(partials_count(Seq::<CharCounts>::empty(), key) == 0);
    assert(single.last() == s[j]);
    assert(partials_count(single, key) == partials_count(single.drop_last(), key)
        + single.last().count(key));
    assert(partials_count(single, key) == s[j].count(key));
}

/// Merge-order invariance: two collections that hold the same partial
/// tallies, in whatever order, sum to the same count under every key.
/// Merging sums counts, and sums are commutative and associative, so
/// neither the order in which partials arrive nor the shape of the merge
/// tree can change the final tally.
pub proof fn lemma_merge_order_invariance(a: Seq<CharCounts>, b: Seq<CharCounts>, key: char)
    requires
        a.to_multiset() == b.to_multiset(),
    ensures
        partials_count(a, key) == partials_count(b, key),
    decreases a.len(),
{
    broadcast use vstd::seq_lib::group_to_multiset_ensures;

    if a.len() == 0 {
        assert(b.to_multiset().len() == 0);
        assert(b.len() == 0);
    } else {
        let i = a.len() - 1;
        let x = a.last();
        assert(a[i as int] == x);
        assert(a.contains(x));
        assert(b.to_multiset().count(x) > 0);
        assert(b.contains(x));
        let j = choose|j: int| 0 <= j < b.len() && b[j] == x;
        assert(a.remove(i as int).to_multiset() =~= a.to_multiset().remove(x));
        assert(b.remove(j).to_multiset() =~= b.to_multiset().remove(x));
        assert(a.remove(i as int) =~= a.drop_last());
        lemma_merge_order_invariance(a.drop_last(), b.remove(j), key);
        lemma_partials_count_remove(b, j, key);
    }
}

/// The map phase for one chunk: a fresh tally of the chunk's alphabetic
/// characters, case-folded to lowercase. The tally is owned exclusively by
/// its producer; nothing here is shared.
pub fn map_chunk(chunk: &Chunk) -> (r: CharCounts)
    ensures
        r.wf(),
        forall|key: char| r.count(key) == char_count(chunk@, key),
{
    let n = chunk.len();
    let mut r = CharCounts::new();
    let mut i: usize = 0;
    while i < n
        invariant
            n == chunk@.len(),
            i <= n,
            r.wf(),
            forall|key: char| r.count(key) == char_count(chunk@.take(i as int), key),
        decreases n - i,
    {
        let c = chunk[i];
        if char_is_alphabetic(c) {
            let key = to_lower(c);
            proof {
                lemma_char_count_le_len(chunk@.take(i as int), key);
            }
            r.increment(key);
        }
        proof {
            assert forall|key: char| r.count(key) == char_count(
                chunk@.take(i as int + 1),
                key,
            ) by {
                lemma_char_count_take_step(chunk@, i as int, key);
            }
        }
        i += 1;
    }
    proof {
        assert(chunk@.take(n as int) =~= chunk@);
    }
    r
}

/// The reduce operator: sums `other` into `acc`, key by key. Commutative
/// and associative by its contract, which fixes the result to the pointwise
/// sum of the two tallies. The bound is a machine limit.
pub fn merge(acc: &mut CharCounts, other: &CharCounts)
    requires
        old(acc).wf(),
        other.wf(),
        forall|key: char| old(acc).count(key) + other.count(key) <= usize::MAX,
    ensures
        final(acc).wf(),
        forall|key: char| final(acc).count(key) == old(acc).count(key) + other.count(key),
{
    let pairs = other.entries_vec();
    let n = pairs.len();
    let mut i: usize = 0;
    while i < n
        invariant
            n == pairs@.len(),
            i <= n,
            acc.wf(),
            forall|i2: int| 0 <= i2 < n ==> (#[trigger] pairs@[i2]).1 >= 1,
            forall|key: char| #[trigger] entries_count(pairs@, key) == other.count(key),
            forall|key: char| old(acc).count(key) + other.count(key) <= usize::MAX,
            forall|key: char| #[trigger] acc.count(key) == old(acc).count(key) + entries_count(
                pairs@.take(i as int),
                key,
            ),
        decreases n - i,
    {
        let (c, v) = pairs[i];
        proof {
            lemma_entries_count_take_step(pairs@, i as int, c);
            lemma_entries_count_take_le(pairs@, i as int + 1, c);
        }
        acc.add(c, v);
        proof {
            assert forall|key: char| #[trigger] acc.count(key) == old(acc).count(key)
                + entries_count(pairs@.take(i as int + 1), key) by {
                lemma_entries_count_take_step(pairs@, i as int, key);
            }
        }
        i += 1;
    }
    proof {
        assert(pairs@.take(n as int) =~= pairs@);
    }
}

/// The reduce phase: folds all partial tallies into one final tally, the
/// pointwise sum over the sequence. The bound is a machine limit.
pub fn merge_partials(partials: &Vec<CharCounts>) -> (r: CharCounts)
    requires
        forall|i: int| 0 <= i < partials@.len() ==> (#[trigger] partials@[i]).wf(),
        forall|key: char| partials_count(partials@, key) <= usize::MAX,
    ensures
        r.wf(),
        forall|key: char| r.count(key) == partials_count(partials@, key),
{
    let n = partials.len();
    let mut r = CharCounts::new();
    let mut i: usize = 0;
    while i < n
        invariant
            n == partials@.len(),
            i <= n,
            r.wf(),
            forall|i2: int| 0 <= i2 < n ==> (#[trigger] partials@[i2]).wf(),
            forall|key: char| partials_count(partials@, key) <= usize::MAX,
            forall|key: char| #[trigger] r.count(key) == partials_count(
                partials@.take(i as int),
                key,
            ),
        decreases n - i,
    {
        proof {
            assert forall|key: char| r.count(key) + partials@[i as int].count(key)
                <= usize::MAX by {
                lemma_partials_count_take_step(partials@, i as int, key);
                lemma_partials_count_take_le(partials@, i as int + 1, key);
            }
        }
        merge(&mut r, &partials[i]);
        proof {
            assert forall|key: char| #[trigger] r.count(key) == partials_count(
                partials@.take(i as int + 1),
                key,
            ) by {
                lemma_partials_count_take_step(partials@, i as int, key);
            }
        }
        i += 1;
    }
    proof {
        assert(partials@.take(n as int) =~= partials@);
    }
    r
}

/// Maps every chunk and reduces the partial tallies to the single final
/// tally of the concatenated input. The result depends only on the
/// concatenation of the chunks, not on how the input was cut.
pub fn reduce(chunks: &Vec<Chunk>) -> (r: CharCounts)
    requires
        chunks_view(chunks@).flatten().len() <= usize::MAX,
    ensures
        r.wf(),
        forall|key: char| r.count(key) == char_count(chunks_view(chunks@).flatten(), key),
{
    let n = chunks.len();
    let mut partials: Vec<CharCounts> = Vec::new();
    let mut i: usize = 0;
    while i < n
        invariant
            n == chunks@.len(),
            i <= n,
            partials@.len() == i,
            forall|i2: int| 0 <= i2 < i ==> (#[trigger] partials@[i2]).wf(),
            forall|i2: int, key: char|
                0 <= i2 < i ==> (#[trigger] partials@[i2].count(key)) == char_count(
                    chunks_view(chunks@)[i2],
                    key,
                ),
        decreases n - i,
    {
        let p = map_chunk(&chunks[i]);
        partials.push(p);
        i += 1;
    }
    proof {
        assert forall|key: char| #[trigger] partials_count(partials@, key) == chunks_count(
            chunks_view(chunks@),
            key,
        ) by {
            lemma_partials_match_chunks(partials@, chunks_view(chunks@), key);
        }
        assert forall|key: char| #[trigger] partials_count(partials@, key) <= usize::MAX by {
            lemma_partition_invariance(chunks_view(chunks@), key);
            lemma_char_count_le_len(chunks_view(chunks@).flatten(), key);
        }
    }
    let r = merge_partials(&partials);
    proof {
        assert forall|key: char| r.count(key) == char_count(
            chunks_view(chunks@).flatten(),
            key,
        ) by {
            lemma_partition_invariance(chunks_view(chunks@), key);
        }
    }
    r
}

/// Partials that tally their chunks one for one sum to the chunk sums.
proof fn lemma_partials_match_chunks(partials: Seq<CharCounts>, chunks: Seq<Seq<char>>, key: char)
    requires
        partials.len() == chunks.len(),
        forall|i: int, k: char|
            0 <= i < partials.len() ==> (#[trigger] partials[i].count(k)) == char_count(
                chunks[i],
                k,
            ),
    ensures
        partials_count(partials, key) == chunks_count(chunks, key),
    decreases partials.len(),
{
    if partials.len() > 0 {
        lemma_partials_match_chunks(partials.drop_last(), chunks.drop_last(), key);
    }
}

} // verus!
