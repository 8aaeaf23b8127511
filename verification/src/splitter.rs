//! Partitioning the input into independently processable chunks.
//!
//! The splitter walks the text in fixed-size character windows. Because the
//! windows are whole characters, no window boundary can fall inside one, and
//! the ordered concatenation of the chunks reproduces the input exactly: the
//! lossy byte-boundary policy that a byte-window splitter would need never
//! arises here.

use vstd::prelude::*;
use vstd::arithmetic::div_mod::lemma_fundamental_div_mod;
use vstd::arithmetic::div_mod::lemma_mod_bound;

verus! {

/// A bounded, independently processable slice of the input payload.
pub type Chunk = Vec<char>;

/// The requested concurrency with zero read as one.
pub open spec fn effective_concurrency(concurrency: usize) -> nat {
    if concurrency == 0 {
        1
    } else {
        concurrency as nat
    }
}

/// The characters each chunk holds.
pub open spec fn chunks_view(chunks: Seq<Chunk>) -> Seq<Seq<char>> {
    chunks.map_values(|v: Chunk| v@)
}

/// Splits `input` into at least one and at most `effective_concurrency`
/// chunks whose ordered concatenation is exactly the input. The target
/// chunk length divides the input evenly over the requested concurrency;
/// an empty input yields one empty chunk.
pub fn split(input: &Vec<char>, concurrency: usize) -> (r: Vec<Chunk>)
    ensures
        r@.len() >= 1,
        r@.len() <= effective_concurrency(concurrency),
        chunks_view(r@).flatten() == input@,
{
    let len = input.len();
    let conc: usize = if concurrency == 0 {
        1
    } else {
        concurrency
    };
    let mut r: Vec<Chunk> = Vec::new();
    if len == 0 {
        let empty: Chunk = Vec::new();
        r.push(empty);
        proof {
            assert(chunks_view(r@).len() == 1);
            assert(chunks_view(r@)[0] =~= input@);
            chunks_view(r@).lemma_flatten_one_element();
        }
        return r;
    }
    // Ceiling division: the smallest window that covers the input with at
    // most `conc` windows.
    let size: usize = (len - 1) / conc + 1;
    proof {
        lemma_fundamental_div_mod((len - 1) as int, conc as int);
        lemma_mod_bound((len - 1) as int, conc as int);
        assert(size * conc >= len) by (nonlinear_arith)
            requires
                size == (len - 1) / (conc as int) + 1,
                conc >= 1,
                len >= 1,
                (len - 1) as int == (conc as int) * ((len - 1) as int / (conc as int)) + (len
                    - 1) as int % (conc as int),
                0 <= (len - 1) as int % (conc as int) < conc as int,
        ;
    }
    let mut i: usize = 0;
    while i < len
        invariant
            1 <= size,
            1 <= conc,
            size * conc >= len,
            len == input@.len(),
            i <= len,
            chunks_view(r@).flatten() == input@.take(i as int),
            i < len ==> i == r@.len() * size,
            i == len ==> r@.len() >= 1 && (r@.len() as int - 1) * size < len,
        decreases len - i,
    {
        let take: usize = if len - i < size {
            len - i
        } else {
            size
        };
        let mut chunk: Chunk = Vec::new();
        let mut j: usize = 0;
        while j < take
            invariant
                i + take <= len,
                len == input@.len(),
                j <= take,
                chunk@ =~= input@.subrange(i as int, i as int + j as int),
            decreases take - j,
        {
            chunk.push(input[i + j]);
            j += 1;
        }
        proof {
            let old_view = chunks_view(r@);
            old_view.lemma_flatten_push(chunk@);
            assert(chunks_view(r@.push(chunk)) =~= old_view.push(chunk@));
            assert(input@.take(i as int) + input@.subrange(i as int, (i + take) as int)
                =~= input@.take((i + take) as int));
            if len - i >= size {
                assert((r@.len() + 1) as int * size == r@.len() * size + size)
                    by (nonlinear_arith);
            }
        }
        r.push(chunk);
        i += take;
        proof {
            assert(chunks_view(r@).flatten() =~= input@.take(i as int));
        }
    }
    proof {
        assert(input@.take(len as int) =~= input@);
        assert(r@.len() <= conc) by (nonlinear_arith)
            requires
                (r@.len() as int - 1) * size < len,
                size * conc >= len,
                size >= 1,
                conc >= 1,
        ;
    }
    r
}

} // verus!
