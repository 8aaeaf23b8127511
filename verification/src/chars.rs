//! Character classification and counting model.
//!
//! The engine's payload tallies alphabetic characters after folding ASCII
//! uppercase letters to lowercase. `char_count` is the mathematical model of
//! that tally: every contract about frequencies is stated through it.

use vstd::prelude::*;

verus! {

/// Whether the Unicode `Alphabetic` property holds of `c`.
///
/// The property is decided by `char::is_alphabetic`; its table is not
/// restated here, only named.
pub uninterp spec fn is_alphabetic_char(c: char) -> bool;

/// Relies on `char::is_alphabetic`: the result depends on the character
/// alone, and is the Unicode `Alphabetic` property named by
/// `is_alphabetic_char`. Its documentation states plainly that ASCII
/// letters have the property and ASCII digits do not.
#[verifier::external_body]
pub fn char_is_alphabetic(c: char) -> (r: bool)
    ensures
        r == is_alphabetic_char(c),
        ('a' <= c && c <= 'z') || ('A' <= c && c <= 'Z') ==> r,
        '0' <= c && c <= '9' ==> !r,
{
    c.is_alphabetic()
}

/// ASCII case folding: `'A'..='Z'` maps to `'a'..='z'`, everything else is
/// unchanged.
pub open spec fn fold_lower(c: char) -> char {
    if 'A' <= c && c <= 'Z' {
        (((c as u32) + 32) as u8) as char
    } else {
        c
    }
}

/// Folds one character to lowercase the way the tally does: only ASCII
/// uppercase letters change.
pub fn to_lower(c: char) -> (r: char)
    ensures
        r == fold_lower(c),
{
    let u = c as u32;
    if 65 <= u && u <= 90 {
        ((u + 32) as u8) as char
    } else {
        c
    }
}

/// Whether an input character `c` contributes to the tally under `key`:
/// it is alphabetic and folds to `key`.
pub open spec fn counted_as(c: char, key: char) -> bool {
    is_alphabetic_char(c) && fold_lower(c) == key
}

/// The number of characters of `s` tallied under `key`: alphabetic
/// characters whose folded form is `key`.
pub open spec fn char_count(s: Seq<char>, key: char) -> nat
    decreases s.len(),
{
    if s.len() == 0 {
        0
    } else {
        char_count(s.drop_last(), key) + (if counted_as(s.last(), key) {
            1nat
        } else {
            0nat
        })
    }
}

/// A tally never exceeds the length of the text it counts.
pub proof fn lemma_char_count_le_len(s: Seq<char>, key: char)
    ensures
        char_count(s, key) <= s.len(),
    decreases s.len(),
{
    if s.len() > 0 {
        lemma_char_count_le_len(s.drop_last(), key);
    }
}

/// Tallies add across concatenation: counting `a + b` is counting `a` and
/// counting `b`.
pub proof fn lemma_char_count_concat(a: Seq<char>, b: Seq<char>, key: char)
    ensures
        char_count(a + b, key) == char_count(a, key) + char_count(b, key),
    decreases b.len(),
{
    if b.len() == 0 {
        assert(a + b =~= a);
    } else {
        lemma_char_count_concat(a, b.drop_last(), key);
        assert((a + b).drop_last() =~= a + b.drop_last());
        assert((a + b).last() == b.last());
    }
}

/// Collects the characters of a string into a vector, in order.
pub fn chars_of(s: &str) -> (r: Vec<char>)
    ensures
        r@ == s@,
{
    let mut r: Vec<char> = Vec::new();
    for c in it: s.chars()
        invariant
            r@ =~= it.seq().take(it.index() as int),
    {
        r.push(c);
    }
    proof {
        assert(r@ =~= s@);
    }
    r
}

/// Unrolling one step at the front of the prefix order: the tally of the
/// first `i + 1` characters extends the tally of the first `i`.
pub proof fn lemma_char_count_take_step(s: Seq<char>, i: int, key: char)
    requires
        0 <= i < s.len(),
    ensures
        char_count(s.take(i + 1), key) == char_count(s.take(i), key) + (if counted_as(
            s[i],
            key,
        ) {
            1nat
        } else {
            0nat
        }),
{
    assert(s.take(i + 1).drop_last() =~= s.take(i));
    assert(s.take(i + 1).last() == s[i]);
}

} // verus!
