//! Plain facts about byte strings that the rest of the crate leans on:
//! counting line breaks and copying ranges.

use vstd::prelude::*;

verus! {

/// The line feed byte.
pub const NEWLINE: u8 = 10;

/// How many line feeds a byte string holds.
pub open spec fn newline_count(s: Seq<u8>) -> nat
    decreases s.len(),
{
    if s.len() == 0 {
        0
    } else {
        newline_count(s.drop_last()) + if s.last() == NEWLINE {
            1nat
        } else {
            0nat
        }
    }
}

/// Line feeds add up over concatenation.
pub proof fn lemma_newline_count_concat(a: Seq<u8>, b: Seq<u8>)
    ensures
        newline_count(a + b) == newline_count(a) + newline_count(b),
    decreases b.len(),
{
    if b.len() == 0 {
    } else {
        lemma_newline_count_concat(a, b.drop_last());
        assert((a + b).drop_last() =~= a + b.drop_last());
    }
}

/// A byte string holds at most as many line feeds as bytes.
pub proof fn lemma_newline_count_bound(s: Seq<u8>)
    ensures
        newline_count(s) <= s.len(),
    decreases s.len(),
{
    if s.len() > 0 {
        lemma_newline_count_bound(s.drop_last());
    }
}

/// Line feeds of a range, split at a point inside it.
pub proof fn lemma_newline_count_split(s: Seq<u8>, from: int, mid: int, to: int)
    requires
        0 <= from <= mid <= to <= s.len(),
    ensures
        newline_count(s.subrange(from, to)) == newline_count(s.subrange(from, mid))
            + newline_count(s.subrange(mid, to)),
{
    assert(s.subrange(from, to) =~= s.subrange(from, mid) + s.subrange(mid, to));
    lemma_newline_count_concat(s.subrange(from, mid), s.subrange(mid, to));
}

/// Counts the line feeds between two offsets of `bytes`.
pub fn count_newlines_in(bytes: &[u8], from: usize, to: usize) -> (n: usize)
    requires
        from <= to <= bytes@.len(),
    ensures
        n == newline_count(bytes@.subrange(from as int, to as int)),
        n <= to - from,
{
    let mut n: usize = 0;
    let mut i: usize = from;
    while i < to
        invariant
            from <= i <= to <= bytes@.len(),
            n == newline_count(bytes@.subrange(from as int, i as int)),
            n <= i - from,
        decreases to - i,
    {
        assert(bytes@.subrange(from as int, i + 1).drop_last() =~= bytes@.subrange(
            from as int,
            i as int,
        ));
        if bytes[i] == NEWLINE {
            n = n + 1;
        }
        i = i + 1;
    }
    n
}

/// Counts the line feeds of `bytes`.
pub fn count_newlines(bytes: &[u8]) -> (n: usize)
    ensures
        n == newline_count(bytes@),
{
    assert(bytes@.subrange(0, bytes@.len() as int) =~= bytes@);
    count_newlines_in(bytes, 0, bytes.len())
}

/// Copies the bytes between two offsets into a vector of their own.
pub fn copy_range(bytes: &[u8], from: usize, to: usize) -> (out: Vec<u8>)
    requires
        from <= to <= bytes@.len(),
    ensures
        out@ == bytes@.subrange(from as int, to as int),
{
    let mut out: Vec<u8> = Vec::new();
    let mut i: usize = from;
    while i < to
        invariant
            from <= i <= to <= bytes@.len(),
            out@ == bytes@.subrange(from as int, i as int),
        decreases to - i,
    {
        out.push(bytes[i]);
        i = i + 1;
    }
    out
}

} // verus!
