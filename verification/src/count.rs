//! Counting the places at which one text occurs in another.

use vstd::prelude::*;

verus! {

/// Whether `s` ends with `p`.
pub open spec fn ends_with(s: Seq<char>, p: Seq<char>) -> bool {
    p.len() <= s.len() && s.subrange(s.len() - p.len(), s.len() as int) == p
}

/// The number of places in `s` at which the text `p`, which is not empty,
/// occurs. Occurrences that overlap are counted each.
pub open spec fn occurrences(s: Seq<char>, p: Seq<char>) -> nat
    decreases s.len(),
{
    if s.len() == 0 {
        0
    } else {
        occurrences(s.drop_last(), p) + if ends_with(s, p) {
            1nat
        } else {
            0nat
        }
    }
}

/// Whether the last character of `p` stands in `b` only where all of `p`
/// would have room before it.
pub open spec fn closes_late(b: Seq<char>, p: Seq<char>) -> bool {
    forall|j: int| 0 <= j < b.len() && #[trigger] b[j] == p.last() ==> j >= p.len() - 1
}

/// Whether the first two characters of `p` stand nowhere in `b` side by side.
pub open spec fn never_opens(b: Seq<char>, p: Seq<char>) -> bool {
    forall|j: int| 0 <= j < b.len() - 1 ==> !(#[trigger] b[j] == p[0] && b[j + 1] == p[1])
}

/// A text that ends with `p` ends with the last character of `p`.
proof fn lemma_ends_with_last(s: Seq<char>, p: Seq<char>)
    requires
        p.len() > 0,
        ends_with(s, p),
    ensures
        s.last() == p.last(),
{
    let tail = s.subrange(s.len() - p.len(), s.len() as int);
    assert(tail[p.len() - 1] == s[s.len() - 1]);
}

/// A text shorter than `p` holds no occurrence of it.
pub proof fn lemma_occurrences_short(s: Seq<char>, p: Seq<char>)
    requires
        s.len() < p.len(),
    ensures
        occurrences(s, p) == 0,
    decreases s.len(),
{
    if s.len() > 0 {
        lemma_occurrences_short(s.drop_last(), p);
    }
}

/// A text occurs in itself once.
pub proof fn lemma_occurrences_self(p: Seq<char>)
    requires
        p.len() > 0,
    ensures
        occurrences(p, p) == 1,
{
    lemma_occurrences_short(p.drop_last(), p);
    assert(p.subrange(0, p.len() as int) == p);
}

/// A text without the last character of `p` holds no occurrence of it.
pub proof fn lemma_occurrences_without_last(b: Seq<char>, p: Seq<char>)
    requires
        p.len() > 0,
        forall|j: int| 0 <= j < b.len() ==> #[trigger] b[j] != p.last(),
    ensures
        occurrences(b, p) == 0,
    decreases b.len(),
{
    if b.len() > 0 {
        lemma_occurrences_without_last(b.drop_last(), p);
        if ends_with(b, p) {
            lemma_ends_with_last(b, p);
        }
    }
}

/// A text in which the first two characters of `p` never stand side by side
/// holds no occurrence of it.
pub proof fn lemma_occurrences_never_opened(b: Seq<char>, p: Seq<char>)
    requires
        p.len() >= 2,
        never_opens(b, p),
    ensures
        occurrences(b, p) == 0,
    decreases b.len(),
{
    if b.len() > 0 {
        let head = b.drop_last();
        assert forall|j: int| 0 <= j < head.len() - 1 implies !(#[trigger] head[j] == p[0]
            && head[j + 1] == p[1]) by {
            assert(head[j] == b[j]);
            assert(head[j + 1] == b[j + 1]);
        }
        lemma_occurrences_never_opened(head, p);
        if ends_with(b, p) {
            let from = b.len() - p.len();
            let tail = b.subrange(from, b.len() as int);
            assert(tail[0] == b[from]);
            assert(tail[1] == b[from + 1]);
        }
    }
}

/// Where no occurrence of `p` can lie across the seam, the occurrences in a
/// concatenation are those of its two parts.
pub proof fn lemma_occurrences_concat(a: Seq<char>, b: Seq<char>, p: Seq<char>)
    requires
        p.len() > 0,
        closes_late(b, p),
    ensures
        occurrences(a + b, p) == occurrences(a, p) + occurrences(b, p),
    decreases b.len(),
{
    if b.len() == 0 {
        assert(a + b == a);
    } else {
        let s = a + b;
        assert(s.drop_last() == a + b.drop_last());
        assert forall|j: int|
            0 <= j < b.drop_last().len() && #[trigger] b.drop_last()[j] == p.last() implies j
            >= p.len() - 1 by {
            assert(b.drop_last()[j] == b[j]);
        }
        lemma_occurrences_concat(a, b.drop_last(), p);
        if b.last() == p.last() {
            assert(b[b.len() - 1] == p.last());
            assert(b.len() >= p.len());
            assert(s.subrange(s.len() - p.len(), s.len() as int) == b.subrange(
                b.len() - p.len(),
                b.len() as int,
            ));
        } else {
            if ends_with(s, p) {
                lemma_ends_with_last(s, p);
            }
            if ends_with(b, p) {
                lemma_ends_with_last(b, p);
            }
        }
    }
}

} // verus!
