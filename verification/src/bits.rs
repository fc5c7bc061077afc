//! Counting the bits that are set, in one word and in a sequence of words.

use vstd::prelude::*;
use vstd::arithmetic::power2::{pow2, lemma2_to64, lemma_pow2_unfold};

verus! {

/// The number of binary digits of `w` that are 1.
pub open spec fn word_ones(w: u32) -> nat
    decreases w,
{
    if w == 0 {
        0
    } else {
        (w % 2) as nat + word_ones(w / 2)
    }
}

/// The number of bits that are 1 in all the words of `words` together.
pub open spec fn total_ones(words: Seq<u32>) -> nat
    decreases words.len(),
{
    if words.len() == 0 {
        0
    } else {
        total_ones(words.drop_last()) + word_ones(words.last())
    }
}

/// `u32::count_ones` of the standard library: the number of ones in the
/// binary representation of the word. Taken on trust, not proved here.
pub assume_specification[ u32::count_ones ](w: u32) -> (n: u32)
    ensures
        n == word_ones(w),
;

/// One word holds at most 32 bits that are set.
pub proof fn lemma_word_ones_bound(w: u32)
    ensures
        word_ones(w) <= 32,
{
    lemma2_to64();
    lemma_ones_within(w, 32);
}

/// Words that are all zero have no bit set.
pub proof fn lemma_total_ones_zero(words: Seq<u32>)
    requires
        forall|i: int| 0 <= i < words.len() ==> words[i] == 0,
    ensures
        total_ones(words) == 0,
    decreases words.len(),
{
    if words.len() > 0 {
        lemma_total_ones_zero(words.drop_last());
    }
}

/// Each word adds at most 32 to the count.
pub proof fn lemma_total_ones_bound(words: Seq<u32>)
    ensures
        total_ones(words) <= 32 * words.len(),
    decreases words.len(),
{
    if words.len() > 0 {
        lemma_total_ones_bound(words.drop_last());
        lemma_word_ones_bound(words.last());
    }
}

/// Appending a word adds that word's bits to the count.
pub proof fn lemma_total_ones_push(words: Seq<u32>, w: u32)
    ensures
        total_ones(words.push(w)) == total_ones(words) + word_ones(w),
{
    assert(words.push(w).drop_last() =~= words);
}

/// The count over a prefix never exceeds the count over the whole.
pub proof fn lemma_total_ones_prefix(words: Seq<u32>, n: int)
    requires
        0 <= n <= words.len(),
    ensures
        total_ones(words.take(n)) <= total_ones(words),
    decreases words.len(),
{
    if n == words.len() {
        assert(words.take(n) =~= words);
    } else {
        assert(words.drop_last().take(n) =~= words.take(n));
        lemma_total_ones_prefix(words.drop_last(), n);
    }
}

/// A word below `2^k` has at most `k` bits set.
proof fn lemma_ones_within(w: u32, k: nat)
    requires
        (w as int) < pow2(k),
    ensures
        word_ones(w) <= k,
    decreases k,
{
    if w != 0 {
        if k == 0 {
            lemma2_to64();
        } else {
            lemma_pow2_unfold(k);
            lemma_ones_within(w / 2, (k - 1) as nat);
        }
    } else {
    }
}

} // verus!
