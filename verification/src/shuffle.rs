use crate::bit_source::BitSource;
use crate::error::{AegixPassError, AegixPassErrorView};
use crate::filler::Progress;
use crate::sampler::{lemma_sample_agrees, sample, secure_random_range_u32};
use vstd::prelude::*;

verus! {

/// `chars` with the characters at positions `i` and `j` exchanged.
pub open spec fn swapped(chars: Seq<char>, i: int, j: int) -> Seq<char>
    recommends
        0 <= i < chars.len(),
        0 <= j < chars.len(),
{
    chars.update(i, chars[j]).update(j, chars[i])
}

/// The backward Fisher-Yates pass over positions `last`, `last - 1`, .., `1`
/// of `chars`: each position is exchanged with one drawn uniformly from the
/// positions up to and including itself, reading `words` from `from`.
pub open spec fn shuffled(
    words: spec_fn(nat) -> u32,
    from: nat,
    chars: Seq<char>,
    last: nat,
) -> Progress
    decreases last,
{
    if last == 0 {
        Progress { chars, next: from, stalled: false }
    } else {
        let drawn = sample(words, from, (last + 1) as u32);
        match drawn.value {
            Some(other) => shuffled(
                words,
                drawn.next,
                swapped(chars, last as int, other as int),
                (last - 1) as nat,
            ),
            None => Progress { chars, next: drawn.next, stalled: true },
        }
    }
}

/// The position at which the pass over a buffer of `len` characters starts.
pub open spec fn last_position(len: nat) -> nat {
    if len == 0 {
        0
    } else {
        (len - 1) as nat
    }
}

/// Shuffling depends only on the words it looks at: on two streams that agree
/// from `from_a` and `from_b` on it yields the same characters and consumes
/// the same number of words.
pub proof fn lemma_shuffled_agrees(
    a: spec_fn(nat) -> u32,
    from_a: nat,
    b: spec_fn(nat) -> u32,
    from_b: nat,
    chars: Seq<char>,
    last: nat,
)
    requires
        forall|k: nat| #[trigger] a(from_a + k) == b(from_b + k),
    ensures
        shuffled(a, from_a, chars, last).chars == shuffled(b, from_b, chars, last).chars,
        shuffled(a, from_a, chars, last).stalled == shuffled(b, from_b, chars, last).stalled,
        shuffled(a, from_a, chars, last).next - from_a == shuffled(b, from_b, chars, last).next
            - from_b,
        shuffled(a, from_a, chars, last).next >= from_a,
    decreases last,
{
    if last > 0 {
        lemma_sample_agrees(a, from_a, b, from_b, (last + 1) as u32);
        let drawn_a = sample(a, from_a, (last + 1) as u32);
        let drawn_b = sample(b, from_b, (last + 1) as u32);
        if let Some(other) = drawn_a.value {
            let gap = (drawn_a.next - from_a) as nat;
            assert forall|k: nat| #[trigger] a(drawn_a.next + k) == b(drawn_b.next + k) by {
                assert(a(from_a + (gap + k)) == b(from_b + (gap + k)));
            }
            lemma_shuffled_agrees(
                a,
                drawn_a.next,
                b,
                drawn_b.next,
                swapped(chars, last as int, other as int),
                (last - 1) as nat,
            );
        }
    }
}

/// Exchanging two characters rearranges a sequence without adding or losing
/// any.
pub proof fn lemma_swapped_permutes(chars: Seq<char>, i: int, j: int)
    requires
        0 <= i < chars.len(),
        0 <= j < chars.len(),
    ensures
        swapped(chars, i, j).len() == chars.len(),
        swapped(chars, i, j).to_multiset() == chars.to_multiset(),
{
    broadcast use {
        vstd::seq_lib::to_multiset_update,
        vstd::seq_lib::to_multiset_contains,
        vstd::multiset::group_multiset_axioms,
    };

    let once = chars.update(i, chars[j]);
    assert(chars.contains(chars[i]));
    assert(once.contains(once[j]));
    assert(once.to_multiset() == chars.to_multiset().insert(chars[j]).remove(chars[i]));
    assert(swapped(chars, i, j).to_multiset() == once.to_multiset().insert(chars[i]).remove(
        once[j],
    ));
    assert(swapped(chars, i, j).to_multiset() =~= chars.to_multiset());
}

/// The shuffle only rearranges: whatever it draws, and even when it stalls,
/// its characters are those it was given, each as often as before.
pub proof fn lemma_shuffled_permutes(
    words: spec_fn(nat) -> u32,
    from: nat,
    chars: Seq<char>,
    last: nat,
)
    requires
        last == 0 || last < chars.len(),
        last < u32::MAX,
    ensures
        shuffled(words, from, chars, last).chars.len() == chars.len(),
        shuffled(words, from, chars, last).chars.to_multiset() == chars.to_multiset(),
    decreases last,
{
    if last > 0 {
        let drawn = sample(words, from, (last + 1) as u32);
        if let Some(other) = drawn.value {
            assert(0 <= other <= last);
            lemma_swapped_permutes(chars, last as int, other as int);
            lemma_shuffled_permutes(
                words,
                drawn.next,
                swapped(chars, last as int, other as int),
                (last - 1) as nat,
            );
        }
    }
}

/// Permutes `chars` in place by one backward Fisher-Yates pass, drawing each
/// exchange partner by one unbiased sample. Stops with `DrawLimitReached` at
/// the first sample that runs out of draws.
pub fn fisher_yates_shuffle(chars: &mut Vec<char>, rng: &mut BitSource) -> (outcome: Result<
    (),
    AegixPassError,
>)
    requires
        old(chars).len() <= u32::MAX,
    ensures
        final(chars)@ == shuffled(
            old(rng).stream(),
            0,
            old(chars)@,
            last_position(old(chars)@.len()),
        ).chars,
        final(rng).follows(
            *old(rng),
            shuffled(old(rng).stream(), 0, old(chars)@, last_position(old(chars)@.len())).next,
        ),
        match outcome {
            Ok(_) => !shuffled(
                old(rng).stream(),
                0,
                old(chars)@,
                last_position(old(chars)@.len()),
            ).stalled,
            Err(e) => shuffled(
                old(rng).stream(),
                0,
                old(chars)@,
                last_position(old(chars)@.len()),
            ).stalled && e@ == AegixPassErrorView::DrawLimitReached,
        },
{
    let ghost start = *old(rng);
    let ghost words = start.stream();
    let ghost goal = shuffled(words, 0, old(chars)@, last_position(old(chars)@.len()));
    let ghost mut at: nat = 0;
    let mut position: usize = if chars.len() == 0 {
        0
    } else {
        chars.len() - 1
    };
    while position > 0
        invariant
            position == 0 || position < chars.len(),
            chars.len() == old(chars).len() <= u32::MAX,
            start == *old(rng),
            words == start.stream(),
            goal == shuffled(words, 0, old(chars)@, last_position(old(chars)@.len())),
            goal == shuffled(words, at, chars@, position as nat),
            rng.follows(start, at),
        decreases position,
    {
        let ghost before = *rng;
        let picked = secure_random_range_u32(rng, (position + 1) as u32);
        proof {
            assert forall|k: nat| #[trigger] before.stream()(0 + k) == words(at + k) by {
                assert(before.upcoming(k) == start.upcoming(k + at));
            }
            lemma_sample_agrees(before.stream(), 0, words, at, (position + 1) as u32);
            let here = sample(before.stream(), 0, (position + 1) as u32);
            let drawn = sample(words, at, (position + 1) as u32);
            assert(drawn.next == at + here.next);
            assert forall|k: nat| #[trigger] rng.upcoming(k) == start.upcoming(k + drawn.next) by {
                assert(before.upcoming(k + here.next) == start.upcoming(k + here.next + at));
            }
            at = drawn.next;
        }
        match picked {
            Some(other) => {
                let upper = chars[position];
                let lower = chars[other as usize];
                chars.set(position, lower);
                chars.set(other as usize, upper);
            },
            None => {
                return Err(AegixPassError::DrawLimitReached);
            },
        }
        position -= 1;
    }
    Ok(())
}

} // verus!
