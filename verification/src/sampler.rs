use crate::bit_source::BitSource;
use vstd::prelude::*;

verus! {

/// How many words one sample may draw before it gives up.
pub const DRAW_LIMIT: u64 = 0xFFFF_FFFF_FFFF_FFFF;

/// The outcome of one sample: the value, if a word was accepted, and the
/// position of the first word of the stream that the sample left untouched.
pub struct Sample {
    pub value: Option<u32>,
    pub next: nat,
}

/// Words below this value are accepted for `bound`; it is the largest
/// multiple of `bound` that does not exceed `u32::MAX`.
pub open spec fn rejection_zone(bound: u32) -> u32
    recommends
        bound >= 1,
{
    (u32::MAX - u32::MAX % bound) as u32
}

/// What a single word contributes to a sample in `[0, bound)`: its remainder
/// if it lies inside the zone, nothing otherwise.
pub open spec fn accepted_value(word: u32, bound: u32) -> Option<u32>
    recommends
        bound >= 1,
{
    if word < rejection_zone(bound) {
        Some((word % bound) as u32)
    } else {
        None
    }
}

/// The position of the first word at or after `from` that lies below `zone`,
/// looking at no more than `tries` words.
pub open spec fn first_accepted(
    words: spec_fn(nat) -> u32,
    from: nat,
    zone: u32,
    tries: nat,
) -> Option<nat>
    decreases tries,
{
    if tries == 0 {
        None
    } else if words(from) < zone {
        Some(from)
    } else {
        first_accepted(words, from + 1, zone, (tries - 1) as nat)
    }
}

/// One unbiased sample in `[0, bound)` taken from `words` starting at `from`.
/// The first word inside the zone decides the value and is the last one
/// consumed; when `DRAW_LIMIT` words in a row are rejected there is no value
/// and all of them are consumed.
pub open spec fn sample(words: spec_fn(nat) -> u32, from: nat, bound: u32) -> Sample
    recommends
        bound >= 1,
{
    match first_accepted(words, from, rejection_zone(bound), DRAW_LIMIT as nat) {
        Some(at) => Sample { value: Some((words(at) % bound) as u32), next: at + 1 },
        None => Sample { value: None, next: from + DRAW_LIMIT as nat },
    }
}

/// Looking for the first accepted word depends only on the words looked at:
/// two streams that agree from `from_a` and `from_b` on find it at the same
/// distance.
pub proof fn lemma_first_accepted_agrees(
    a: spec_fn(nat) -> u32,
    from_a: nat,
    b: spec_fn(nat) -> u32,
    from_b: nat,
    zone: u32,
    tries: nat,
)
    requires
        forall|k: nat| #[trigger] a(from_a + k) == b(from_b + k),
    ensures
        match first_accepted(a, from_a, zone, tries) {
            Some(at) => at >= from_a && first_accepted(b, from_b, zone, tries) == Some(
                (at - from_a + from_b) as nat,
            ) && a(at) == b((at - from_a + from_b) as nat),
            None => first_accepted(b, from_b, zone, tries).is_none(),
        },
    decreases tries,
{
    if tries > 0 {
        assert(a(from_a + 0) == b(from_b + 0));
        if a(from_a) >= zone {
            assert forall|k: nat| #[trigger] a(from_a + 1 + k) == b(from_b + 1 + k) by {
                assert(a(from_a + (k + 1)) == b(from_b + (k + 1)));
            }
            lemma_first_accepted_agrees(a, from_a + 1, b, from_b + 1, zone, (tries - 1) as nat);
        }
    }
}

/// A sample depends only on the words it looks at: on two streams that agree
/// from `from_a` and `from_b` on it has the same value and consumes the same
/// number of words.
pub proof fn lemma_sample_agrees(
    a: spec_fn(nat) -> u32,
    from_a: nat,
    b: spec_fn(nat) -> u32,
    from_b: nat,
    bound: u32,
)
    requires
        forall|k: nat| #[trigger] a(from_a + k) == b(from_b + k),
    ensures
        sample(a, from_a, bound).value == sample(b, from_b, bound).value,
        sample(a, from_a, bound).next - from_a == sample(b, from_b, bound).next - from_b,
        sample(a, from_a, bound).next >= from_a,
{
    lemma_first_accepted_agrees(a, from_a, b, from_b, rejection_zone(bound), DRAW_LIMIT as nat);
}

/// The zone is made of whole runs of `bound` consecutive words, and it spans
/// more than half of all words.
pub proof fn lemma_zone_is_whole_runs(bound: u32)
    requires
        bound >= 1,
    ensures
        rejection_zone(bound) % bound == 0,
        rejection_zone(bound) == bound * (u32::MAX / bound),
        2 * rejection_zone(bound) > u32::MAX,
{
    let max = u32::MAX as int;
    let b = bound as int;
    assert(max == b * (max / b) + max % b && 0 <= max % b < b) by (nonlinear_arith)
        requires
            b >= 1,
    ;
    assert((b * (max / b)) % b == 0) by (nonlinear_arith)
        requires
            b >= 1,
    ;
    assert(max / b >= 1) by (nonlinear_arith)
        requires
            1 <= b <= max,
    ;
    assert(b * (max / b) >= b) by (nonlinear_arith)
        requires
            b >= 1,
            max / b >= 1,
    ;
}

/// Every value below `bound` is the remainder of one word in each run of the
/// zone: the word number `value` of run number `run` is accepted and yields
/// `value`. So no value is drawn from more words than another.
pub proof fn lemma_every_value_has_one_word_per_run(bound: u32, value: u32, run: nat)
    requires
        bound >= 1,
        value < bound,
        run < rejection_zone(bound) / bound,
    ensures
        run * bound + value < rejection_zone(bound),
        accepted_value((run * bound + value) as u32, bound) == Some(value),
{
    lemma_zone_is_whole_runs(bound);
    let zone = rejection_zone(bound) as int;
    let b = bound as int;
    let r = run as int;
    let v = value as int;
    assert(zone == b * (zone / b)) by (nonlinear_arith)
        requires
            b >= 1,
            zone % b == 0,
    ;
    assert(r * b + v < b * (zone / b)) by (nonlinear_arith)
        requires
            0 <= r < zone / b,
            0 <= v < b,
    ;
    assert((r * b + v) % b == v) by (nonlinear_arith)
        requires
            0 <= r,
            0 <= v < b,
    ;
}

/// Every accepted word is the word number `word % bound` of a run of the
/// zone, and yields that number.
pub proof fn lemma_accepted_word_lies_in_a_run(bound: u32, word: u32)
    requires
        bound >= 1,
        word < rejection_zone(bound),
    ensures
        word / bound < rejection_zone(bound) / bound,
        word == (word / bound) * bound + word % bound,
        accepted_value(word, bound) == Some((word % bound) as u32),
        word % bound < bound,
{
    lemma_zone_is_whole_runs(bound);
    let zone = rejection_zone(bound) as int;
    let b = bound as int;
    let w = word as int;
    assert(w == (w / b) * b + w % b && 0 <= w % b < b) by (nonlinear_arith)
        requires
            b >= 1,
            w >= 0,
    ;
    assert(w / b < zone / b) by (nonlinear_arith)
        requires
            b >= 1,
            0 <= w < zone,
            zone % b == 0,
    ;
}

/// Decides what one drawn word is worth for a sample in `[0, bound)`.
pub fn accept_word(word: u32, bound: u32) -> (picked: Option<u32>)
    requires
        bound >= 1,
    ensures
        picked == accepted_value(word, bound),
{
    let zone: u32 = u32::MAX - u32::MAX % bound;
    if word < zone {
        Some(word % bound)
    } else {
        None
    }
}

/// Draws a uniformly distributed value in `[0, max)` by rejection: words are
/// taken from `rng` until one lies inside the zone, and that word's remainder
/// is the value. Gives up with `None` after `DRAW_LIMIT` rejected words.
pub fn secure_random_range_u32(rng: &mut BitSource, max: u32) -> (picked: Option<u32>)
    requires
        max >= 1,
    ensures
        picked == sample(old(rng).stream(), 0, max).value,
        final(rng).follows(*old(rng), sample(old(rng).stream(), 0, max).next),
{
    let ghost start = *old(rng);
    let ghost zone = rejection_zone(max);
    let mut tries: u64 = 0;
    while tries < DRAW_LIMIT
        invariant
            max >= 1,
            start == *old(rng),
            zone == rejection_zone(max),
            tries <= DRAW_LIMIT,
            rng.follows(start, tries as nat),
            first_accepted(start.stream(), 0, zone, DRAW_LIMIT as nat) == first_accepted(
                start.stream(),
                tries as nat,
                zone,
                (DRAW_LIMIT - tries) as nat,
            ),
        decreases DRAW_LIMIT - tries,
    {
        let ghost before = *rng;
        let word = rng.next_u32();
        proof {
            assert(before.upcoming(0) == start.upcoming(0 + tries as nat));
            assert(start.stream()(tries as nat) == word);
            assert forall|k: nat| #[trigger]
                rng.upcoming(k) == start.upcoming(k + (tries + 1) as nat) by {
                assert(before.upcoming(k + 1) == start.upcoming(k + 1 + tries as nat));
            }
        }
        match accept_word(word, max) {
            Some(value) => {
                assert(first_accepted(
                    start.stream(),
                    tries as nat,
                    zone,
                    (DRAW_LIMIT - tries) as nat,
                ) == Some(tries as nat));
                return Some(value);
            },
            None => {},
        }
        tries += 1;
    }
    None
}

} // verus!
