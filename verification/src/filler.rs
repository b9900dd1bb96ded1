use crate::bit_source::BitSource;
use crate::error::{AegixPassError, AegixPassErrorView};
use crate::preset::group_texts;
use crate::sampler::{lemma_sample_agrees, sample, secure_random_range_u32};
use crate::text::chars_of;
use vstd::prelude::*;
use vstd::seq_lib::lemma_flatten_concat;
use vstd::string::StrSliceExecFns;

verus! {

/// How far a stage that draws from the stream has come: the characters it has
/// produced, the position of the first word it left untouched, and whether a
/// sample ran out of draws and stopped it there.
pub struct Progress {
    pub chars: Seq<char>,
    pub next: nat,
    pub stalled: bool,
}

/// `slots` characters drawn with replacement from `pool`, each by one
/// unbiased sample against the size of the pool, reading `words` from `from`.
pub open spec fn filled(
    words: spec_fn(nat) -> u32,
    from: nat,
    pool: Seq<char>,
    slots: nat,
) -> Progress
    decreases slots,
{
    if slots == 0 {
        Progress { chars: Seq::empty(), next: from, stalled: false }
    } else {
        let earlier = filled(words, from, pool, (slots - 1) as nat);
        if earlier.stalled {
            earlier
        } else {
            let drawn = sample(words, earlier.next, pool.len() as u32);
            match drawn.value {
                Some(index) => Progress {
                    chars: earlier.chars.push(pool[index as int]),
                    next: drawn.next,
                    stalled: false,
                },
                None => Progress { chars: earlier.chars, next: drawn.next, stalled: true },
            }
        }
    }
}

/// Filling depends only on the words it looks at: on two streams that agree
/// from `from_a` and `from_b` on it yields the same characters and consumes
/// the same number of words.
pub proof fn lemma_filled_agrees(
    a: spec_fn(nat) -> u32,
    from_a: nat,
    b: spec_fn(nat) -> u32,
    from_b: nat,
    pool: Seq<char>,
    slots: nat,
)
    requires
        forall|k: nat| #[trigger] a(from_a + k) == b(from_b + k),
    ensures
        filled(a, from_a, pool, slots).chars == filled(b, from_b, pool, slots).chars,
        filled(a, from_a, pool, slots).stalled == filled(b, from_b, pool, slots).stalled,
        filled(a, from_a, pool, slots).next - from_a == filled(b, from_b, pool, slots).next
            - from_b,
        filled(a, from_a, pool, slots).next >= from_a,
    decreases slots,
{
    if slots > 0 {
        lemma_filled_agrees(a, from_a, b, from_b, pool, (slots - 1) as nat);
        let earlier_a = filled(a, from_a, pool, (slots - 1) as nat);
        let earlier_b = filled(b, from_b, pool, (slots - 1) as nat);
        if !earlier_a.stalled {
            let gap = (earlier_a.next - from_a) as nat;
            assert forall|k: nat| #[trigger] a(earlier_a.next + k) == b(earlier_b.next + k) by {
                assert(a(from_a + (gap + k)) == b(from_b + (gap + k)));
            }
            lemma_sample_agrees(a, earlier_a.next, b, earlier_b.next, pool.len() as u32);
        }
    }
}

/// A filling that has stalled makes no further progress, however many slots
/// are asked for.
pub proof fn lemma_filled_stays_stalled(
    words: spec_fn(nat) -> u32,
    from: nat,
    pool: Seq<char>,
    reached: nat,
    slots: nat,
)
    requires
        reached <= slots,
        filled(words, from, pool, reached).stalled,
    ensures
        filled(words, from, pool, slots) == filled(words, from, pool, reached),
    decreases slots,
{
    if reached < slots {
        lemma_filled_stays_stalled(words, from, pool, reached, (slots - 1) as nat);
    }
}

/// A filling yields one character per slot, and exactly `slots` of them
/// unless it stalled.
pub proof fn lemma_filled_length(
    words: spec_fn(nat) -> u32,
    from: nat,
    pool: Seq<char>,
    slots: nat,
)
    ensures
        filled(words, from, pool, slots).chars.len() <= slots,
        !filled(words, from, pool, slots).stalled ==> filled(words, from, pool, slots).chars.len()
            == slots,
    decreases slots,
{
    if slots > 0 {
        lemma_filled_length(words, from, pool, (slots - 1) as nat);
    }
}

/// Every character of a filling comes from the pool.
pub proof fn lemma_filled_draws_from_pool(
    words: spec_fn(nat) -> u32,
    from: nat,
    pool: Seq<char>,
    slots: nat,
)
    requires
        1 <= pool.len() <= u32::MAX,
    ensures
        forall|i: int|
            0 <= i < filled(words, from, pool, slots).chars.len() ==> pool.contains(
                #[trigger] filled(words, from, pool, slots).chars[i],
            ),
    decreases slots,
{
    if slots > 0 {
        lemma_filled_draws_from_pool(words, from, pool, (slots - 1) as nat);
        let earlier = filled(words, from, pool, (slots - 1) as nat);
        if !earlier.stalled {
            let drawn = sample(words, earlier.next, pool.len() as u32);
            if let Some(index) = drawn.value {
                assert(0 <= index < pool.len());
                assert(pool.contains(pool[index as int]));
            }
        }
    }
}

/// The pool holds every character of every group.
pub proof fn lemma_pool_holds_each_group(groups: Seq<Seq<char>>, index: int, ch: char)
    requires
        0 <= index < groups.len(),
        groups[index].contains(ch),
    ensures
        groups.flatten().contains(ch),
{
    let before = groups.take(index);
    let after = groups.skip(index + 1);
    lemma_flatten_concat(before.push(groups[index]), after);
    before.lemma_flatten_push(groups[index]);
    assert(before.push(groups[index]) + after =~= groups);
    let at = choose|at: int| 0 <= at < groups[index].len() && groups[index][at] == ch;
    assert(groups.flatten()[before.flatten().len() + at] == ch);
}

/// The pool of the first `count` groups is no larger than the pool of all.
pub proof fn lemma_pool_grows_with_groups(groups: Seq<Seq<char>>, count: int)
    requires
        0 <= count <= groups.len(),
    ensures
        groups.take(count).flatten().len() <= groups.flatten().len(),
{
    lemma_flatten_concat(groups.take(count), groups.skip(count));
    assert(groups.take(count) + groups.skip(count) =~= groups);
}

/// The number of characters in the pool of `charsets`, or `None` where it
/// exceeds `u32::MAX`.
pub fn pool_size(charsets: &Vec<String>) -> (size: Option<u32>)
    ensures
        match size {
            Some(n) => n == group_texts(charsets@).flatten().len(),
            None => group_texts(charsets@).flatten().len() > u32::MAX,
        },
{
    let ghost groups = group_texts(charsets@);
    let mut total: u32 = 0;
    let mut done: usize = 0;
    assert(groups.take(0) =~= Seq::<Seq<char>>::empty());
    while done < charsets.len()
        invariant
            done <= charsets.len(),
            groups == group_texts(charsets@),
            total == groups.take(done as int).flatten().len(),
        decreases charsets.len() - done,
    {
        let count = charsets[done].as_str().unicode_len();
        proof {
            assert(groups.take(done + 1) =~= groups.take(done as int).push(groups[done as int]));
            groups.take(done as int).lemma_flatten_push(groups[done as int]);
            lemma_pool_grows_with_groups(groups, done + 1);
        }
        if count > (u32::MAX - total) as usize {
            return None;
        }
        total = total + count as u32;
        done += 1;
    }
    assert(groups.take(done as int) =~= groups);
    Some(total)
}

/// All the characters of all the groups, in the order of the groups, with
/// every repetition kept.
pub fn combined_charset(charsets: &Vec<String>) -> (pool: Vec<char>)
    ensures
        pool@ == group_texts(charsets@).flatten(),
{
    let mut pool: Vec<char> = Vec::new();
    let mut done: usize = 0;
    assert(group_texts(charsets@).take(0) =~= Seq::<Seq<char>>::empty());
    while done < charsets.len()
        invariant
            done <= charsets.len(),
            pool@ == group_texts(charsets@).take(done as int).flatten(),
        decreases charsets.len() - done,
    {
        let mut group = chars_of(charsets[done].as_str());
        proof {
            let groups = group_texts(charsets@);
            assert(groups.take(done + 1) =~= groups.take(done as int).push(groups[done as int]));
            groups.take(done as int).lemma_flatten_push(groups[done as int]);
        }
        pool.append(&mut group);
        done += 1;
    }
    assert(group_texts(charsets@).take(done as int) =~= group_texts(charsets@));
    pool
}

/// Appends `slots` characters to `password`, each drawn from `pool` by one
/// unbiased sample. Stops with `DrawLimitReached` at the first sample that
/// runs out of draws.
pub fn fill(
    password: &mut Vec<char>,
    rng: &mut BitSource,
    pool: &Vec<char>,
    slots: usize,
) -> (outcome: Result<(), AegixPassError>)
    requires
        slots > 0 ==> 1 <= pool.len() <= u32::MAX,
    ensures
        final(password)@ == old(password)@ + filled(old(rng).stream(), 0, pool@, slots as nat).chars,
        final(rng).follows(*old(rng), filled(old(rng).stream(), 0, pool@, slots as nat).next),
        match outcome {
            Ok(_) => !filled(old(rng).stream(), 0, pool@, slots as nat).stalled,
            Err(e) => filled(old(rng).stream(), 0, pool@, slots as nat).stalled && e@
                == AegixPassErrorView::DrawLimitReached,
        },
{
    let ghost start = *old(rng);
    let ghost words = start.stream();
    let mut placed: usize = 0;
    assert(old(password)@ + Seq::<char>::empty() =~= old(password)@);
    while placed < slots
        invariant
            placed <= slots,
            slots > 0 ==> 1 <= pool.len() <= u32::MAX,
            start == *old(rng),
            words == start.stream(),
            !filled(words, 0, pool@, placed as nat).stalled,
            password@ == old(password)@ + filled(words, 0, pool@, placed as nat).chars,
            rng.follows(start, filled(words, 0, pool@, placed as nat).next),
        decreases slots - placed,
    {
        let ghost before = *rng;
        let ghost earlier = filled(words, 0, pool@, placed as nat);
        let picked = secure_random_range_u32(rng, pool.len() as u32);
        proof {
            assert forall|k: nat| #[trigger] before.stream()(0 + k) == words(earlier.next + k) by {
                assert(before.upcoming(k) == start.upcoming(k + earlier.next));
            }
            lemma_sample_agrees(before.stream(), 0, words, earlier.next, pool.len() as u32);
            let here = sample(before.stream(), 0, pool.len() as u32);
            let drawn = sample(words, earlier.next, pool.len() as u32);
            assert(drawn.next == earlier.next + here.next);
            assert forall|k: nat| #[trigger] rng.upcoming(k) == start.upcoming(k + drawn.next) by {
                assert(before.upcoming(k + here.next) == start.upcoming(
                    k + here.next + earlier.next,
                ));
            }
        }
        match picked {
            Some(index) => {
                password.push(pool[index as usize]);
                proof {
                    let later = filled(words, 0, pool@, (placed + 1) as nat);
                    assert(later.chars == earlier.chars.push(pool@[index as int]));
                    assert(password@ =~= old(password)@ + later.chars);
                }
            },
            None => {
                proof {
                    lemma_filled_stays_stalled(words, 0, pool@, (placed + 1) as nat, slots as nat);
                }
                return Err(AegixPassError::DrawLimitReached);
            },
        }
        placed += 1;
    }
    Ok(())
}

} // verus!
