use crate::bit_source::{create_rng_from_seed, seeded_stream, seeded_word};
use crate::coverage::{
    coverage, inject_coverage, lemma_coverage_picks_from_each_group, CHUNK_SIZE, SEED_LEN,
};
use crate::error::{AegixPassError, AegixPassErrorView};
use crate::filler::{
    combined_charset, fill, filled, lemma_filled_agrees, lemma_filled_draws_from_pool,
    lemma_filled_length, lemma_pool_holds_each_group, pool_size, Progress,
};
use crate::preset::{group_texts, Preset, PresetView, ShuffleAlgorithm};
use crate::seed::{
    canonical_bytes_of, generate_master_seed, master_seed_of, refusal, seed_is_refused,
};
use crate::shuffle::{
    fisher_yates_shuffle, last_position, lemma_shuffled_agrees, lemma_shuffled_permutes, shuffled,
};
use crate::text::string_of;
use vstd::prelude::*;

verus! {

/// Some group holds no character.
pub open spec fn has_empty_group(groups: Seq<Seq<char>>) -> bool {
    exists|i: int| 0 <= i < groups.len() && (#[trigger] groups[i]).len() == 0
}

/// What is wrong with the inputs as they stand, if anything: the first of an
/// empty secret or label, a length below the number of groups, and an empty
/// group.
pub open spec fn input_fault(secret: Seq<char>, label: Seq<char>, preset: PresetView) -> Option<
    AegixPassErrorView,
> {
    if secret.len() == 0 || label.len() == 0 {
        Some(AegixPassErrorView::InputEmpty)
    } else if preset.length < preset.charsets.len() {
        Some(AegixPassErrorView::LengthTooShort(preset.length, preset.charsets.len()))
    } else if has_empty_group(preset.charsets) {
        Some(AegixPassErrorView::EmptyCharset)
    } else {
        None
    }
}

/// The number of groups that a seed of `seed_len` bytes can serve.
pub open spec fn supported_groups(seed_len: nat) -> nat {
    seed_len / (CHUNK_SIZE as nat)
}

/// The fault of asking a seed of `seed_len` bytes to serve `groups` groups,
/// if it is one.
pub open spec fn budget_fault(groups: nat, seed_len: nat) -> Option<AegixPassErrorView> {
    if groups > supported_groups(seed_len) {
        Some(AegixPassErrorView::TooManyCharsetGroups(groups, supported_groups(seed_len)))
    } else {
        None
    }
}

/// Every bound that the sampler will be given lies in `[1, u32::MAX]`: the
/// length does, and so does the size of the pool whenever filler is needed.
pub open spec fn sampling_in_range(preset: PresetView) -> bool {
    &&& preset.length <= u32::MAX
    &&& preset.length > preset.charsets.len() ==> 1 <= preset.charsets.flatten().len() <= u32::MAX
}

/// The character buffer that the seed and the word stream determine: the
/// coverage characters, then the filler, then the whole of it shuffled.
pub open spec fn assembled(
    seed: Seq<u8>,
    words: spec_fn(nat) -> u32,
    length: nat,
    groups: Seq<Seq<char>>,
) -> Progress {
    let fixed = coverage(seed, groups);
    let filler = filled(words, 0, groups.flatten(), (length - groups.len()) as nat);
    if filler.stalled {
        Progress { chars: fixed + filler.chars, next: filler.next, stalled: true }
    } else {
        shuffled(words, filler.next, fixed + filler.chars, last_position(length))
    }
}

/// The result of a derivation: the first fault found on the way through
/// validation, seed derivation, group budget and sampling, or else the
/// assembled password.
pub open spec fn derived(secret: Seq<char>, label: Seq<char>, preset: PresetView) -> Result<
    Seq<char>,
    AegixPassErrorView,
> {
    let input = canonical_bytes_of(secret, label, preset);
    let seed = master_seed_of(secret, label, preset);
    let built = assembled(
        seed,
        seeded_stream(preset.rng_algorithm, seed),
        preset.length,
        preset.charsets,
    );
    if let Some(fault) = input_fault(secret, label, preset) {
        Err(fault)
    } else if seed_is_refused(preset.hash_algorithm, input) {
        Err(refusal())
    } else if let Some(fault) = budget_fault(preset.charsets.len(), SEED_LEN as nat) {
        Err(fault)
    } else if built.stalled {
        Err(AegixPassErrorView::DrawLimitReached)
    } else {
        Ok(built.chars)
    }
}

/// `result` is what the derivation from these inputs yields.
pub open spec fn is_derivation(
    result: Result<String, AegixPassError>,
    secret: Seq<char>,
    label: Seq<char>,
    preset: PresetView,
) -> bool {
    match result {
        Ok(password) => derived(secret, label, preset) == Ok::<Seq<char>, AegixPassErrorView>(
            password@,
        ),
        Err(e) => derived(secret, label, preset) == Err::<Seq<char>, AegixPassErrorView>(e@),
    }
}

/// `password` holds at least one character of every group.
pub open spec fn covers(password: Seq<char>, groups: Seq<Seq<char>>) -> bool {
    forall|i: int|
        0 <= i < groups.len() ==> exists|k: int|
            0 <= k < password.len() && (#[trigger] groups[i]).contains(password[k])
}

/// Every character of `password` is a character of some group.
pub open spec fn drawn_from(password: Seq<char>, groups: Seq<Seq<char>>) -> bool {
    forall|k: int| 0 <= k < password.len() ==> groups.flatten().contains(#[trigger] password[k])
}

/// Deriving is a function of its inputs: two results of deriving from the same
/// secret, label and preset are both the same password or both the same error.
pub proof fn lemma_derivation_is_deterministic(
    first: Result<String, AegixPassError>,
    second: Result<String, AegixPassError>,
    secret: Seq<char>,
    label: Seq<char>,
    preset: PresetView,
)
    requires
        is_derivation(first, secret, label, preset),
        is_derivation(second, secret, label, preset),
    ensures
        match (first, second) {
            (Ok(a), Ok(b)) => a@ == b@,
            (Err(a), Err(b)) => a@ == b@,
            _ => false,
        },
{
}

/// A derived password has exactly the length that the preset asks for.
pub proof fn lemma_password_has_requested_length(
    secret: Seq<char>,
    label: Seq<char>,
    preset: PresetView,
)
    requires
        sampling_in_range(preset),
    ensures
        derived(secret, label, preset) matches Ok(password) ==> password.len() == preset.length,
{
    if derived(secret, label, preset).is_ok() {
        let seed = master_seed_of(secret, label, preset);
        let words = seeded_stream(preset.rng_algorithm, seed);
        let groups = preset.charsets;
        let slots = (preset.length - groups.len()) as nat;
        let filler = filled(words, 0, groups.flatten(), slots);
        lemma_filled_length(words, 0, groups.flatten(), slots);
        lemma_shuffled_permutes(
            words,
            filler.next,
            coverage(seed, groups) + filler.chars,
            last_position(preset.length),
        );
    }
}

/// A derived password holds at least one character of every group of the
/// preset.
pub proof fn lemma_password_covers_every_group(
    secret: Seq<char>,
    label: Seq<char>,
    preset: PresetView,
)
    requires
        sampling_in_range(preset),
    ensures
        derived(secret, label, preset) matches Ok(password) ==> covers(password, preset.charsets),
{
    broadcast use vstd::seq_lib::to_multiset_contains;

    if let Ok(password) = derived(secret, label, preset) {
        let seed = master_seed_of(secret, label, preset);
        let words = seeded_stream(preset.rng_algorithm, seed);
        let groups = preset.charsets;
        let slots = (preset.length - groups.len()) as nat;
        let fixed = coverage(seed, groups);
        let filler = filled(words, 0, groups.flatten(), slots);
        let buffer = fixed + filler.chars;
        assert forall|i: int| 0 <= i < groups.len() implies (#[trigger] groups[i]).len() > 0 by {
            if groups[i].len() == 0 {
                assert(has_empty_group(groups));
            }
        }
        lemma_coverage_picks_from_each_group(seed, groups);
        lemma_filled_length(words, 0, groups.flatten(), slots);
        lemma_shuffled_permutes(words, filler.next, buffer, last_position(preset.length));
        assert forall|i: int| 0 <= i < groups.len() implies exists|k: int|
            0 <= k < password.len() && (#[trigger] groups[i]).contains(password[k]) by {
            let picked = fixed[i];
            assert(buffer[i] == picked);
            assert(buffer.contains(picked));
            assert(buffer.to_multiset().count(picked) > 0);
            assert(password.to_multiset().count(picked) > 0);
            assert(password.contains(picked));
            let k = choose|k: int| 0 <= k < password.len() && password[k] == picked;
            assert(groups[i].contains(password[k]));
        }
    }
}

/// A derived password is made of characters of the groups and of nothing
/// else.
pub proof fn lemma_password_uses_only_group_characters(
    secret: Seq<char>,
    label: Seq<char>,
    preset: PresetView,
)
    requires
        sampling_in_range(preset),
    ensures
        derived(secret, label, preset) matches Ok(password) ==> drawn_from(
            password,
            preset.charsets,
        ),
{
    broadcast use vstd::seq_lib::to_multiset_contains;

    if let Ok(password) = derived(secret, label, preset) {
        let seed = master_seed_of(secret, label, preset);
        let words = seeded_stream(preset.rng_algorithm, seed);
        let groups = preset.charsets;
        let pool = groups.flatten();
        let slots = (preset.length - groups.len()) as nat;
        let fixed = coverage(seed, groups);
        let filler = filled(words, 0, pool, slots);
        let buffer = fixed + filler.chars;
        assert forall|i: int| 0 <= i < groups.len() implies (#[trigger] groups[i]).len() > 0 by {
            if groups[i].len() == 0 {
                assert(has_empty_group(groups));
            }
        }
        lemma_coverage_picks_from_each_group(seed, groups);
        lemma_filled_length(words, 0, pool, slots);
        if slots > 0 {
            lemma_filled_draws_from_pool(words, 0, pool, slots);
        }
        lemma_shuffled_permutes(words, filler.next, buffer, last_position(preset.length));
        assert forall|k: int| 0 <= k < password.len() implies pool.contains(
            #[trigger] password[k],
        ) by {
            let ch = password[k];
            assert(password.contains(ch));
            assert(password.to_multiset().count(ch) > 0);
            assert(buffer.to_multiset().count(ch) > 0);
            assert(buffer.contains(ch));
            let at = choose|at: int| 0 <= at < buffer.len() && buffer[at] == ch;
            if at < groups.len() {
                assert(buffer[at] == fixed[at]);
                lemma_pool_holds_each_group(groups, at, ch);
            } else {
                assert(buffer[at] == filler.chars[at - groups.len()]);
            }
        }
    }
}

/// Which inputs are turned away, and with what: an empty secret or label
/// first; then a length below the number of groups; then an empty group; then,
/// once the seed function has not refused, more groups than the seed serves.
pub proof fn lemma_validation_boundaries(secret: Seq<char>, label: Seq<char>, preset: PresetView)
    ensures
        secret.len() == 0 || label.len() == 0 ==> derived(secret, label, preset) == Err::<
            Seq<char>,
            AegixPassErrorView,
        >(AegixPassErrorView::InputEmpty),
        secret.len() > 0 && label.len() > 0 && preset.length < preset.charsets.len() ==> derived(
            secret,
            label,
            preset,
        ) == Err::<Seq<char>, AegixPassErrorView>(
            AegixPassErrorView::LengthTooShort(preset.length, preset.charsets.len()),
        ),
        secret.len() > 0 && label.len() > 0 && preset.length >= preset.charsets.len()
            && has_empty_group(preset.charsets) ==> derived(secret, label, preset) == Err::<
            Seq<char>,
            AegixPassErrorView,
        >(AegixPassErrorView::EmptyCharset),
        input_fault(secret, label, preset).is_none() && !seed_is_refused(
            preset.hash_algorithm,
            canonical_bytes_of(secret, label, preset),
        ) && preset.charsets.len() > 8 ==> derived(secret, label, preset) == Err::<
            Seq<char>,
            AegixPassErrorView,
        >(AegixPassErrorView::TooManyCharsetGroups(preset.charsets.len(), 8)),
        derived(secret, label, preset).is_ok() ==> secret.len() > 0 && label.len() > 0
            && preset.charsets.len() <= preset.length && preset.charsets.len() <= 8
            && !has_empty_group(preset.charsets),
{
}

/// Checks the inputs that can be judged before any seed exists.
pub fn validate_inputs(password_source: &str, distinguish_key: &str, preset: &Preset) -> (outcome:
    Result<(), AegixPassError>)
    ensures
        match outcome {
            Ok(_) => input_fault(password_source@, distinguish_key@, preset@).is_none(),
            Err(e) => input_fault(password_source@, distinguish_key@, preset@) == Some(e@),
        },
{
    if password_source.is_empty() || distinguish_key.is_empty() {
        return Err(AegixPassError::InputEmpty);
    }
    if preset.length < preset.charsets.len() {
        return Err(AegixPassError::LengthTooShort(preset.length, preset.charsets.len()));
    }
    let mut seen: usize = 0;
    while seen < preset.charsets.len()
        invariant
            seen <= preset.charsets.len() <= preset.length,
            password_source@.len() > 0,
            distinguish_key@.len() > 0,
            forall|i: int| 0 <= i < seen ==> (#[trigger] preset@.charsets[i]).len() > 0,
        decreases preset.charsets.len() - seen,
    {
        if preset.charsets[seen].as_str().is_empty() {
            assert(preset@.charsets[seen as int].len() == 0);
            assert(has_empty_group(preset@.charsets));
            return Err(AegixPassError::EmptyCharset);
        }
        assert(preset@.charsets[seen as int] == preset.charsets[seen as int]@);
        seen += 1;
    }
    assert(!has_empty_group(preset@.charsets));
    Ok(())
}

/// Checks that a seed of `seed_len` bytes has a slice for each of `groups`
/// groups.
pub fn check_group_budget(groups: usize, seed_len: usize) -> (outcome: Result<(), AegixPassError>)
    ensures
        match outcome {
            Ok(_) => budget_fault(groups as nat, seed_len as nat).is_none(),
            Err(e) => budget_fault(groups as nat, seed_len as nat) == Some(e@),
        },
{
    let max_groups: usize = seed_len / CHUNK_SIZE;
    if groups > max_groups {
        Err(AegixPassError::TooManyCharsetGroups(groups, max_groups))
    } else {
        Ok(())
    }
}

/// Whether every bound that a derivation under `preset` would hand to the
/// sampler lies in `[1, u32::MAX]`.
pub fn sampling_fits(preset: &Preset) -> (fits: bool)
    ensures
        fits == sampling_in_range(preset@),
{
    if preset.length > u32::MAX as usize {
        return false;
    }
    if preset.length <= preset.charsets.len() {
        return true;
    }
    match pool_size(&preset.charsets) {
        Some(size) => size >= 1,
        None => false,
    }
}

/// Derives the password for `distinguish_key` from `password_source` under
/// `preset`.
pub fn aegixpass_generator(password_source: &str, distinguish_key: &str, preset: &Preset) -> (result:
    Result<String, AegixPassError>)
    requires
        input_fault(password_source@, distinguish_key@, preset@).is_none() ==> sampling_in_range(
            preset@,
        ),
    ensures
        is_derivation(result, password_source@, distinguish_key@, preset@),
        result matches Ok(password) ==> {
            &&& password@.len() == preset.length
            &&& covers(password@, preset@.charsets)
            &&& drawn_from(password@, preset@.charsets)
        },
{
    proof {
        if input_fault(password_source@, distinguish_key@, preset@).is_none() {
            lemma_password_has_requested_length(password_source@, distinguish_key@, preset@);
            lemma_password_covers_every_group(password_source@, distinguish_key@, preset@);
            lemma_password_uses_only_group_characters(
                password_source@,
                distinguish_key@,
                preset@,
            );
        }
    }
    match validate_inputs(password_source, distinguish_key, preset) {
        Ok(_) => {},
        Err(e) => {
            return Err(e);
        },
    }
    let master_seed = match generate_master_seed(password_source, distinguish_key, preset) {
        Ok(seed) => seed,
        Err(e) => {
            return Err(e);
        },
    };
    match check_group_budget(preset.charsets.len(), SEED_LEN) {
        Ok(_) => {},
        Err(e) => {
            return Err(e);
        },
    }
    let ghost groups = preset@.charsets;
    let ghost words = seeded_stream(preset.rng_algorithm, master_seed@);
    assert forall|i: int| 0 <= i < preset.charsets.len() implies (#[trigger] preset.charsets[i])@.len()
        > 0 by {
        assert(groups[i] == preset.charsets[i]@);
    }
    let mut password_chars = inject_coverage(&master_seed, &preset.charsets);
    let mut rng = create_rng_from_seed(master_seed, &preset.rng_algorithm);
    let ghost fresh = rng;
    let ghost fixed = password_chars@;
    let remaining_len = preset.length - password_chars.len();
    let ghost filler = filled(words, 0, groups.flatten(), remaining_len as nat);
    proof {
        assert forall|k: nat| #[trigger] fresh.stream()(0 + k) == words(0 + k) by {
            assert(fresh.upcoming(k) == seeded_word(preset.rng_algorithm, master_seed@, k));
        }
        lemma_filled_agrees(fresh.stream(), 0, words, 0, groups.flatten(), remaining_len as nat);
        lemma_filled_length(words, 0, groups.flatten(), remaining_len as nat);
    }
    if remaining_len > 0 {
        let combined = combined_charset(&preset.charsets);
        match fill(&mut password_chars, &mut rng, &combined, remaining_len) {
            Ok(_) => {},
            Err(e) => {
                return Err(e);
            },
        }
    } else {
        assert(password_chars@ + filler.chars =~= password_chars@);
    }
    let ghost buffer = password_chars@;
    let ghost refilled = rng;
    proof {
        assert(buffer == fixed + filler.chars);
        assert forall|k: nat| #[trigger] refilled.stream()(0 + k) == words(filler.next + k) by {
            assert(refilled.upcoming(k) == fresh.upcoming(k + filler.next));
            assert(fresh.upcoming(k + filler.next) == seeded_word(
                preset.rng_algorithm,
                master_seed@,
                k + filler.next,
            ));
        }
        lemma_shuffled_agrees(
            refilled.stream(),
            0,
            words,
            filler.next,
            buffer,
            last_position(buffer.len()),
        );
    }
    let shuffle_outcome = match preset.shuffle_algorithm {
        ShuffleAlgorithm::FisherYates => fisher_yates_shuffle(&mut password_chars, &mut rng),
    };
    match shuffle_outcome {
        Ok(_) => {},
        Err(e) => {
            return Err(e);
        },
    }
    Ok(string_of(&password_chars))
}

} // verus!
