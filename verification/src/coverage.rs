use crate::preset::group_texts;
use crate::text::chars_of;
use vstd::prelude::*;

verus! {

/// Length of the master seed in bytes.
pub const SEED_LEN: usize = 32;

/// Number of seed bytes that each character group consumes.
pub const CHUNK_SIZE: usize = 4;

/// The little-endian value of the four seed bytes that belong to group `slot`.
pub open spec fn seed_word(seed: Seq<u8>, slot: int) -> nat
    recommends
        0 <= slot,
        4 * slot + 4 <= seed.len(),
{
    (seed[4 * slot] + 0x100 * seed[4 * slot + 1] + 0x1_0000 * seed[4 * slot + 2] + 0x100_0000
        * seed[4 * slot + 3]) as nat
}

/// The character that group `slot` is guaranteed to contribute: the seed word
/// of the slot, reduced by plain modulo to an index into the group.
pub open spec fn coverage_pick(seed: Seq<u8>, slot: int, group: Seq<char>) -> char
    recommends
        0 <= slot,
        4 * slot + 4 <= seed.len(),
        group.len() > 0,
{
    group[(seed_word(seed, slot) % group.len()) as int]
}

/// One guaranteed character per group, in the order of the groups.
pub open spec fn coverage(seed: Seq<u8>, groups: Seq<Seq<char>>) -> Seq<char> {
    Seq::new(groups.len(), |slot: int| coverage_pick(seed, slot, groups[slot]))
}

/// Reads the seed bytes of group `slot` as a little-endian integer.
pub fn read_seed_word(seed: &[u8; 32], slot: usize) -> (word: u32)
    requires
        slot < 8,
    ensures
        word == seed_word(seed@, slot as int),
{
    let base: usize = slot * CHUNK_SIZE;
    let b0: u32 = seed[base] as u32;
    let b1: u32 = seed[base + 1] as u32;
    let b2: u32 = seed[base + 2] as u32;
    let b3: u32 = seed[base + 3] as u32;
    b0 + 0x100 * b1 + 0x1_0000 * b2 + 0x100_0000 * b3
}

/// Picks the guaranteed character of every group directly from the seed.
pub fn inject_coverage(seed: &[u8; 32], charsets: &Vec<String>) -> (chars: Vec<char>)
    requires
        charsets.len() <= 8,
        forall|i: int| 0 <= i < charsets.len() ==> (#[trigger] charsets[i])@.len() > 0,
    ensures
        chars@ == coverage(seed@, group_texts(charsets@)),
{
    let mut chars: Vec<char> = Vec::new();
    let mut slot: usize = 0;
    while slot < charsets.len()
        invariant
            slot <= charsets.len() <= 8,
            forall|i: int| 0 <= i < charsets.len() ==> (#[trigger] charsets[i])@.len() > 0,
            chars@ == coverage(seed@, group_texts(charsets@)).take(slot as int),
        decreases charsets.len() - slot,
    {
        let word = read_seed_word(seed, slot);
        let group = chars_of(charsets[slot].as_str());
        let index: usize = (word as usize) % group.len();
        chars.push(group[index]);
        slot += 1;
    }
    chars
}

/// Every group has one of its own characters at its own position of the
/// coverage characters.
pub proof fn lemma_coverage_picks_from_each_group(seed: Seq<u8>, groups: Seq<Seq<char>>)
    requires
        forall|i: int| 0 <= i < groups.len() ==> (#[trigger] groups[i]).len() > 0,
    ensures
        coverage(seed, groups).len() == groups.len(),
        forall|i: int|
            0 <= i < groups.len() ==> groups[i].contains(#[trigger] coverage(seed, groups)[i]),
{
    assert forall|i: int| 0 <= i < groups.len() implies groups[i].contains(
        #[trigger] coverage(seed, groups)[i],
    ) by {
        let index = (seed_word(seed, i) % groups[i].len()) as int;
        assert(0 <= index < groups[i].len());
        assert(coverage(seed, groups)[i] == groups[i][index]);
    }
}

} // verus!
