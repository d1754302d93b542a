//! From a 32-bit word to a value inside a field's range.

use crate::pattern::HashKind;
use rand::Rng;
use vstd::arithmetic::power2::pow2;
use vstd::bits::lemma_u32_shr_is_div;
use vstd::prelude::*;

verus! {

/// The CRC-32 (IEEE) checksum of a byte sequence, as `crc32fast` computes it.
pub uninterp spec fn crc32(bytes: Seq<u8>) -> u32;

/// `crc32fast::hash` returns the CRC-32 checksum of the whole slice. It depends on the bytes
/// alone: whichever implementation the crate picks for the processor, the checksum is the same.
pub assume_specification[ crc32fast::hash ](buf: &[u8]) -> (sum: u32)
    ensures
        sum == crc32(buf@),
;

/// Draws 32 bits from the thread's random generator, `rand::rng()`, by `Rng::random`. Nothing
/// is promised of the bits: each call may return any word. The generator is seeded from the
/// operating system when a thread first uses it, and `rand` panics if that seeding fails.
#[verifier::external_body]
fn random_word() -> (word: u32) {
    rand::rng().random::<u32>()
}

/// The bytes that stand for an identity: none where there is no identity.
pub open spec fn identity_bytes(hash_id: Option<&[u8]>) -> Seq<u8> {
    match hash_id {
        Some(bytes) => bytes@,
        None => Seq::empty(),
    }
}

/// The 32-bit word from which a value is derived: the checksum of the identity for the
/// `Hash` kind, and fresh random bits for the `Random` kind, whatever the identity.
pub fn draw(kind: HashKind, hash_id: Option<&[u8]>) -> (word: u32)
    ensures
        kind == HashKind::Hash ==> word == crc32(identity_bytes(hash_id)),
{
    match kind {
        HashKind::Random => random_word(),
        HashKind::Hash => match hash_id {
            Some(bytes) => crc32fast::hash(bytes),
            None => {
                let none: Vec<u8> = Vec::new();
                crc32fast::hash(none.as_slice())
            },
        },
    }
}

/// The value that `word` selects for field `idx` in the inclusive range `begin..=end`:
/// the word is shifted right by the field's index and reduced modulo the width of the range.
pub open spec fn spread(word: u32, idx: int, begin: int, end: int) -> int {
    ((word >> (idx as u32)) as int) % (end - begin + 1) + begin
}

/// Every value that `spread` selects lies inside the range it was given.
pub proof fn lemma_spread_in_range(word: u32, idx: int, begin: int, end: int)
    requires
        begin <= end,
    ensures
        begin <= spread(word, idx, begin, end) <= end,
{
    let shifted: int = (word >> (idx as u32)) as int;
    let width: int = end - begin + 1;
    assert(0 <= shifted % width < width) by (nonlinear_arith)
        requires
            width > 0,
    ;
}

/// For a field index below 32 the shift divides the word by two to the power of the index,
/// rounding down.
pub proof fn lemma_spread_divides(word: u32, idx: int, begin: int, end: int)
    requires
        0 <= idx < 32,
    ensures
        spread(word, idx, begin, end) == (word as int / pow2(idx as nat) as int) % (end - begin
            + 1) + begin,
{
    lemma_u32_shr_is_div(word, idx as u32);
}

/// Computes `spread` without overflow for any range of 64-bit bounds.
pub fn reduce(word: u32, idx: i32, begin: i64, end: i64) -> (v: i64)
    requires
        0 <= idx < 32,
        begin <= end,
    ensures
        v == spread(word, idx as int, begin as int, end as int),
        begin <= v <= end,
{
    let shift: u32 = idx as u32;
    let shifted: i128 = (word >> shift) as i128;
    let width: i128 = end as i128 - begin as i128 + 1;
    let offset: i128 = shifted % width;
    proof {
        lemma_spread_in_range(word, idx as int, begin as int, end as int);
    }
    (offset + begin as i128) as i64
}

} // verus!
