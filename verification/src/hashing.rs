//! The hash family: each member is a pure function of its seed and of the
//! bytes of an item.

use std::collections::hash_map::DefaultHasher;
use std::collections::hash_map::RandomState;
use std::hash::BuildHasher;
use std::hash::Hasher;
use vstd::prelude::*;
use vstd::std_specs::hash::DefaultHasherAdditionalSpecFns;

verus! {

/// The `n` low bytes of `x`, least significant first.
pub open spec fn low_bytes(x: nat, n: nat) -> Seq<u8>
    decreases n,
{
    if n == 0 {
        Seq::empty()
    } else {
        seq![(x % 256) as u8] + low_bytes(x / 256, (n - 1) as nat)
    }
}

/// The eight bytes that a seed contributes to a digest.
pub open spec fn seed_bytes(seed: u64) -> Seq<u8> {
    low_bytes(seed as nat, 8)
}

/// The digest of `item` under the hash function seeded with `seed`: what the
/// default hasher reports after it was fed the seed's bytes and then the item.
pub open spec fn digest(seed: u64, item: Seq<u8>) -> u64 {
    DefaultHasher::spec_finish(seq![seed_bytes(seed), item])
}

/// Writes a seed out as its eight bytes, least significant first.
pub fn encode_seed(seed: u64) -> (bytes: Vec<u8>)
    ensures
        bytes@ == seed_bytes(seed),
{
    let mut bytes: Vec<u8> = Vec::new();
    let mut rest: u64 = seed;
    let mut i: usize = 0;
    while i < 8
        invariant
            i <= 8,
            bytes@ + low_bytes(rest as nat, (8 - i) as nat) == seed_bytes(seed),
        decreases 8 - i,
    {
        let low: u8 = (rest % 256) as u8;
        assert(bytes@.push(low) + low_bytes((rest / 256) as nat, (8 - i - 1) as nat)
            =~= bytes@ + low_bytes(rest as nat, (8 - i) as nat));
        bytes.push(low);
        rest = rest / 256;
        i = i + 1;
    }
    assert(bytes@ + low_bytes(rest as nat, 0) =~= bytes@);
    bytes
}

/// Evaluates one member of the family on an item.
pub fn compute_digest(seed: u64, item: &Vec<u8>) -> (d: u64)
    ensures
        d == digest(seed, item@),
{
    let prefix = encode_seed(seed);
    let mut hasher = DefaultHasher::new();
    hasher.write(prefix.as_slice());
    hasher.write(item.as_slice());
    assert(hasher@ =~= seq![seed_bytes(seed), item@]);
    hasher.finish()
}

/// The digests of `item` under each seed of a family, in family order.
pub open spec fn digests(seeds: Seq<u64>, item: Seq<u8>) -> Seq<u64> {
    Seq::new(seeds.len(), |k: int| digest(seeds[k], item))
}

/// Evaluates every member of the family on an item, one after the other.
pub fn compute_digests(seeds: &Vec<u64>, item: &Vec<u8>) -> (hashes: Vec<u64>)
    ensures
        hashes@ == digests(seeds@, item@),
{
    let mut hashes: Vec<u64> = Vec::new();
    let mut k: usize = 0;
    while k < seeds.len()
        invariant
            k <= seeds.len(),
            hashes@ == digests(seeds@, item@).take(k as int),
        decreases seeds.len() - k,
    {
        let d = compute_digest(seeds[k], item);
        assert(hashes@.push(d) =~= digests(seeds@, item@).take(k + 1));
        hashes.push(d);
        k = k + 1;
    }
    assert(digests(seeds@, item@).take(k as int) =~= digests(seeds@, item@));
    hashes
}

/// `RandomState::new`: a hasher factory keyed from the randomness of the
/// process. Nothing is promised of the keys.
#[verifier::external_body]
fn random_state() -> RandomState {
    RandomState::new()
}

/// `RandomState::build_hasher`: a hasher that starts from the factory's keys.
/// Nothing is promised of its state.
#[verifier::external_body]
fn keyed_hasher(state: &RandomState) -> DefaultHasher {
    state.build_hasher()
}

/// Draws one seed from the randomness of the process. Any value may come back.
fn draw_seed() -> u64 {
    let state = random_state();
    let hasher = keyed_hasher(&state);
    hasher.finish()
}

/// Draws `count` seeds, each independently of the others.
pub(crate) fn draw_seeds(count: usize) -> (seeds: Vec<u64>)
    ensures
        seeds@.len() == count,
{
    let mut seeds: Vec<u64> = Vec::new();
    let mut k: usize = 0;
    while k < count
        invariant
            k <= count,
            seeds@.len() == k,
        decreases count - k,
    {
        seeds.push(draw_seed());
        k = k + 1;
    }
    seeds
}

} // verus!
