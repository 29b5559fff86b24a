//! The filter itself: a bitmap and a family of seeds, with the operations
//! `set`, `check` and `clear`, and the mathematical model they are stated in.

use crate::bitmap::zeros;
use crate::bitmap::Bitmap;
use crate::hashing::compute_digest;
use crate::hashing::compute_digests;
use crate::hashing::digest;
use crate::hashing::digests;
use crate::hashing::draw_seeds;
use crate::laws::lemma_cleared_matches_nothing;
use crate::laws::lemma_empty_matches_nothing;
use crate::laws::lemma_inserted_item_matches;
use vstd::prelude::*;

verus! {

/// What a filter is, mathematically: the bits of its bitmap and the seeds of
/// its hash functions.
pub struct FilterState {
    pub bits: Seq<bool>,
    pub seeds: Seq<u64>,
}

impl FilterState {
    /// A filter has at least one bit and at least one hash function.
    pub open spec fn wf(self) -> bool {
        self.bits.len() > 0 && self.seeds.len() > 0
    }

    /// The filter with the given seeds and `bit_count` bits, none of them set.
    pub open spec fn empty(bit_count: nat, seeds: Seq<u64>) -> FilterState {
        FilterState { bits: zeros(bit_count), seeds }
    }

    /// The index of the bit that a digest stands for.
    pub open spec fn slot_of(self, hash: u64) -> int {
        (hash as int) % (self.bits.len() as int)
    }

    /// The digests of an item, one per hash function, in family order.
    pub open spec fn hashes_of(self, item: Seq<u8>) -> Seq<u64> {
        digests(self.seeds, item)
    }

    /// Whether bit `j` is the slot of one of the given digests.
    pub open spec fn marks(self, hashes: Seq<u64>, j: int) -> bool {
        exists|k: int| 0 <= k < hashes.len() && #[trigger] self.slot_of(hashes[k]) == j
    }

    /// The state after the slot of every given digest was set.
    pub open spec fn with_hashes(self, hashes: Seq<u64>) -> FilterState {
        FilterState {
            bits: Seq::new(self.bits.len(), |j: int| self.bits[j] || self.marks(hashes, j)),
            seeds: self.seeds,
        }
    }

    /// Whether the slot of every given digest is set.
    pub open spec fn covers(self, hashes: Seq<u64>) -> bool {
        forall|k: int| 0 <= k < hashes.len() ==> self.bits[self.slot_of(#[trigger] hashes[k])]
    }

    /// The state after an item was inserted.
    pub open spec fn insert(self, item: Seq<u8>) -> FilterState {
        self.with_hashes(self.hashes_of(item))
    }

    /// Whether the filter answers "possibly present" for an item.
    pub open spec fn matches(self, item: Seq<u8>) -> bool {
        self.covers(self.hashes_of(item))
    }

    /// The state after every bit was reset. The seeds stay.
    pub open spec fn cleared(self) -> FilterState {
        FilterState { bits: zeros(self.bits.len()), seeds: self.seeds }
    }
}

/// Why a filter could not be built.
#[derive(Debug, Clone, Copy, PartialEq, Eq, Structural)]
pub enum ConstructionError {
    /// The bitmap would have no bits.
    EmptyBitmap,
    /// The family would have no hash functions.
    EmptyFamily,
}

/// A Bloom filter over byte strings.
pub struct Bloom {
    bitmap: Bitmap,
    filter_size: usize,
    hash_size: usize,
    hash_functions: Vec<u64>,
}

impl View for Bloom {
    type V = FilterState;

    closed spec fn view(&self) -> FilterState {
        FilterState { bits: self.bitmap@, seeds: self.hash_functions@ }
    }
}

impl Bloom {
    /// The two recorded sizes are those of the bitmap and of the family.
    pub closed spec fn sizes_agree(&self) -> bool {
        self.filter_size == self.bitmap@.len() && self.hash_size == self.hash_functions@.len()
    }

    /// The invariant of every filter that a constructor hands out.
    pub open spec fn wf(&self) -> bool {
        self.sizes_agree() && self@.wf()
    }

    /// Builds an empty filter of `filter_size` bits around the given seeds,
    /// one hash function per seed.
    pub fn with_seeds(filter_size: usize, seeds: Vec<u64>) -> (built: Result<Bloom, ConstructionError>)
        ensures
            filter_size == 0 ==> built == Err::<Bloom, ConstructionError>(
                ConstructionError::EmptyBitmap,
            ),
            filter_size > 0 && seeds@.len() == 0 ==> built == Err::<Bloom, ConstructionError>(
                ConstructionError::EmptyFamily,
            ),
            filter_size > 0 && seeds@.len() > 0 ==> built.is_ok() && built.unwrap().wf()
                && built.unwrap()@ == FilterState::empty(filter_size as nat, seeds@),
            built.is_ok() ==> forall|item: Seq<u8>| !(#[trigger] built.unwrap()@.matches(item)),
    {
        if filter_size == 0 {
            return Err(ConstructionError::EmptyBitmap);
        }
        if seeds.len() == 0 {
            return Err(ConstructionError::EmptyFamily);
        }
        let hash_size = seeds.len();
        let bloom = Bloom {
            bitmap: Bitmap::new(filter_size),
            filter_size,
            hash_size,
            hash_functions: seeds,
        };
        proof {
            assert forall|item: Seq<u8>| !(#[trigger] bloom@.matches(item)) by {
                lemma_empty_matches_nothing(filter_size as nat, bloom@.seeds, item);
            }
        }
        Ok(bloom)
    }

    /// Builds an empty filter of `filter_size` bits with `hash_size` hash
    /// functions, whose seeds are drawn from the randomness of the process.
    pub fn new(filter_size: usize, hash_size: usize) -> (built: Result<Bloom, ConstructionError>)
        ensures
            filter_size == 0 ==> built == Err::<Bloom, ConstructionError>(
                ConstructionError::EmptyBitmap,
            ),
            filter_size > 0 && hash_size == 0 ==> built == Err::<Bloom, ConstructionError>(
                ConstructionError::EmptyFamily,
            ),
            filter_size > 0 && hash_size > 0 ==> built.is_ok() && built.unwrap().wf()
                && built.unwrap()@.bits == zeros(filter_size as nat)
                && built.unwrap()@.seeds.len() == hash_size,
            built.is_ok() ==> forall|item: Seq<u8>| !(#[trigger] built.unwrap()@.matches(item)),
    {
        if filter_size == 0 {
            return Err(ConstructionError::EmptyBitmap);
        }
        Bloom::with_seeds(filter_size, draw_seeds(hash_size))
    }

    /// The number of bits in the bitmap.
    pub fn filter_size(&self) -> (n: usize)
        requires
            self.wf(),
        ensures
            n == self@.bits.len(),
            n > 0,
    {
        self.filter_size
    }

    /// The number of hash functions in the family.
    pub fn hash_size(&self) -> (n: usize)
        requires
            self.wf(),
        ensures
            n == self@.seeds.len(),
            n > 0,
    {
        self.hash_size
    }

    /// The digest of `item` under the hash function at `index`.
    pub fn hash_at(&self, index: usize, item: &Vec<u8>) -> (hash: u64)
        requires
            self.wf(),
            index < self@.seeds.len(),
        ensures
            hash == digest(self@.seeds[index as int], item@),
            hash == self@.hashes_of(item@)[index as int],
    {
        compute_digest(self.hash_functions[index], item)
    }

    /// The digests of `item` under every hash function, in family order.
    pub fn bloom_hash(&self, item: &Vec<u8>) -> (hashes: Vec<u64>)
        requires
            self.wf(),
        ensures
            hashes@ == self@.hashes_of(item@),
    {
        compute_digests(&self.hash_functions, item)
    }

    /// Sets the slot of every given digest.
    pub fn set_hashes(&mut self, hashes: &Vec<u64>)
        requires
            old(self).wf(),
        ensures
            final(self).wf(),
            final(self)@ == old(self)@.with_hashes(hashes@),
    {
        let ghost before = self@;
        let mut k: usize = 0;
        assert(before.with_hashes(hashes@.take(0)).bits =~= before.bits);
        while k < hashes.len()
            invariant
                k <= hashes.len(),
                self.wf(),
                before.wf(),
                self@ == before.with_hashes(hashes@.take(k as int)),
            decreases hashes.len() - k,
        {
            let bit_offset = (hashes[k] % (self.filter_size as u64)) as usize;
            proof {
                let sooner = hashes@.take(k as int);
                let later = hashes@.take(k + 1);
                assert(before.slot_of(hashes@[k as int]) == bit_offset);
                assert forall|j: int| 0 <= j < before.bits.len() implies (before.marks(later, j) <==> (
                before.marks(sooner, j) || j == bit_offset)) by {
                    if before.marks(sooner, j) {
                        let w = choose|w: int|
                            0 <= w < sooner.len() && #[trigger] before.slot_of(sooner[w]) == j;
                        assert(before.slot_of(later[w]) == j);
                    }
                    if j == bit_offset {
                        assert(before.slot_of(later[k as int]) == j);
                    }
                    if before.marks(later, j) {
                        let w = choose|w: int|
                            0 <= w < later.len() && #[trigger] before.slot_of(later[w]) == j;
                        if w < k {
                            assert(before.slot_of(sooner[w]) == j);
                        }
                    }
                }
                assert(self@.bits.update(bit_offset as int, true) =~= before.with_hashes(later).bits);
            }
            self.bitmap.set_bit(bit_offset);
            k = k + 1;
        }
        assert(hashes@.take(k as int) =~= hashes@);
    }

    /// Whether the slot of every given digest is set.
    pub fn check_hashes(&self, hashes: &Vec<u64>) -> (present: bool)
        requires
            self.wf(),
        ensures
            present == self@.covers(hashes@),
    {
        let mut k: usize = 0;
        while k < hashes.len()
            invariant
                k <= hashes.len(),
                self.wf(),
                self@.covers(hashes@.take(k as int)),
            decreases hashes.len() - k,
        {
            let bit_offset = (hashes[k] % (self.filter_size as u64)) as usize;
            assert(self@.slot_of(hashes@[k as int]) == bit_offset);
            if !self.bitmap.get_bit(bit_offset) {
                return false;
            }
            proof {
                let later = hashes@.take(k + 1);
                assert forall|w: int| 0 <= w < later.len() implies self@.bits[self@.slot_of(
                    #[trigger] later[w],
                )] by {
                    if w < k {
                        assert(hashes@.take(k as int)[w] == later[w]);
                    }
                }
            }
            k = k + 1;
        }
        assert(hashes@.take(k as int) =~= hashes@);
        true
    }

    /// Records an item: sets the bit that each of its digests stands for.
    pub fn set(&mut self, item: &Vec<u8>)
        requires
            old(self).wf(),
        ensures
            final(self).wf(),
            final(self)@ == old(self)@.insert(item@),
            final(self)@.matches(item@),
    {
        let hash_values = self.bloom_hash(item);
        self.set_hashes(&hash_values);
        proof {
            lemma_inserted_item_matches(old(self)@, item@);
        }
    }

    /// Whether an item is possibly present: `true` exactly when the bit of
    /// each of its digests is set.
    pub fn check(&self, item: &Vec<u8>) -> (present: bool)
        requires
            self.wf(),
        ensures
            present == self@.matches(item@),
    {
        let hash_values = self.bloom_hash(item);
        self.check_hashes(&hash_values)
    }

    /// Forgets every item: resets all bits. The hash functions stay.
    pub fn clear(&mut self)
        requires
            old(self).wf(),
        ensures
            final(self).wf(),
            final(self)@ == old(self)@.cleared(),
            forall|item: Seq<u8>| !(#[trigger] final(self)@.matches(item)),
    {
        self.bitmap.clear_all();
        proof {
            assert forall|item: Seq<u8>| !(#[trigger] self@.matches(item)) by {
                lemma_cleared_matches_nothing(old(self)@, item);
            }
        }
    }
}

} // verus!
