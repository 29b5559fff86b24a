//! What holds of every filter, proved over the model of `FilterState`.

use crate::filter::FilterState;
use vstd::prelude::*;

verus! {

/// Setting slots changes neither the length of the bitmap nor the seeds, so
/// a well-formed filter stays well-formed and every item keeps its digests
/// and its slots.
pub proof fn lemma_with_hashes_keeps_shape(s: FilterState, hashes: Seq<u64>)
    ensures
        s.with_hashes(hashes).bits.len() == s.bits.len(),
        s.with_hashes(hashes).seeds == s.seeds,
        s.wf() ==> s.with_hashes(hashes).wf(),
{
}

/// A bit that is set stays set when further slots are set: only `cleared`
/// resets bits.
pub proof fn lemma_with_hashes_keeps_bits(s: FilterState, hashes: Seq<u64>, j: int)
    requires
        0 <= j < s.bits.len(),
        s.bits[j],
    ensures
        s.with_hashes(hashes).bits[j],
{
}

/// After the slots of some digests were set, the filter covers those digests.
pub proof fn lemma_with_hashes_covers(s: FilterState, hashes: Seq<u64>)
    requires
        s.wf(),
    ensures
        s.with_hashes(hashes).covers(hashes),
{
    let after = s.with_hashes(hashes);
    assert forall|k: int| 0 <= k < hashes.len() implies after.bits[after.slot_of(
        #[trigger] hashes[k],
    )] by {
        let j = s.slot_of(hashes[k]);
        assert(0 <= j < s.bits.len());
        assert(s.marks(hashes, j));
    }
}

/// Digests that the filter covers are still covered after the slots of other
/// digests were set.
pub proof fn lemma_with_hashes_keeps_covered(s: FilterState, hashes: Seq<u64>, others: Seq<u64>)
    requires
        s.wf(),
        s.covers(others),
    ensures
        s.with_hashes(hashes).covers(others),
{
    let after = s.with_hashes(hashes);
    assert forall|k: int| 0 <= k < others.len() implies after.bits[after.slot_of(
        #[trigger] others[k],
    )] by {
        let j = s.slot_of(others[k]);
        assert(0 <= j < s.bits.len());
        assert(s.bits[j]);
    }
}

/// Two runs of digests that hold the same values, in whatever order and
/// however often, set the same slots and are covered by the same filters.
pub proof fn lemma_order_of_hashes_is_irrelevant(s: FilterState, first: Seq<u64>, second: Seq<u64>)
    requires
        forall|h: u64| first.contains(h) <==> second.contains(h),
    ensures
        s.with_hashes(first) == s.with_hashes(second),
        s.covers(first) == s.covers(second),
{
    assert forall|j: int| s.marks(first, j) == s.marks(second, j) by {
        if s.marks(first, j) {
            lemma_marks_of_subset(s, first, second, j);
        }
        if s.marks(second, j) {
            lemma_marks_of_subset(s, second, first, j);
        }
    }
    assert(s.with_hashes(first).bits =~= s.with_hashes(second).bits);
    if s.covers(second) {
        lemma_covers_of_subset(s, first, second);
    }
    if s.covers(first) {
        lemma_covers_of_subset(s, second, first);
    }
}

proof fn lemma_marks_of_subset(s: FilterState, small: Seq<u64>, large: Seq<u64>, j: int)
    requires
        forall|h: u64| small.contains(h) ==> large.contains(h),
        s.marks(small, j),
    ensures
        s.marks(large, j),
{
    let k = choose|k: int| 0 <= k < small.len() && #[trigger] s.slot_of(small[k]) == j;
    assert(small.contains(small[k]));
    let w = choose|w: int| 0 <= w < large.len() && large[w] == small[k];
    assert(s.slot_of(large[w]) == j);
}

proof fn lemma_covers_of_subset(s: FilterState, small: Seq<u64>, large: Seq<u64>)
    requires
        forall|h: u64| small.contains(h) ==> large.contains(h),
        s.covers(large),
    ensures
        s.covers(small),
{
    assert forall|k: int| 0 <= k < small.len() implies s.bits[s.slot_of(#[trigger] small[k])] by {
        assert(small.contains(small[k]));
        let w = choose|w: int| 0 <= w < large.len() && large[w] == small[k];
        assert(s.bits[s.slot_of(large[w])]);
    }
}

/// No false negatives: once an item was inserted, the filter matches it.
pub proof fn lemma_inserted_item_matches(s: FilterState, item: Seq<u8>)
    requires
        s.wf(),
    ensures
        s.insert(item).matches(item),
{
    lemma_with_hashes_covers(s, s.hashes_of(item));
    assert(s.insert(item).hashes_of(item) == s.hashes_of(item));
}

/// No false negatives, later on: an item that the filter matches is still
/// matched after any other item was inserted.
pub proof fn lemma_insert_keeps_matches(s: FilterState, item: Seq<u8>, other: Seq<u8>)
    requires
        s.wf(),
        s.matches(other),
    ensures
        s.insert(item).matches(other),
{
    lemma_with_hashes_keeps_covered(s, s.hashes_of(item), s.hashes_of(other));
    assert(s.insert(item).hashes_of(other) == s.hashes_of(other));
}

/// Inserting an item that the filter already matches changes nothing.
pub proof fn lemma_insert_of_matched_item_is_idle(s: FilterState, item: Seq<u8>)
    requires
        s.wf(),
        s.matches(item),
    ensures
        s.insert(item) == s,
{
    let hashes = s.hashes_of(item);
    assert forall|j: int| 0 <= j < s.bits.len() && s.marks(hashes, j) implies s.bits[j] by {
        let k = choose|k: int| 0 <= k < hashes.len() && #[trigger] s.slot_of(hashes[k]) == j;
        assert(s.bits[s.slot_of(hashes[k])]);
    }
    assert(s.insert(item).bits =~= s.bits);
}

/// A filter without a set bit matches no item.
pub proof fn lemma_empty_matches_nothing(bit_count: nat, seeds: Seq<u64>, item: Seq<u8>)
    requires
        bit_count > 0,
        seeds.len() > 0,
    ensures
        !FilterState::empty(bit_count, seeds).matches(item),
{
    let s = FilterState::empty(bit_count, seeds);
    let hashes = s.hashes_of(item);
    let j = s.slot_of(hashes[0]);
    assert(0 <= j < s.bits.len());
    assert(!s.bits[j]);
}

/// Clearing resets fully: a cleared filter matches no item, whatever was
/// inserted before. Its bitmap keeps its length and its seeds stay.
pub proof fn lemma_cleared_matches_nothing(s: FilterState, item: Seq<u8>)
    requires
        s.wf(),
    ensures
        !s.cleared().matches(item),
        s.cleared() == FilterState::empty(s.bits.len(), s.seeds),
        s.cleared().wf(),
{
    lemma_empty_matches_nothing(s.bits.len(), s.seeds, item);
}

} // verus!
