use vstd::prelude::*;

use crate::level::MAX_NUM_REGIONS;

verus! {

/// A fixed-capacity set of region ids, backed by a `bitmaps::Bitmap` sized to
/// `MAX_NUM_REGIONS`. The bitmap type's declaration goes through the crate's
/// `Bits` trait, which Verus refuses, so the value is held opaquely and
/// reached only through the trusted accessors below.
#[verifier::external_body]
pub struct RegionSet {
    bits: bitmaps::Bitmap<MAX_NUM_REGIONS>,
}

/// The set of region ids whose bit is true in a region-id bitset.
pub uninterp spec fn bitset_elems(b: RegionSet) -> Set<int>;

impl View for RegionSet {
    type V = Set<int>;

    open spec fn view(&self) -> Set<int> {
        bitset_elems(*self)
    }
}

/// Relies on bitmaps' Bitmap::new: every bit of a fresh bitmap is false.
#[verifier::external_body]
fn rs_new() -> (b: RegionSet)
    ensures
        bitset_elems(b) == Set::<int>::empty(),
{
    RegionSet { bits: bitmaps::Bitmap::new() }
}

/// Relies on bitmaps' Bitmap::get, which reads the bit at an in-range index.
#[verifier::external_body]
fn rs_get(b: &RegionSet, i: usize) -> (r: bool)
    requires
        i < MAX_NUM_REGIONS,
    ensures
        r == bitset_elems(*b).contains(i as int),
{
    b.bits.get(i)
}

/// Relies on bitmaps' Bitmap::set, which writes the bit at an in-range index
/// and leaves every other bit as it was.
#[verifier::external_body]
fn rs_set(b: &mut RegionSet, i: usize, value: bool)
    requires
        i < MAX_NUM_REGIONS,
    ensures
        value ==> bitset_elems(*final(b)) == bitset_elems(*old(b)).insert(i as int),
        !value ==> bitset_elems(*final(b)) == bitset_elems(*old(b)).remove(i as int),
{
    let _ = b.bits.set(i, value);
}

/// Relies on bitmaps' Bitmap implementing Copy: a copy holds the same bits.
#[verifier::external_body]
pub(crate) fn rs_copy(b: &RegionSet) -> (r: RegionSet)
    ensures
        bitset_elems(r) == bitset_elems(*b),
{
    RegionSet { bits: b.bits }
}

impl RegionSet {
    /// An empty region-id set.
    pub fn new() -> (s: RegionSet)
        ensures
            s@ == Set::<int>::empty(),
    {
        rs_new()
    }

    /// Whether region id `i` is in the set.
    pub fn contains(&self, i: usize) -> (r: bool)
        requires
            i < MAX_NUM_REGIONS,
        ensures
            r == self@.contains(i as int),
    {
        rs_get(self, i)
    }

    /// Adds region id `i` to the set.
    pub fn insert(&mut self, i: usize)
        requires
            i < MAX_NUM_REGIONS,
        ensures
            final(self)@ == old(self)@.insert(i as int),
    {
        rs_set(self, i, true)
    }
}

} // verus!
