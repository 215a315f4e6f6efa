//! The bounded first-in first-out store for samples.
//!
//! The store is a `ringbuf::LocalRb`. Verus does not look inside it: what it
//! holds and how much it can hold are named below, and each operation states
//! over those names what `ringbuf` does.

use ringbuf::ring_buffer::RbBase;
use ringbuf::{LocalRb, Rb};
use std::mem::MaybeUninit;
use vstd::prelude::*;

verus! {

/// One PCM sample, carried as the bit pattern of its single-precision
/// value. Samples are stored, moved and counted here, never calculated with.
pub type Sample = u32;

/// A ring of samples with a fixed capacity, for use in one thread.
///
/// Trusted: the field is a `ringbuf::LocalRb`, which Verus cannot read.
#[verifier::external_body]
pub struct SampleRing {
    inner: LocalRb<Sample, Vec<MaybeUninit<Sample>>>,
}

/// The samples in the ring, oldest first.
pub uninterp spec fn ring_items(ring: &SampleRing) -> Seq<Sample>;

/// The capacity the ring was made with.
pub uninterp spec fn ring_capacity(ring: &SampleRing) -> nat;

impl SampleRing {
    /// `LocalRb::new`: an empty ring of the given capacity. The call panics
    /// for a capacity of zero, and for one whose storage would not fit the
    /// address space.
    #[verifier::external_body]
    pub(crate) fn with_capacity(capacity: usize) -> (ring: SampleRing)
        requires
            0 < capacity <= isize::MAX / 4,
        ensures
            ring_items(&ring) == Seq::<Sample>::empty(),
            ring_capacity(&ring) == capacity,
    {
        SampleRing { inner: LocalRb::new(capacity) }
    }

    /// `Rb::len`: the number of samples stored, never above the capacity.
    #[verifier::external_body]
    pub(crate) fn len(&self) -> (n: usize)
        ensures
            n == ring_items(self).len(),
            n <= ring_capacity(self),
    {
        self.inner.len()
    }

    /// `RbBase::is_full`: whether no free place is left.
    #[verifier::external_body]
    pub(crate) fn is_full(&self) -> (full: bool)
        ensures
            full == (ring_items(self).len() == ring_capacity(self)),
    {
        self.inner.is_full()
    }

    /// `Rb::push_slice`: appends the slice behind what is stored. The call
    /// panics when the slice is longer than the free space.
    #[verifier::external_body]
    pub(crate) fn push_slice(&mut self, items: &[Sample])
        requires
            ring_items(old(self)).len() + items@.len() <= ring_capacity(old(self)),
        ensures
            ring_items(final(self)) == ring_items(old(self)) + items@,
            ring_capacity(final(self)) == ring_capacity(old(self)),
    {
        self.inner.push_slice(items)
    }

    /// `Rb::push_overwrite`: appends one sample; a full ring first gives up
    /// its oldest sample, which is returned.
    #[verifier::external_body]
    pub(crate) fn push_overwrite(&mut self, item: Sample) -> (dropped: Option<Sample>)
        ensures
            ring_capacity(final(self)) == ring_capacity(old(self)),
            ring_items(old(self)).len() < ring_capacity(old(self)) ==> dropped.is_none()
                && ring_items(final(self)) == ring_items(old(self)).push(item),
            ring_items(old(self)).len() >= ring_capacity(old(self)) ==> dropped == Some(
                ring_items(old(self))[0],
            ) && ring_items(final(self)) == ring_items(old(self)).drop_first().push(item),
    {
        self.inner.push_overwrite(item)
    }

    /// `Rb::pop_iter`, run to its end: hands out every stored sample,
    /// oldest first, and leaves the ring empty.
    #[verifier::external_body]
    pub(crate) fn drain(&mut self) -> (items: Vec<Sample>)
        ensures
            items@ == ring_items(old(self)),
            ring_items(final(self)) == Seq::<Sample>::empty(),
            ring_capacity(final(self)) == ring_capacity(old(self)),
    {
        self.inner.pop_iter().collect()
    }
}

} // verus!
