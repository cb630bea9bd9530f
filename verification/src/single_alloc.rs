//! The allocator of one fixed block.
//!
//! A [`SingleAllocator`] describes a single region of memory, fixed when
//! the allocator is made. It hands the region out whole, to one holder at a
//! time: a request succeeds if the region is free, large enough, and
//! already aligned as asked, and then returns the region's base address.
//! The occupancy flag sits behind a [`SpinLock`].

use crate::layout::{is_aligned, lemma_mask_test, Layout};
use crate::sync::SpinLock;
use vstd::prelude::*;

verus! {

/// A region of memory and whether it is handed out.
pub struct SlotState {
    /// Address of the first byte of the region.
    pub base: usize,
    /// Size of the region in bytes.
    pub capacity: usize,
    /// Whether the region is handed out.
    pub occupied: bool,
}

/// Whether a region can serve a request for `size` bytes at a multiple of
/// `align`: it is free, it has the room, and its base is so aligned.
pub open spec fn serves(slot: SlotState, size: int, align: int) -> bool {
    !slot.occupied && size <= slot.capacity && is_aligned(slot.base as int, align)
}

/// What a request returns: the base address if it is served.
pub open spec fn allocate_result(slot: SlotState, size: int, align: int) -> Option<usize> {
    if serves(slot, size, align) {
        Some(slot.base)
    } else {
        None
    }
}

/// The region after a request: occupied if the request was served, and as
/// before if not.
pub open spec fn after_allocate(slot: SlotState, size: int, align: int) -> SlotState {
    SlotState { occupied: slot.occupied || serves(slot, size, align), ..slot }
}

/// The region after its block came back.
pub open spec fn after_deallocate(slot: SlotState) -> SlotState {
    SlotState { occupied: false, ..slot }
}

/// The allocator of one fixed block.
pub struct SingleAllocator {
    base: usize,
    capacity: usize,
    in_use: SpinLock<bool>,
}

impl SingleAllocator {
    /// Between operations the occupancy flag's lock is free.
    pub closed spec fn idle(&self) -> bool {
        !self.in_use.is_locked()
    }

    /// The region and its occupancy.
    pub closed spec fn view(&self) -> SlotState {
        SlotState { base: self.base, capacity: self.capacity, occupied: self.in_use.value() }
    }

    /// An allocator for the `capacity` bytes at `base`, free.
    pub fn new(base: usize, capacity: usize) -> (allocator: SingleAllocator)
        ensures
            allocator.idle(),
            allocator@ == (SlotState { base, capacity, occupied: false }),
    {
        SingleAllocator { base, capacity, in_use: SpinLock::new(false) }
    }

    /// Base address of the region.
    pub fn base(&self) -> (base: usize)
        ensures
            base == self@.base,
    {
        self.base
    }

    /// Size of the region in bytes.
    pub fn capacity(&self) -> (capacity: usize)
        ensures
            capacity == self@.capacity,
    {
        self.capacity
    }

    /// The address that is handed out at the moment, if any.
    pub fn outstanding(&mut self) -> (address: Option<usize>)
        requires
            old(self).idle(),
        ensures
            final(self).idle(),
            final(self)@ == old(self)@,
            address == if old(self)@.occupied {
                Some(old(self)@.base)
            } else {
                None
            },
    {
        let in_use_guard = self.in_use.lock();
        let occupied = *in_use_guard.get();
        in_use_guard.release();
        if occupied {
            Some(self.base)
        } else {
            None
        }
    }

    /// Asks for a block of the given layout.
    ///
    /// The request is served, with the region's base address, exactly when
    /// the region is free, at least as large as the layout, and based at a
    /// multiple of the layout's alignment. The region is then occupied
    /// until the block comes back.
    pub fn allocate(&mut self, layout: Layout) -> (address: Option<usize>)
        requires
            old(self).idle(),
        ensures
            final(self).idle(),
            address == allocate_result(old(self)@, layout.size() as int, layout.align() as int),
            final(self)@ == after_allocate(
                old(self)@,
                layout.size() as int,
                layout.align() as int,
            ),
    {
        let size = layout.size();
        let align = layout.align();
        proof {
            lemma_mask_test(self.base, align);
        }
        if size <= self.capacity && (align - 1) & self.base == 0 {
            let mut in_use_guard = self.in_use.lock();
            let free = !*in_use_guard.get();
            if free {
                in_use_guard.set(true);
            }
            in_use_guard.release();
            if free {
                Some(self.base)
            } else {
                None
            }
        } else {
            None
        }
    }

    /// Takes the block back; the region is free again.
    ///
    /// Only the block that is handed out can come back: the region must be
    /// occupied and `address` must be its base.
    pub fn deallocate(&mut self, address: usize, layout: Layout)
        requires
            old(self).idle(),
            old(self)@.occupied,
            address == old(self)@.base,
        ensures
            final(self).idle(),
            final(self)@ == after_deallocate(old(self)@),
    {
        let mut in_use_guard = self.in_use.lock();
        in_use_guard.set(false);
        in_use_guard.release();
    }
}

/// One block at a time: while a block is out, every request fails, whatever
/// it asks for.
pub proof fn lemma_one_outstanding(
    slot: SlotState,
    first_size: int,
    first_align: int,
    second_size: int,
    second_align: int,
)
    requires
        allocate_result(slot, first_size, first_align) is Some,
    ensures
        allocate_result(
            after_allocate(slot, first_size, first_align),
            second_size,
            second_align,
        ) is None,
{
}

/// A block that came back can be handed out again, at the same address.
pub proof fn lemma_reuse_after_deallocate(slot: SlotState, size: int, align: int)
    requires
        allocate_result(slot, size, align) is Some,
    ensures
        allocate_result(after_deallocate(after_allocate(slot, size, align)), size, align)
            == allocate_result(slot, size, align),
{
}

} // verus!
