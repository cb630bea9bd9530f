//! Allocation from a caller's buffer.
//!
//! A [`SingleLocalAllocator`] hands out blocks of a byte buffer that its
//! caller lends it. It keeps one cursor: everything below the cursor has
//! been handed out, everything from the cursor on is free. A request is
//! served at the first address at or after the cursor that has the
//! requested alignment, and moves the cursor past the block. Nothing is
//! ever taken back, so no two blocks overlap.
//!
//! [`SingleLocalAllocator::allocate`] copies a value into a fresh block and
//! returns a [`LocalBox`], the handle through which the block is read and
//! written while it lives.

use crate::layout::{is_aligned, lemma_padding_is_least, lemma_power_of_two_test};
use crate::layout::{next_aligned_offset, padding_for};
use crate::layout::{valid_layout, Layout};
use vstd::prelude::*;

verus! {

/// An allocator over one region of memory that answers with offsets into
/// the region.
pub trait LocalAllocator {
    /// Address of the first byte of the region.
    spec fn region_base(&self) -> int;

    /// Length of the region in bytes.
    spec fn region_len(&self) -> int;

    /// Reserves a block of the given layout and returns the offset of its
    /// first byte, or `None` if the region cannot hold it. A block lies
    /// within the region, at an address with the layout's alignment.
    fn alloc_raw(&mut self, layout: Layout) -> (offset: Option<usize>)
        ensures
            final(self).region_base() == old(self).region_base(),
            final(self).region_len() == old(self).region_len(),
            offset matches Some(start) ==> {
                &&& start + layout.size() <= old(self).region_len()
                &&& is_aligned(old(self).region_base() + start, layout.align() as int)
            },
    ;

    /// Takes back the block at `offset`.
    fn dealloc_raw(&mut self, offset: usize, layout: Layout)
        ensures
            final(self).region_base() == old(self).region_base(),
            final(self).region_len() == old(self).region_len(),
    ;
}

/// A bump allocator over a borrowed byte buffer.
pub struct SingleLocalAllocator<'a> {
    mem: &'a mut [u8],
    base: usize,
    used: usize,
}

/// A block of a [`SingleLocalAllocator`]'s buffer, held exclusively.
///
/// The handle borrows the allocator for as long as it lives; the allocator
/// is whatever the handle leaves behind.
pub struct LocalBox<'b, 'a> {
    /// The allocator that the block comes from.
    pub allocator: &'b mut SingleLocalAllocator<'a>,
    /// Offset of the block's first byte in the allocator's buffer.
    pub offset: usize,
    /// Size and alignment of the block.
    pub layout: Layout,
}

/// Where a block of alignment `align` starts in a buffer at address `base`
/// of which `used` bytes are taken: at the first aligned address from the
/// cursor on. The result is an offset into the buffer.
pub open spec fn block_start(base: int, used: int, align: int) -> int {
    used + padding_for(base + used, align)
}

/// Whether a block of `size` bytes and alignment `align` still fits into a
/// buffer of `capacity` bytes at address `base` of which `used` are taken.
pub open spec fn block_fits(base: int, capacity: int, used: int, size: int, align: int) -> bool {
    block_start(base, used, align) + size <= capacity
}

/// `buffer` with the bytes from `start` on replaced by `value`.
pub open spec fn with_block(buffer: Seq<u8>, start: int, value: Seq<u8>) -> Seq<u8> {
    buffer.subrange(0, start) + value + buffer.subrange(start + value.len(), buffer.len() as int)
}

impl<'a> SingleLocalAllocator<'a> {
    #[verifier::type_invariant]
    spec fn inv(self) -> bool {
        &&& self.used <= self.mem@.len()
        &&& self.base + self.mem@.len() <= usize::MAX
    }

    /// Address of the first byte of the buffer.
    pub closed spec fn base(&self) -> int {
        self.base as int
    }

    /// The bump cursor: number of bytes, from the start of the buffer, that
    /// are handed out or skipped for alignment.
    pub closed spec fn used(&self) -> int {
        self.used as int
    }

    /// What the buffer holds.
    pub closed spec fn buffer(&self) -> Seq<u8> {
        self.mem@
    }

    /// Length of the buffer.
    pub open spec fn capacity(&self) -> int {
        self.buffer().len() as int
    }

    /// An allocator over `mem`, with nothing handed out.
    pub fn new(mem: &'a mut [u8]) -> (allocator: SingleLocalAllocator<'a>)
        ensures
            allocator.buffer() == old(mem)@,
            allocator.used() == 0,
            0 <= allocator.base(),
            allocator.base() + allocator.capacity() <= usize::MAX,
    {
        let base = buffer_address(mem);
        SingleLocalAllocator { mem, base, used: 0 }
    }

    /// Address of the first byte of the buffer.
    pub fn base_address(&self) -> (address: usize)
        ensures
            address == self.base(),
            address + self.capacity() <= usize::MAX,
    {
        proof {
            use_type_invariant(self);
        }
        self.base
    }

    /// Number of bytes that are handed out or skipped for alignment.
    pub fn used_bytes(&self) -> (used: usize)
        ensures
            used == self.used(),
            used <= self.capacity(),
    {
        proof {
            use_type_invariant(self);
        }
        self.used
    }

    /// The whole buffer.
    pub fn as_slice(&self) -> (bytes: &[u8])
        ensures
            bytes@ == self.buffer(),
    {
        &*self.mem
    }

    /// Copies `value` into a fresh block with the alignment `align` and
    /// returns the handle to it.
    ///
    /// Fails if `align` and the length of `value` make no layout, or if
    /// the block does not fit into what is left of the buffer; the
    /// allocator is then unchanged.
    pub fn allocate<'b>(&'b mut self, value: &[u8], align: usize) -> (handle: Result<
        LocalBox<'b, 'a>,
        (),
    >)
        ensures
            handle is Ok <==> valid_layout(value@.len() as usize, align) && block_fits(
                old(self).base(),
                old(self).capacity(),
                old(self).used(),
                value@.len() as int,
                align as int,
            ),
            match handle {
                Ok(b) => {
                    &&& b.wf()
                    &&& b.offset == block_start(
                        old(self).base(),
                        old(self).used(),
                        align as int,
                    )
                    &&& b.layout.size() == value@.len()
                    &&& b.layout.align() == align
                    &&& b.allocator.base() == old(self).base()
                    &&& b.allocator.used() == b.offset + value@.len()
                    &&& b.allocator.buffer() == with_block(
                        old(self).buffer(),
                        b.offset as int,
                        value@,
                    )
                    &&& b.contents() == value@
                    &&& *final(self) == *final(b.allocator)
                },
                Err(_) => *final(self) == *old(self),
            },
    {
        let layout = match Layout::from_size_align(value.len(), align) {
            Ok(x) => x,
            Err(_) => return Err(()),
        };
        let start = match self.alloc_raw(layout) {
            Some(x) => x,
            None => return Err(()),
        };
        proof {
            use_type_invariant(&*self);
        }
        let ghost before = self.mem@;
        let mut i: usize = 0;
        while i < value.len()
            invariant
                i <= value@.len(),
                start + value@.len() <= before.len(),
                self.base + before.len() <= usize::MAX,
                self.mem@.len() == before.len(),
                self.mem@ == with_block(before, start as int, value@.take(i as int)),
                self.base == old(self).base,
                self.used == start + value@.len(),
            decreases value@.len() - i,
        {
            self.mem[start + i] = value[i];
            assert(self.mem@ == with_block(before, start as int, value@.take(i + 1)));
            i = i + 1;
        }
        assert(value@.take(value@.len() as int) == value@);
        Ok(LocalBox { allocator: self, offset: start, layout })
    }
}

impl<'a> LocalAllocator for SingleLocalAllocator<'a> {
    open spec fn region_base(&self) -> int {
        self.base()
    }

    open spec fn region_len(&self) -> int {
        self.capacity()
    }

    /// Reserves the block at the first aligned address from the cursor on,
    /// if it fits, and moves the cursor past it. A request that does not
    /// fit changes nothing.
    fn alloc_raw(&mut self, layout: Layout) -> (offset: Option<usize>)
        ensures
            final(self).base() == old(self).base(),
            final(self).buffer() == old(self).buffer(),
            offset is Some <==> block_fits(
                old(self).base(),
                old(self).capacity(),
                old(self).used(),
                layout.size() as int,
                layout.align() as int,
            ),
            offset matches Some(start) ==> {
                &&& start == block_start(old(self).base(), old(self).used(), layout.align() as int)
                &&& final(self).used() == start + layout.size()
            },
            offset is None ==> *final(self) == *old(self),
    {
        proof {
            use_type_invariant(&*self);
        }
        let align = layout.align();
        let size = layout.size();
        let padding = next_aligned_offset(self.base + self.used, align);
        let remaining = self.mem.len() - self.used;
        proof {
            lemma_power_of_two_test(align);
            lemma_padding_is_least(self.base + self.used, align as int, 0);
        }
        if padding <= remaining && size <= remaining - padding {
            let start = self.used + padding;
            self.used = start + size;
            Some(start)
        } else {
            None
        }
    }

    /// Takes back a block. Nothing is reclaimed: the cursor stays where it
    /// is and the buffer keeps what it holds.
    fn dealloc_raw(&mut self, offset: usize, layout: Layout)
        ensures
            *final(self) == *old(self),
    {
    }
}

impl<'b, 'a> LocalBox<'b, 'a> {
    /// The block lies within what the allocator has handed out.
    pub open spec fn wf(&self) -> bool {
        self.offset + self.layout.size() <= self.allocator.used()
    }

    /// What the block holds.
    pub open spec fn contents(&self) -> Seq<u8> {
        self.allocator.buffer().subrange(
            self.offset as int,
            self.offset + self.layout.size(),
        )
    }

    /// Length of the block in bytes.
    pub fn len(&self) -> (len: usize)
        ensures
            len == self.layout.size(),
    {
        self.layout.size()
    }

    /// Byte `i` of the block.
    pub fn get(&self, i: usize) -> (byte: u8)
        requires
            self.wf(),
            i < self.layout.size(),
        ensures
            byte == self.contents()[i as int],
    {
        proof {
            use_type_invariant(&*self.allocator);
        }
        self.allocator.mem[self.offset + i]
    }

    /// Replaces byte `i` of the block. The rest of the buffer keeps what
    /// it holds.
    pub fn set(&mut self, i: usize, byte: u8)
        requires
            old(self).wf(),
            i < old(self).layout.size(),
        ensures
            final(self).wf(),
            final(self).offset == old(self).offset,
            final(self).layout == old(self).layout,
            final(self).allocator.base() == old(self).allocator.base(),
            final(self).allocator.used() == old(self).allocator.used(),
            final(self).allocator.buffer() == old(self).allocator.buffer().update(
                old(self).offset + i,
                byte,
            ),
            final(self).contents() == old(self).contents().update(i as int, byte),
            *final(final(self).allocator) == *final(old(self).allocator),
    {
        proof {
            use_type_invariant(&*self.allocator);
        }
        self.allocator.mem[self.offset + i] = byte;
    }

    /// The block as a slice.
    pub fn as_slice(&self) -> (bytes: &[u8])
        requires
            self.wf(),
        ensures
            bytes@ == self.contents(),
    {
        proof {
            use_type_invariant(&*self.allocator);
        }
        vstd::slice::slice_subrange(
            &*self.allocator.mem,
            self.offset,
            self.offset + self.layout.size(),
        )
    }

    /// Ends the handle and hands the block back to the allocator, which
    /// reclaims nothing: it is left exactly as the handle last saw it.
    pub fn release(self)
        ensures
            *final(self.allocator) == *old(self.allocator),
    {
        self.allocator.dealloc_raw(self.offset, self.layout);
    }
}

/// `as_ptr` of a slice, as an integer: the address of the first byte of
/// `mem`. Which address that is depends on where the buffer lies; a slice
/// never wraps around the end of the address space.
#[verifier::external_body]
fn buffer_address(mem: &[u8]) -> (address: usize)
    ensures
        address + mem@.len() <= usize::MAX,
{
    mem.as_ptr() as usize
}

/// A request for a block.
pub struct BlockRequest {
    /// Number of bytes asked for.
    pub size: int,
    /// Alignment asked for.
    pub align: int,
}

/// The cursor after one request: past the block if the request is served,
/// and where it was if not.
pub open spec fn cursor_after(base: int, capacity: int, used: int, request: BlockRequest) -> int {
    if block_fits(base, capacity, used, request.size, request.align) {
        block_start(base, used, request.align) + request.size
    } else {
        used
    }
}

/// The cursor after a sequence of requests, first to last.
pub open spec fn cursor_after_all(
    base: int,
    capacity: int,
    used: int,
    requests: Seq<BlockRequest>,
) -> int
    decreases requests.len(),
{
    if requests.len() == 0 {
        used
    } else {
        cursor_after(
            base,
            capacity,
            cursor_after_all(base, capacity, used, requests.drop_last()),
            requests.last(),
        )
    }
}

/// Whether none of the requests asks for a negative size.
pub open spec fn sizes_are_natural(requests: Seq<BlockRequest>) -> bool {
    forall|i: int| 0 <= i < requests.len() ==> (#[trigger] requests[i]).size >= 0
}

/// A block starts at or after the cursor.
pub proof fn lemma_block_starts_at_cursor(base: int, used: int, align: int)
    requires
        0 <= base,
        0 <= used,
    ensures
        used <= block_start(base, used, align),
{
    if align > 0 {
        lemma_padding_is_least(base + used, align, 0);
    }
}

/// The cursor never moves back, whatever is asked and whether or not it is
/// served.
pub proof fn lemma_cursor_never_retreats(
    base: int,
    capacity: int,
    used: int,
    requests: Seq<BlockRequest>,
)
    requires
        0 <= base,
        0 <= used,
        sizes_are_natural(requests),
    ensures
        used <= cursor_after_all(base, capacity, used, requests),
    decreases requests.len(),
{
    if requests.len() > 0 {
        let earlier = requests.drop_last();
        assert(sizes_are_natural(earlier)) by {
            assert forall|i: int| 0 <= i < earlier.len() implies (#[trigger] earlier[i]).size
                >= 0 by {
                assert(earlier[i] == requests[i]);
            }
        }
        lemma_cursor_never_retreats(base, capacity, used, earlier);
        lemma_block_starts_at_cursor(
            base,
            cursor_after_all(base, capacity, used, earlier),
            requests.last().align,
        );
    }
}

/// Repeated allocation never returns overlapping blocks: a block that is
/// served after another, with any requests between the two, starts at or
/// after the end of the earlier one, and both lie within the buffer.
pub proof fn lemma_blocks_never_overlap(
    base: int,
    capacity: int,
    used: int,
    first: BlockRequest,
    between: Seq<BlockRequest>,
    second: BlockRequest,
)
    requires
        0 <= base,
        0 <= used,
        0 <= first.size,
        0 <= second.size,
        sizes_are_natural(between),
        block_fits(base, capacity, used, first.size, first.align),
        block_fits(
            base,
            capacity,
            cursor_after_all(base, capacity, cursor_after(base, capacity, used, first), between),
            second.size,
            second.align,
        ),
    ensures
        ({
            let first_start = block_start(base, used, first.align);
            let cursor = cursor_after_all(
                base,
                capacity,
                cursor_after(base, capacity, used, first),
                between,
            );
            let second_start = block_start(base, cursor, second.align);
            &&& 0 <= first_start
            &&& first_start + first.size <= second_start
            &&& second_start + second.size <= capacity
        }),
{
    lemma_block_starts_at_cursor(base, used, first.align);
    let after_first = cursor_after(base, capacity, used, first);
    lemma_cursor_never_retreats(base, capacity, after_first, between);
    lemma_block_starts_at_cursor(
        base,
        cursor_after_all(base, capacity, after_first, between),
        second.align,
    );
}

} // verus!
