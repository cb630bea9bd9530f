//! Size and alignment of a block of memory.

use vstd::arithmetic::power2::{is_pow2, pow2};
use vstd::prelude::*;

verus! {

/// Size and alignment of a block of memory; see [`valid_layout`].
#[derive(Clone, Copy, Debug, PartialEq, Eq)]
pub struct Layout {
    size: usize,
    align: usize,
}

/// The error of [`Layout::from_size_align`]: the alignment is not a power
/// of two, or the size is too large for it.
#[derive(Clone, Copy, Debug, PartialEq, Eq, Structural)]
pub struct LayoutError;

/// What makes a size and an alignment a layout: the alignment is a power of
/// two, and the block still ends within `isize` when it starts at the last
/// byte before a multiple of the alignment.
pub open spec fn valid_layout(size: usize, align: usize) -> bool {
    is_pow2(align as int) && size + (align - 1) <= isize::MAX
}

/// The smallest distance from `base` up to a multiple of `align`. An
/// alignment of zero asks for nothing.
pub open spec fn padding_for(base: int, align: int) -> int {
    if align <= 0 {
        0
    } else {
        (align - base % align) % align
    }
}

/// Whether `address` is a multiple of `align`.
pub open spec fn is_aligned(address: int, align: int) -> bool {
    align > 0 && address % align == 0
}

impl Layout {
    #[verifier::type_invariant]
    spec fn valid(self) -> bool {
        valid_layout(self.size, self.align)
    }

    /// Size of the block in bytes.
    pub closed spec fn spec_size(&self) -> usize {
        self.size
    }

    /// Alignment of the block in bytes.
    pub closed spec fn spec_align(&self) -> usize {
        self.align
    }

    /// The layout of a block of `size` bytes at a multiple of `align`, if
    /// there is one.
    pub fn from_size_align(size: usize, align: usize) -> (layout: Result<Layout, LayoutError>)
        ensures
            layout is Ok <==> valid_layout(size, align),
            layout matches Ok(l) ==> l.spec_size() == size && l.spec_align() == align,
    {
        proof {
            lemma_power_of_two_test(align);
        }
        if align == 0 || align & (align - 1) != 0 {
            return Err(LayoutError);
        }
        let limit = isize::MAX as usize;
        if size > limit || align - 1 > limit - size {
            return Err(LayoutError);
        }
        Ok(Layout { size, align })
    }

    /// Size of the block in bytes.
    #[verifier::when_used_as_spec(spec_size)]
    pub fn size(&self) -> (size: usize)
        ensures
            size == self.spec_size(),
            valid_layout(self.spec_size(), self.spec_align()),
    {
        proof {
            use_type_invariant(self);
        }
        self.size
    }

    /// Alignment of the block in bytes, a power of two.
    #[verifier::when_used_as_spec(spec_align)]
    pub fn align(&self) -> (align: usize)
        ensures
            align == self.spec_align(),
            valid_layout(self.spec_size(), self.spec_align()),
    {
        proof {
            use_type_invariant(self);
        }
        self.align
    }
}

/// The smallest distance from `base` up to a multiple of `align`; zero for
/// an alignment of zero.
pub fn next_aligned_offset(base: usize, align: usize) -> (offset: usize)
    ensures
        offset == padding_for(base as int, align as int),
{
    if align == 0 {
        0
    } else {
        let rest = base % align;
        if rest == 0 {
            proof {
                vstd::arithmetic::div_mod::lemma_mod_self_0(align as int);
            }
            0
        } else {
            proof {
                vstd::arithmetic::div_mod::lemma_small_mod((align - rest) as nat, align as nat);
            }
            align - rest
        }
    }
}

/// The padding is the least distance that aligns: adding it to `base`
/// gives a multiple of `align`, it is smaller than `align`, and no smaller
/// distance gives a multiple.
pub proof fn lemma_padding_is_least(base: int, align: int, less: int)
    requires
        0 <= base,
        0 < align,
    ensures
        is_aligned(base + padding_for(base, align), align),
        0 <= padding_for(base, align) < align,
        0 <= less < padding_for(base, align) ==> !is_aligned(base + less, align),
{
    let rest = base % align;
    let quotient = base / align;
    vstd::arithmetic::div_mod::lemma_fundamental_div_mod(base, align);
    vstd::arithmetic::div_mod::lemma_mod_bound(base, align);
    if rest == 0 {
        vstd::arithmetic::div_mod::lemma_mod_self_0(align);
    } else {
        vstd::arithmetic::div_mod::lemma_small_mod((align - rest) as nat, align as nat);
        assert(base + (align - rest) == align * (quotient + 1)) by (nonlinear_arith)
            requires
                base == align * quotient + rest,
        ;
        vstd::arithmetic::div_mod::lemma_mod_multiples_basic(quotient + 1, align);
        assert((align * (quotient + 1)) == ((quotient + 1) * align)) by (nonlinear_arith);
        if 0 <= less < align - rest {
            assert(base + less == quotient * align + (rest + less)) by (nonlinear_arith)
                requires
                    base == align * quotient + rest,
            ;
            vstd::arithmetic::div_mod::lemma_fundamental_div_mod_converse(
                base + less,
                align,
                quotient,
                rest + less,
            );
        }
    }
}

/// An address that is already aligned needs no padding, and only such an
/// address needs none.
pub proof fn lemma_no_padding_iff_aligned(base: int, align: int)
    requires
        0 <= base,
        0 < align,
    ensures
        padding_for(base, align) == 0 <==> is_aligned(base, align),
{
    let rest = base % align;
    vstd::arithmetic::div_mod::lemma_mod_bound(base, align);
    if rest == 0 {
        vstd::arithmetic::div_mod::lemma_mod_self_0(align);
    } else {
        vstd::arithmetic::div_mod::lemma_small_mod((align - rest) as nat, align as nat);
    }
}

/// The bit test for a power of two: exactly the powers of two are not zero
/// and share no bit with their predecessor.
pub proof fn lemma_power_of_two_test(a: usize)
    ensures
        is_pow2(a as int) <==> (a != 0 && a & ((a - 1) as usize) == 0),
    decreases a,
{
    reveal(is_pow2);
    if a == 0 {
    } else if a == 1 {
        assert(1usize & ((1usize - 1) as usize) == 0) by (bit_vector);
    } else {
        let half: usize = a / 2;
        lemma_power_of_two_test(half);
        assert((a & ((a - 1) as usize) == 0) <==> (a % 2 == 0 && half != 0 && half & ((half - 1) as usize)
            == 0)) by (bit_vector)
            requires
                a > 1,
                half == a / 2,
        ;
    }
}

/// The mask test for alignment: an address is a multiple of a power of two
/// exactly when it shares no bit with the power's predecessor.
pub proof fn lemma_mask_test(address: usize, align: usize)
    requires
        is_pow2(align as int),
    ensures
        align > 0,
        (((align - 1) as usize) & address == 0) <==> is_aligned(address as int, align as int),
{
    lemma_power_of_two_test(align);
    vstd::arithmetic::power2::is_pow2_equiv(align as int);
    let k = choose|k: nat| vstd::arithmetic::power::pow(2, k) == align as int;
    assert(pow2(k) == align);
    vstd::arithmetic::power2::lemma2_to64();
    vstd::arithmetic::power2::lemma2_to64_rest();
    if k > usize::BITS {
        vstd::arithmetic::power2::lemma_pow2_strictly_increases(usize::BITS as nat, k);
    }
    assert(k < usize::BITS);
    vstd::bits::lemma_usize_low_bits_mask_is_mod(address, k);
    let mask = (align - 1) as usize;
    assert(mask == vstd::bits::low_bits_mask(k) as usize);
    assert(mask & address == address & mask) by (bit_vector);
}

} // verus!
