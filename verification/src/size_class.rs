//! Chooses a block size and page kind for each allocation request.
//!
//! ```text
//! requested bytes -> class index -> block size -> page kind
//!
//! Small:      blocks through 10 KiB  -> 64 KiB page
//! Medium:     blocks through 80 KiB  -> 512 KiB page
//! Large:      blocks through 512 KiB -> 4 MiB page
//! Singleton:  larger blocks          -> one block per page
//! ```
//!
//! Only 64-bit targets are supported.

use crate::size_class_laws::{
    block_holds_request, class_encodes_range_and_quarter, class_fits,
    class_sizes_divide_ranges_into_quarters, regular_classes_are_bounded,
    request_gets_the_class_of_its_block, rounding_up_is_least,
};
use vstd::arithmetic::power::*;
use vstd::arithmetic::power2::*;
use vstd::bits::*;
use vstd::prelude::*;
use vstd::std_specs::bits::*;

verus! {

/// Number of bytes in a machine word.
pub const WORD_SIZE: usize = 8;
/// Number of bytes in an operating-system page.
pub const OS_PAGE_SIZE: usize = 4 * 1024;
/// Number of bytes reserved for a small page.
pub const SMALL_PAGE_SIZE: usize = 64 * 1024;
/// Number of bytes reserved for a medium page.
pub const MEDIUM_PAGE_SIZE: usize = 512 * 1024;
/// Number of bytes reserved for a large page.
pub const LARGE_PAGE_SIZE: usize = 4 * 1024 * 1024;
/// Largest block size, in bytes, stored in a small page.
pub const SMALL_MAX_BLOCK_SIZE: usize = (SMALL_PAGE_SIZE - OS_PAGE_SIZE) / 6;
/// Largest block size, in bytes, stored in a medium page.
pub const MEDIUM_MAX_BLOCK_SIZE: usize = (MEDIUM_PAGE_SIZE - OS_PAGE_SIZE) / 6;
/// Largest block size, in bytes, stored in a large page.
pub const LARGE_MAX_BLOCK_SIZE: usize = LARGE_PAGE_SIZE / 8;
/// Largest regular block size measured in machine words.
pub const LARGE_MAX_WORD_COUNT: usize = LARGE_MAX_BLOCK_SIZE / WORD_SIZE;

/// Highest class index that a regular page serves.
pub const MAX_CLASS_INDEX: usize = 60;

/// The kind of page used to store a size class.
#[derive(Clone, Copy, Debug, Eq, PartialEq, Structural)]
pub enum PageKind {
    /// A 64 KiB page for small blocks.
    Small,
    /// A 512 KiB page for medium blocks.
    Medium,
    /// A 4 MiB page for large blocks.
    Large,
    /// A page containing one oversized block.
    Singleton,
}

/// Describes how the allocator handles one requested size.
#[derive(Clone, Copy, Debug, Eq, PartialEq, Structural)]
pub struct SizeClass {
    /// Position in the regular page queue table, or `None` for a singleton.
    pub class_index: Option<usize>,
    /// Number of bytes reserved for each allocation.
    pub block_size: usize,
    /// Kind of page that stores blocks of this size.
    pub page_kind: PageKind,
}

/// Number of machine words needed for a request of `request_size` bytes.
pub open spec fn words_needed(request_size: int) -> int {
    (request_size + WORD_SIZE - 1) / (WORD_SIZE as int)
}

/// Block size, in machine words, of the class at `class_index`.
///
/// Up to eight words the index is the size itself. Every further group of four
/// indices divides one power-of-two range into quarters, so that four indices
/// up the block size doubles.
pub open spec fn class_words(class_index: int) -> int
    decreases class_index,
{
    if class_index <= 1 {
        1
    } else if class_index <= 8 {
        class_index
    } else if class_index <= 12 {
        2 * class_index - 8
    } else {
        2 * class_words(class_index - 4)
    }
}

/// Index of the class that serves a request of `word_count` machine words.
///
/// Small counts round up to one word or to an even number of words. Above
/// sixteen words, the class is four indices above that of half the count.
pub open spec fn class_of(word_count: int) -> int
    decreases word_count,
{
    if word_count <= 1 {
        1
    } else if word_count <= 8 {
        (word_count + 1) / 2 * 2
    } else if word_count <= 16 {
        9 + (word_count - 9) / 2
    } else {
        class_of((word_count + 1) / 2) + 4
    }
}

/// The page kind that stores blocks of `block_size` bytes.
pub open spec fn kind_of(block_size: int) -> PageKind {
    if block_size <= SMALL_MAX_BLOCK_SIZE {
        PageKind::Small
    } else if block_size <= MEDIUM_MAX_BLOCK_SIZE {
        PageKind::Medium
    } else if block_size <= LARGE_MAX_BLOCK_SIZE {
        PageKind::Large
    } else {
        PageKind::Singleton
    }
}

/// The least multiple of `alignment` that is not below `size`.
pub open spec fn rounded_up(size: int, alignment: int) -> int {
    (size + alignment - 1) / alignment * alignment
}

/// Number of bytes reserved for a request of `request_size` bytes.
pub open spec fn block_size_for(request_size: int) -> int {
    if request_size <= LARGE_MAX_BLOCK_SIZE {
        class_words(class_of(words_needed(request_size))) * WORD_SIZE
    } else {
        rounded_up(request_size, OS_PAGE_SIZE as int)
    }
}

/// Clearing the low bits below a power of two rounds down to a multiple of it.
proof fn lemma_mask_rounds_down(value: usize, alignment: usize)
    requires
        is_pow2(alignment as int),
    ensures
        value & !((alignment - 1) as usize) == value / alignment * alignment,
{
    is_pow2_equiv(alignment as int);
    let exponent = choose|i: nat| pow(2, i) == alignment;
    lemma2_to64();
    if exponent >= usize::BITS {
        if exponent > usize::BITS {
            lemma_pow2_strictly_increases(usize::BITS as nat, exponent);
        }
        assert(false);
    }
    lemma_pow2(exponent);
    lemma_pow2_pos(exponent);
    lemma_usize_low_bits_mask_is_mod(value, exponent);
    let mask = (alignment - 1) as usize;
    assert(value & !mask == value - (value & mask)) by (bit_vector);
    vstd::arithmetic::div_mod::lemma_fundamental_div_mod(value as int, alignment as int);
    vstd::arithmetic::mul::lemma_mul_is_commutative(
        alignment as int,
        value as int / alignment as int,
    );
}

/// Rounds a size upward to an alignment without overflowing.
///
/// The alignment is meant to be a power of two; for any other, the bits of
/// `alignment - 1` are cleared from the sum all the same.
pub fn align_up(size: usize, alignment: usize) -> (aligned: Option<usize>)
    requires
        0 < alignment,
    ensures
        aligned is Some <==> size + alignment - 1 <= usize::MAX,
        aligned matches Some(value) ==> {
            &&& value == ((size + alignment - 1) as usize) & !((alignment - 1) as usize)
            &&& is_pow2(alignment as int) ==> {
                &&& value == rounded_up(size as int, alignment as int)
                &&& value % alignment == 0
                &&& size <= value < size + alignment
            }
        },
{
    match size.checked_add(alignment - 1) {
        Some(value) => {
            proof {
                if is_pow2(alignment as int) {
                    lemma_mask_rounds_down(value, alignment);
                    let multiple = size as int * alignment as int;
                    vstd::arithmetic::div_mod::lemma_mod_multiples_basic(
                        size as int,
                        alignment as int,
                    );
                    assert(size <= multiple) by (nonlinear_arith)
                        requires
                            0 < alignment,
                            multiple == size as int * alignment as int,
                    ;
                    rounding_up_is_least(size as int, alignment as int, multiple);
                }
            }
            Some(value & !(alignment - 1))
        },
        None => None,
    }
}

/// The bit formula agrees with [`class_of`] for every word count above eight.
///
/// `range_value` is one less than the word count.
proof fn lemma_range_and_quarter(range_value: u64)
    requires
        8 <= range_value,
    ensures
        ({
            let exponent = 63 - u64_leading_zeros(range_value);
            &&& 3 <= exponent <= 63
            &&& class_of(range_value + 1) == 4 * exponent + ((range_value >> (exponent - 2) as u64)
                & 3) - 3
        }),
    decreases range_value,
{
    if range_value < 16 {
        reveal_with_fuel(u64_leading_zeros, 5);
        assert((range_value >> 1) & 3 == (range_value - 8) / 2) by (bit_vector)
            requires
                8 <= range_value < 16,
        ;
    } else {
        let half = range_value / 2;
        lemma_range_and_quarter(half);
        reveal(u64_leading_zeros);
        let exponent = 63 - u64_leading_zeros(range_value);
        let k = (exponent - 2) as u64;
        let j = (exponent - 3) as u64;
        assert(half >> j == range_value >> k) by (bit_vector)
            requires
                half == range_value / 2,
                k == j + 1,
                k < 64,
        ;
        axiom_u64_leading_zeros(range_value);
        assert((range_value + 2) / 2 == half + 1);
    }
}

/// Returns the regular class index for a size measured in machine words.
pub fn class_index_for_word_count(word_count: usize) -> (class_index: Option<usize>)
    ensures
        class_index is Some <==> word_count <= LARGE_MAX_WORD_COUNT,
        class_index matches Some(index) ==> {
            &&& index == class_of(word_count as int)
            &&& word_count <= class_words(index as int)
        },
        word_count <= 1 ==> class_index == Some(1usize),
        1 < word_count <= 8 ==> (class_index matches Some(index) && index % 2 == 0 && word_count
            <= index <= word_count + 1),
        8 < word_count <= 64 * 1024 ==> {
            &&& class_index matches Some(index)
            &&& 9 <= index <= 60
            &&& (4 + (index + 3) % 4) * pow2(((index + 3) / 4 - 2) as nat) < word_count
            &&& word_count <= (5 + (index + 3) % 4) * pow2(((index + 3) / 4 - 2) as nat)
        },
        64 * 1024 < word_count ==> class_index is None,
{
    proof {
        class_fits(word_count as int);
        regular_classes_are_bounded(word_count as int);
        if word_count > 8 {
            class_encodes_range_and_quarter(word_count as int);
        }
    }
    if word_count <= 8 {
        return Some(
            if word_count <= 1 {
                1
            } else {
                let next: usize = word_count + 1;
                assert(next & !1 == next / 2 * 2) by (bit_vector);
                next & !1
            },
        );
    }
    if word_count > LARGE_MAX_WORD_COUNT {
        return None;
    }
    // Subtract one to keep powers of two in the lower range. The highest set bit
    // selects the range; the next two bits select its quarter.
    let range_value: usize = word_count - 1;
    proof {
        let value = range_value as u64;
        lemma_range_and_quarter(value);
        axiom_u64_leading_zeros(value);
        let exponent = (63 - u64_leading_zeros(value)) as u64;
        assert(exponent < 16) by (bit_vector)
            requires
                value < 0x1_0000,
                exponent < 64,
                (value >> exponent) & 1 != 0,
        ;
    }
    let range_exponent: usize = 63 - (range_value as u64).leading_zeros() as usize;
    let quarter: usize = (range_value >> (range_exponent - 2)) & 0x03;
    proof {
        assert(range_exponent << 2 == 4 * range_exponent) by (bit_vector)
            requires
                range_exponent <= 63,
        ;
        assert((range_value >> (range_exponent - 2) as usize) & 0x03 <= 3) by (bit_vector);
    }
    Some((range_exponent << 2) + quarter - 3)
}

/// No class is empty.
pub(crate) proof fn lemma_class_words_positive(class_index: int)
    ensures
        0 < class_words(class_index),
    decreases class_index,
{
    if class_index > 12 {
        lemma_class_words_positive(class_index - 4);
    }
}

/// Shifting one further to the left doubles, dropping what leaves the word.
proof fn lemma_shift_doubles(value: usize, shift: usize)
    requires
        0 < shift < usize::BITS,
    ensures
        (value << shift) == (2 * (value << ((shift - 1) as usize))) % (usize::MAX + 1),
{
    let before = value << ((shift - 1) as usize);
    assert(value << shift == before << 1) by (bit_vector)
        requires
            before == value << ((shift - 1) as usize),
            0 < shift < usize::BITS,
    ;
    let max = usize::MAX;
    assert(max <= !0usize) by (bit_vector);
    assert(before << 1 == (if 2 * before <= max {
        2 * before
    } else {
        2 * before - max - 1
    })) by (bit_vector)
        requires
            max == !0usize,
    ;
    if 2 * before <= max {
        vstd::arithmetic::div_mod::lemma_small_mod((2 * before) as nat, (max + 1) as nat);
    } else {
        vstd::arithmetic::div_mod::lemma_mod_sub_multiples_vanish(2 * before, max + 1);
        vstd::arithmetic::div_mod::lemma_small_mod(
            (2 * before - max - 1) as nat,
            (max + 1) as nat,
        );
    }
}

/// The shift formula computes [`class_words`], modulo the width of a word.
proof fn lemma_shift_is_class_words(class_index: int)
    requires
        9 <= class_index <= 4 * usize::BITS + 4,
    ensures
        (((5 + (class_index + 3) % 4) as usize) << (((class_index + 3) / 4 - 2) as usize))
            == class_words(class_index) % (usize::MAX + 1),
    decreases class_index,
{
    let value = (5 + (class_index + 3) % 4) as usize;
    let shift = ((class_index + 3) / 4 - 2) as usize;
    if class_index <= 12 {
        assert(value << 1usize == 2 * value) by (bit_vector)
            requires
                value <= 8,
        ;
    } else {
        lemma_shift_is_class_words(class_index - 4);
        lemma_shift_doubles(value, shift);
        let words = class_words(class_index - 4);
        vstd::arithmetic::div_mod::lemma_mul_mod_noop_right(2, words, usize::MAX + 1);
    }
}

/// Decodes a class index into its rounded block size in machine words.
///
/// Indices above eight encode a power-of-two range and one of four quarters.
/// Past the indices whose block size fits in a word, the high bits are lost.
pub fn words_for_class_index(class_index: usize) -> (words: usize)
    requires
        class_index <= 4 * usize::BITS + 4,
    ensures
        class_words(class_index as int) <= usize::MAX ==> words == class_words(class_index as int),
        words == class_words(class_index as int) % (usize::MAX + 1),
        class_index <= 1 ==> words == 1,
        1 <= class_index <= 8 ==> words == class_index,
        8 < class_index ==> words == ((5 + (class_index + 3) % 4) * pow2(
            ((class_index + 3) / 4 - 2) as nat,
        )) % (usize::MAX + 1),
{
    proof {
        class_sizes_divide_ranges_into_quarters(class_index as int);
        let words = class_words(class_index as int);
        lemma_class_words_positive(class_index as int);
        if words <= usize::MAX {
            vstd::arithmetic::div_mod::lemma_small_mod(words as nat, (usize::MAX + 1) as nat);
        }
    }
    if class_index <= 8 {
        return if class_index < 1 {
            1
        } else {
            class_index
        };
    }
    // Undo the index offset; the high bits hold the range and the low two its quarter.
    let encoded_range: usize = class_index + 3;
    let range_exponent: usize = encoded_range >> 2;
    let quarter: usize = encoded_range & 0x03;
    proof {
        assert(encoded_range >> 2 == encoded_range / 4) by (bit_vector);
        assert(encoded_range & 0x03 == encoded_range % 4) by (bit_vector);
        lemma_shift_is_class_words(class_index as int);
    }
    // Quarter endpoints are 5/4, 6/4, 7/4, and 8/4 of the range's starting size.
    (5 + quarter) << (range_exponent - 2)
}

/// Selects the page kind from the rounded block size.
pub fn page_kind_for_block_size(block_size: usize) -> (kind: PageKind)
    ensures
        kind == kind_of(block_size as int),
        kind is Small <==> 6 * block_size <= 60 * 1024,
        kind is Medium <==> 60 * 1024 < 6 * block_size <= 508 * 1024,
        kind is Large <==> 508 * 1024 < 6 * block_size && 8 * block_size <= 4096 * 1024,
        kind is Singleton <==> 4096 * 1024 < 8 * block_size,
{
    if block_size <= SMALL_MAX_BLOCK_SIZE {
        PageKind::Small
    } else if block_size <= MEDIUM_MAX_BLOCK_SIZE {
        PageKind::Medium
    } else if block_size <= LARGE_MAX_BLOCK_SIZE {
        PageKind::Large
    } else {
        PageKind::Singleton
    }
}

impl SizeClass {
    /// Chooses an allocation class for a byte request.
    pub fn for_request(request_size: usize) -> (size_class: Option<Self>)
        ensures
            size_class is Some <==> request_size <= isize::MAX,
            size_class matches Some(class) ==> {
                &&& class.class_index is Some <==> request_size <= LARGE_MAX_BLOCK_SIZE
                &&& class.class_index matches Some(index) ==> index == class_of(
                    words_needed(request_size as int),
                )
                &&& class.block_size == block_size_for(request_size as int)
                &&& class.page_kind == kind_of(block_size_for(request_size as int))
                &&& request_size <= class.block_size
                &&& class.class_index is Some <==> request_size <= 512 * 1024
                &&& class.class_index matches Some(index) ==> {
                    &&& 1 <= index <= 60
                    &&& class.block_size == 8 * class_words(index as int)
                }
                &&& request_size <= 8 ==> class.block_size == 8
                &&& 8 < request_size <= 64 ==> {
                    &&& class.block_size % 16 == 0
                    &&& class.block_size < request_size + 16
                }
                &&& 64 < request_size <= 512 * 1024 ==> {
                    &&& class.class_index matches Some(index)
                    &&& class.block_size == 8 * ((5 + (index + 3) % 4) * pow2(
                        ((index + 3) / 4 - 2) as nat,
                    ))
                    &&& 8 * ((4 + (index + 3) % 4) * pow2(((index + 3) / 4 - 2) as nat))
                        < request_size
                }
                &&& 512 * 1024 < request_size ==> {
                    &&& class.block_size % 4096 == 0
                    &&& class.block_size < request_size + 4096
                    &&& class.page_kind is Singleton
                }
            },
    {
        if request_size > isize::MAX as usize {
            return None;
        }
        proof {
            block_holds_request(request_size as int);
            if request_size <= LARGE_MAX_BLOCK_SIZE {
                request_gets_the_class_of_its_block(request_size as int);
            }
        }
        let word_count: usize = request_size / WORD_SIZE + (
        if request_size.is_multiple_of(WORD_SIZE) {
            0
        } else {
            1
        });
        assert(word_count == words_needed(request_size as int));
        let class_index = class_index_for_word_count(word_count);
        let Some(class_index) = class_index else {
            proof {
                lemma2_to64();
                lemma_pow2(12);
                is_pow2_equiv(OS_PAGE_SIZE as int);
            }
            let block_size = align_up(request_size, OS_PAGE_SIZE)?;
            return Some(
                SizeClass { class_index: None, block_size, page_kind: PageKind::Singleton },
            );
        };
        proof {
            regular_classes_are_bounded(word_count as int);
        }
        let block_size: usize = words_for_class_index(class_index) * WORD_SIZE;
        Some(
            SizeClass {
                class_index: Some(class_index),
                block_size,
                page_kind: page_kind_for_block_size(block_size),
            },
        )
    }
}

} // verus!
