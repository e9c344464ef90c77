//! What holds of every size class and of every request.

use crate::size_class::{
    block_size_for, class_of, class_words, kind_of, lemma_class_words_positive, rounded_up,
    words_needed, PageKind,
};
use crate::size_class::{
    LARGE_MAX_BLOCK_SIZE, LARGE_MAX_WORD_COUNT, LARGE_PAGE_SIZE, MAX_CLASS_INDEX,
    MEDIUM_PAGE_SIZE, OS_PAGE_SIZE, SMALL_PAGE_SIZE, WORD_SIZE,
};
use vstd::arithmetic::power2::*;
use vstd::prelude::*;

verus! {

/// Whether some word count selects the class at `class_index`.
///
/// Between one and eight words only even sizes are selected.
pub open spec fn is_class(class_index: int) -> bool {
    ||| class_index == 1
    ||| 2 <= class_index <= 8 && class_index % 2 == 0
    ||| 9 <= class_index
}

/// A word count is served by a class that can be selected, with room for all
/// of its words. Above eight words it is one of the quarter classes.
pub proof fn class_fits(word_count: int)
    ensures
        is_class(class_of(word_count)),
        word_count <= class_words(class_of(word_count)),
        9 <= word_count ==> 9 <= class_of(word_count),
    decreases word_count,
{
    if word_count > 16 {
        class_fits((word_count + 1) / 2);
    }
}

/// No class below the selected one has room for the words.
pub proof fn class_is_smallest(word_count: int, class_index: int)
    requires
        is_class(class_index),
        word_count <= class_words(class_index),
    ensures
        class_of(word_count) <= class_index,
    decreases word_count,
{
    if word_count > 16 {
        if class_index > 12 {
            class_is_smallest((word_count + 1) / 2, class_index - 4);
        }
    }
}

/// Decoding a class index and encoding the size again gives the index back.
pub proof fn class_round_trip(class_index: int)
    requires
        is_class(class_index),
    ensures
        class_of(class_words(class_index)) == class_index,
    decreases class_index,
{
    if class_index > 12 {
        class_round_trip(class_index - 4);
        class_words_increase(8, class_index - 4);
    }
}

/// A higher class index means a larger block.
pub proof fn class_words_increase(lower: int, higher: int)
    requires
        1 <= lower < higher,
    ensures
        class_words(lower) < class_words(higher),
    decreases higher,
{
    if lower > 12 {
        class_words_increase(lower - 4, higher - 4);
    } else if higher > 12 {
        class_words_increase(8, higher - 4);
    }
}

/// More words never select a lower class.
pub proof fn class_of_is_monotonic(fewer: int, more: int)
    requires
        fewer <= more,
    ensures
        class_of(fewer) <= class_of(more),
{
    class_fits(more);
    class_is_smallest(fewer, class_of(more));
}

/// Above eight words, less than a fifth of a block is padding.
pub proof fn class_waste_is_bounded(word_count: int)
    requires
        8 < word_count,
    ensures
        4 * class_words(class_of(word_count)) < 5 * word_count,
{
    lemma_quarter_waste(word_count);
}

/// A block ends at most a quarter above the words that precede the last one.
proof fn lemma_quarter_waste(word_count: int)
    requires
        8 < word_count,
    ensures
        4 * class_words(class_of(word_count)) <= 5 * (word_count - 1),
    decreases word_count,
{
    if word_count > 16 {
        class_fits((word_count + 1) / 2);
        lemma_quarter_waste((word_count + 1) / 2);
    }
}

/// Exactly the word counts up to the largest regular block size are served by
/// the regular classes, and those blocks stay within that size.
pub proof fn regular_classes_are_bounded(word_count: int)
    ensures
        1 <= class_of(word_count),
        word_count <= LARGE_MAX_WORD_COUNT <==> class_of(word_count) <= MAX_CLASS_INDEX,
        word_count <= LARGE_MAX_WORD_COUNT <==> class_words(class_of(word_count))
            <= LARGE_MAX_WORD_COUNT,
{
    lemma_class_boundary(word_count, MAX_CLASS_INDEX as int);
    assert(class_words(MAX_CLASS_INDEX as int) == LARGE_MAX_WORD_COUNT) by {
        reveal_with_fuel(class_words, 14);
    }
}

/// A block size that is itself a class is a boundary: counts up to it stay at
/// or below its class, and all others go above.
proof fn lemma_class_boundary(word_count: int, class_index: int)
    requires
        is_class(class_index),
    ensures
        1 <= class_of(word_count),
        word_count <= class_words(class_index) <==> class_of(word_count) <= class_index,
        word_count <= class_words(class_index) <==> class_words(class_of(word_count))
            <= class_words(class_index),
{
    let selected = class_of(word_count);
    class_fits(word_count);
    if word_count <= class_words(class_index) {
        class_is_smallest(word_count, class_index);
        if selected < class_index {
            class_words_increase(selected, class_index);
        }
    } else if selected < class_index {
        class_words_increase(selected, class_index);
    }
}

/// The class index encodes the power-of-two range of the word count and the
/// quarter of that range; the block ends that quarter.
///
/// The range starts at four times `step`.
pub proof fn class_encodes_range_and_quarter(word_count: int)
    requires
        8 < word_count,
    ensures
        ({
            let encoded_range = class_of(word_count) + 3;
            let quarter = encoded_range % 4;
            let step = pow2((encoded_range / 4 - 2) as nat);
            &&& 12 <= encoded_range
            &&& (4 + quarter) * step < word_count <= (5 + quarter) * step
            &&& class_words(class_of(word_count)) == (5 + quarter) * step
        }),
    decreases word_count,
{
    lemma2_to64();
    if word_count > 16 {
        let half = (word_count + 1) / 2;
        class_fits(half);
        class_encodes_range_and_quarter(half);
        let encoded_range = class_of(word_count) + 3;
        let quarter = encoded_range % 4;
        let exponent = (encoded_range / 4 - 2) as nat;
        lemma_pow2_unfold(exponent);
        let step = pow2((exponent - 1) as nat) as int;
        assert((class_of(half) + 3) % 4 == quarter);
        assert((class_of(half) + 3) / 4 - 2 == exponent - 1);
        assert((4 + quarter) * (2 * step) == 2 * ((4 + quarter) * step)) by (nonlinear_arith);
        assert((5 + quarter) * (2 * step) == 2 * ((5 + quarter) * step)) by (nonlinear_arith);
    } else {
        let encoded_range = class_of(word_count) + 3;
        let quarter = encoded_range % 4;
        let step = pow2((encoded_range / 4 - 2) as nat);
        assert(encoded_range / 4 - 2 == 1);
        assert((4 + quarter) * step == (4 + quarter) * 2) by (nonlinear_arith)
            requires
                step == 2,
        ;
        assert((5 + quarter) * step == (5 + quarter) * 2) by (nonlinear_arith)
            requires
                step == 2,
        ;
    }
}

/// A power of two is itself a block size: it ends the lower of the two ranges
/// that meet there.
pub proof fn powers_of_two_fit_exactly(exponent: nat)
    ensures
        class_words(class_of(pow2(exponent) as int)) == pow2(exponent),
    decreases exponent,
{
    lemma2_to64();
    if exponent > 4 {
        lemma_pow2_unfold(exponent);
        if exponent > 5 {
            lemma_pow2_strictly_increases(4, (exponent - 1) as nat);
        }
        powers_of_two_fit_exactly((exponent - 1) as nat);
        class_fits(pow2((exponent - 1) as nat) as int);
    }
}

/// Rounding up gives a multiple of the alignment that is not below the size,
/// and no smaller multiple will do.
pub proof fn rounding_up_is_least(size: int, alignment: int, multiple: int)
    requires
        0 < alignment,
        size <= multiple,
        multiple % alignment == 0,
    ensures
        rounded_up(size, alignment) % alignment == 0,
        size <= rounded_up(size, alignment) < size + alignment,
        rounded_up(size, alignment) <= multiple,
{
    let sum = size + alignment - 1;
    let count = sum / alignment;
    vstd::arithmetic::div_mod::lemma_fundamental_div_mod(sum, alignment);
    vstd::arithmetic::div_mod::lemma_mod_multiples_basic(count, alignment);
    vstd::arithmetic::mul::lemma_mul_is_commutative(count, alignment);
    vstd::arithmetic::div_mod::lemma_fundamental_div_mod(multiple, alignment);
    let bound = multiple / alignment;
    assert(count <= bound) by (nonlinear_arith)
        requires
            0 < alignment,
            alignment * count <= size + alignment - 1,
            size <= alignment * bound,
    ;
    assert(alignment * count <= alignment * bound) by (nonlinear_arith)
        requires
            0 < alignment,
            count <= bound,
    ;
}

/// Apart from the one-word class, selected classes hold an even number of words.
proof fn lemma_class_words_even(class_index: int)
    requires
        is_class(class_index),
        class_index != 1,
    ensures
        class_words(class_index) % 2 == 0,
    decreases class_index,
{
    if class_index > 12 {
        lemma_class_words_even(class_index - 4);
    }
}

/// Every block holds its request, in whole words. Blocks of more than one word
/// are a multiple of two words, and those beyond the regular classes are the
/// least multiple of an operating-system page.
pub proof fn block_holds_request(request_size: int)
    requires
        0 <= request_size,
    ensures
        request_size <= block_size_for(request_size),
        WORD_SIZE <= block_size_for(request_size),
        block_size_for(request_size) % (WORD_SIZE as int) == 0,
        WORD_SIZE < block_size_for(request_size) ==> block_size_for(request_size) % 16 == 0,
        LARGE_MAX_BLOCK_SIZE < request_size ==> {
            &&& block_size_for(request_size) % (OS_PAGE_SIZE as int) == 0
            &&& block_size_for(request_size) < request_size + OS_PAGE_SIZE
        },
{
    let class_index = class_of(words_needed(request_size));
    class_fits(words_needed(request_size));
    lemma_class_words_positive(class_index);
    if class_index != 1 {
        lemma_class_words_even(class_index);
    }
    let rounded = rounded_up(request_size, OS_PAGE_SIZE as int);
    assert(rounded % 16 == 0);
}

/// Above eight words, less than a fifth of a regular block is padding.
pub proof fn block_waste_is_bounded(request_size: int)
    requires
        8 * WORD_SIZE < request_size <= LARGE_MAX_BLOCK_SIZE,
    ensures
        4 * block_size_for(request_size) < 5 * request_size,
{
    lemma_quarter_waste(words_needed(request_size));
}

/// A larger request never gets a smaller block.
pub proof fn block_size_is_monotonic(smaller: int, larger: int)
    requires
        0 <= smaller <= larger,
    ensures
        block_size_for(smaller) <= block_size_for(larger),
{
    let lower = class_of(words_needed(smaller));
    let higher = class_of(words_needed(larger));
    class_of_is_monotonic(words_needed(smaller), words_needed(larger));
    regular_classes_are_bounded(words_needed(smaller));
    if lower < higher {
        class_words_increase(lower, higher);
    }
}

/// Requesting a whole block gets a block of the same size.
pub proof fn block_size_is_stable(request_size: int)
    requires
        0 <= request_size,
    ensures
        block_size_for(block_size_for(request_size)) == block_size_for(request_size),
{
    let class_index = class_of(words_needed(request_size));
    if request_size <= LARGE_MAX_BLOCK_SIZE {
        class_fits(words_needed(request_size));
        class_round_trip(class_index);
        regular_classes_are_bounded(words_needed(request_size));
        assert(words_needed(block_size_for(request_size)) == class_words(class_index));
    }
}

/// Requests through 10 KiB use small pages, through 80 KiB medium pages and
/// through 512 KiB large pages. Only those beyond use a page for one block.
pub proof fn page_kind_follows_request(request_size: int)
    requires
        0 <= request_size,
    ensures
        kind_of(block_size_for(request_size)) == (if request_size <= 10 * 1024 {
            PageKind::Small
        } else if request_size <= 80 * 1024 {
            PageKind::Medium
        } else if request_size <= 512 * 1024 {
            PageKind::Large
        } else {
            PageKind::Singleton
        }),
{
    let words = words_needed(request_size);
    reveal_with_fuel(class_words, 11);
    lemma_class_boundary(words, 37);
    lemma_class_boundary(words, 49);
    regular_classes_are_bounded(words);
    if class_of(words) > 50 {
        class_words_increase(50, class_of(words));
    }
}

/// A regular page has room for several of the blocks it stores: six beside one
/// operating-system page in a small or medium page, eight in a large page.
pub proof fn regular_pages_hold_several_blocks(block_size: int)
    ensures
        kind_of(block_size) is Small <==> 6 * block_size + OS_PAGE_SIZE <= SMALL_PAGE_SIZE,
        kind_of(block_size) is Small || kind_of(block_size) is Medium <==> 6 * block_size
            + OS_PAGE_SIZE <= MEDIUM_PAGE_SIZE,
        kind_of(block_size) is Singleton <==> 8 * block_size > LARGE_PAGE_SIZE,
{
}

/// A block goes into a small page when six of them and 4 KiB fit into 64 KiB,
/// else into a medium page when they fit into 512 KiB, else into a large page
/// when eight of them fit into 4 MiB. Any larger one has a page to itself.
pub proof fn page_kind_follows_block_size(block_size: int)
    ensures
        kind_of(block_size) is Small <==> 6 * block_size <= 60 * 1024,
        kind_of(block_size) is Medium <==> 60 * 1024 < 6 * block_size <= 508 * 1024,
        kind_of(block_size) is Large <==> 508 * 1024 < 6 * block_size && 8 * block_size <= 4096
            * 1024,
        kind_of(block_size) is Singleton <==> 4096 * 1024 < 8 * block_size,
        SMALL_PAGE_SIZE == 64 * 1024,
        MEDIUM_PAGE_SIZE == 512 * 1024,
        LARGE_PAGE_SIZE == 4096 * 1024,
{
}

/// The words for a request hold it, and one word less would not.
pub proof fn words_just_hold_request(request_size: int)
    ensures
        8 * (words_needed(request_size) - 1) < request_size <= 8 * words_needed(request_size),
{
}

/// The regular classes serve exactly the requests through 512 KiB, which are
/// those of at most 65536 words.
pub proof fn regular_requests_end_at_512_kib(request_size: int)
    ensures
        request_size <= LARGE_MAX_BLOCK_SIZE <==> request_size <= 512 * 1024,
        request_size <= LARGE_MAX_WORD_COUNT <==> request_size <= 64 * 1024,
        words_needed(request_size) <= LARGE_MAX_WORD_COUNT <==> request_size <= 512 * 1024,
{
}

/// A block is as many words as its index up to eight, and at least one. Beyond,
/// four block sizes divide each power-of-two range into quarters, so that four
/// indices up the size doubles.
pub proof fn class_sizes_divide_ranges_into_quarters(class_index: int)
    ensures
        class_index <= 1 ==> class_words(class_index) == 1,
        1 <= class_index <= 8 ==> class_words(class_index) == class_index,
        9 <= class_index ==> class_words(class_index) == (5 + (class_index + 3) % 4) * pow2(
            ((class_index + 3) / 4 - 2) as nat,
        ),
        5 <= class_index ==> class_words(class_index + 4) == 2 * class_words(class_index),
    decreases class_index,
{
    lemma2_to64();
    if class_index > 12 {
        class_sizes_divide_ranges_into_quarters(class_index - 4);
        let quarter = (class_index + 3) % 4;
        let exponent = ((class_index + 3) / 4 - 2) as nat;
        lemma_pow2_unfold(exponent);
        let step = pow2((exponent - 1) as nat) as int;
        assert((class_index - 4 + 3) % 4 == quarter);
        assert((class_index - 4 + 3) / 4 - 2 == exponent - 1);
        assert((5 + quarter) * (2 * step) == 2 * ((5 + quarter) * step)) by (nonlinear_arith);
    } else if class_index >= 9 {
        let quarter = (class_index + 3) % 4;
        let step = pow2(((class_index + 3) / 4 - 2) as nat);
        assert((class_index + 3) / 4 - 2 == 1);
        assert((5 + quarter) * step == (5 + quarter) * 2) by (nonlinear_arith)
            requires
                step == 2,
        ;
    }
}

/// Up to eight words, the class is one word or the next even number of words.
pub proof fn small_counts_round_to_even(word_count: int)
    requires
        word_count <= 8,
    ensures
        word_count <= 1 ==> class_of(word_count) == 1,
        2 <= word_count ==> {
            &&& class_of(word_count) % 2 == 0
            &&& word_count <= class_of(word_count) <= word_count + 1
        },
{
}

/// A request is served by the class whose block it gets. Through eight bytes
/// that is one word, and through 64 bytes the next multiple of sixteen. Beyond,
/// the index names the quarter of a power-of-two range in which the request
/// lies, and the block ends that quarter.
pub proof fn request_gets_the_class_of_its_block(request_size: int)
    requires
        0 <= request_size <= 512 * 1024,
    ensures
        ({
            let index = class_of(words_needed(request_size));
            let block_size = block_size_for(request_size);
            let quarter = (index + 3) % 4;
            let step = pow2(((index + 3) / 4 - 2) as nat);
            &&& 1 <= index <= 60
            &&& block_size == 8 * class_words(index)
            &&& request_size <= 8 ==> block_size == 8 && index == 1
            &&& 8 < request_size <= 64 ==> {
                &&& block_size == 8 * index
                &&& block_size % 16 == 0
                &&& request_size <= block_size < request_size + 16
            }
            &&& 64 < request_size ==> {
                &&& 9 <= index
                &&& block_size == 8 * ((5 + quarter) * step)
                &&& 8 * ((4 + quarter) * step) < request_size <= block_size
            }
        }),
{
    let words = words_needed(request_size);
    regular_classes_are_bounded(words);
    if request_size > 64 {
        class_fits(words);
        class_encodes_range_and_quarter(words);
    }
}

/// No class that can be selected has a smaller block that holds the request.
pub proof fn request_gets_least_class(request_size: int, class_index: int)
    requires
        0 <= request_size <= 512 * 1024,
        class_index == 1 || class_index == 2 || class_index == 4 || class_index == 6 || 8
            <= class_index,
        request_size <= 8 * class_words(class_index),
    ensures
        class_of(words_needed(request_size)) <= class_index,
        block_size_for(request_size) <= 8 * class_words(class_index),
{
    let words = words_needed(request_size);
    class_is_smallest(words, class_index);
    regular_classes_are_bounded(words);
    if class_of(words) < class_index {
        class_words_increase(class_of(words), class_index);
    }
}

/// Among the quarters of all power-of-two ranges, the block is the least that
/// holds the request.
pub proof fn request_gets_least_quarter(request_size: int, quarter: int, exponent: nat)
    requires
        0 <= request_size <= 512 * 1024,
        0 <= quarter <= 3,
        1 <= exponent,
        request_size <= 8 * ((5 + quarter) * pow2(exponent)),
    ensures
        block_size_for(request_size) <= 8 * ((5 + quarter) * pow2(exponent)),
{
    let class_index = 4 * (exponent + 2) + quarter - 3;
    class_sizes_divide_ranges_into_quarters(class_index);
    assert((class_index + 3) % 4 == quarter);
    assert((class_index + 3) / 4 - 2 == exponent);
    request_gets_least_class(request_size, class_index);
}

/// Two regular requests share a class exactly when they get blocks of one size.
pub proof fn classes_and_block_sizes_agree(first: int, second: int)
    requires
        0 <= first <= 512 * 1024,
        0 <= second <= 512 * 1024,
    ensures
        class_of(words_needed(first)) == class_of(words_needed(second)) <==> block_size_for(first)
            == block_size_for(second),
        class_of(words_needed(first)) < class_of(words_needed(second)) <==> block_size_for(first)
            < block_size_for(second),
{
    let lower = class_of(words_needed(first));
    let higher = class_of(words_needed(second));
    regular_classes_are_bounded(words_needed(first));
    regular_classes_are_bounded(words_needed(second));
    if lower < higher {
        class_words_increase(lower, higher);
    } else if higher < lower {
        class_words_increase(higher, lower);
    }
}

/// Above 64 bytes, a request of twice the size gets a block of twice the size,
/// four classes up.
pub proof fn twice_the_request_gets_twice_the_block(request_size: int)
    requires
        64 < request_size <= 256 * 1024,
    ensures
        block_size_for(2 * request_size) == 2 * block_size_for(request_size),
        class_of(words_needed(2 * request_size)) == class_of(words_needed(request_size)) + 4,
{
    let words = words_needed(request_size);
    assert((words_needed(2 * request_size) + 1) / 2 == words);
    class_fits(words);
}

/// Requesting a whole regular block selects the class of that block again.
pub proof fn whole_blocks_keep_their_class(request_size: int)
    requires
        0 <= request_size <= 512 * 1024,
    ensures
        class_of(words_needed(block_size_for(request_size))) == class_of(
            words_needed(request_size),
        ),
{
    let words = words_needed(request_size);
    class_fits(words);
    class_round_trip(class_of(words));
    assert(words_needed(block_size_for(request_size)) == class_words(class_of(words)));
}

/// Beyond 512 KiB, a block is the least multiple of 4 KiB that holds the request.
pub proof fn singleton_is_least_multiple(request_size: int, multiple: int)
    requires
        512 * 1024 < request_size <= multiple,
        multiple % 4096 == 0,
    ensures
        block_size_for(request_size) % 4096 == 0,
        request_size <= block_size_for(request_size) <= multiple,
        block_size_for(request_size) < request_size + 4096,
{
    rounding_up_is_least(request_size, 4096, multiple);
}

} // verus!
