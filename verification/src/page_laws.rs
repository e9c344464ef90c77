//! What holds of every page: how its blocks lie, which of them are free, and
//! that the links in its memory stay intact.

use crate::free_list::{
    after_return, after_take, after_takes, block_at, link_word, lists_stay_valid,
    return_adds_only_in_front, take_removes_only_the_first, takes_follow_list_order,
};
use crate::page::{valid_layout, valid_mapping, PageView};
use crate::size_class::{block_size_for, WORD_SIZE};
use crate::size_class_laws::block_holds_request;
use vstd::prelude::*;

verus! {

/// A block index below the count gives an offset at which a whole block fits.
pub(crate) proof fn lemma_block_offset(
    size: int,
    block_size: int,
    block_count: int,
    block_index: int,
)
    requires
        0 < block_size,
        0 <= size,
        size % block_size == 0,
        block_count == size / block_size,
        0 <= block_index < block_count,
    ensures
        0 <= block_index * block_size,
        block_index * block_size + block_size <= size,
{
    vstd::arithmetic::div_mod::lemma_fundamental_div_mod(size, block_size);
    assert(block_index * block_size + block_size <= block_size * block_count) by (nonlinear_arith)
        requires
            0 < block_size,
            block_index + 1 <= block_count,
    ;
    assert(0 <= block_index * block_size) by (nonlinear_arith)
        requires
            0 < block_size,
            0 <= block_index,
    ;
}

/// Which addresses are blocks does not depend on what is free.
proof fn lemma_same_blocks(page: PageView, free: Seq<usize>)
    ensures
        forall|address: int|
            (#[trigger] (PageView { free, ..page }).is_block(address)) == page.is_block(address),
{
    let other = PageView { free, ..page };
    assert forall|address: int| (#[trigger] other.is_block(address)) == page.is_block(address) by {
        if other.is_block(address) {
            let i = choose|i: int|
                0 <= i < other.block_count && address == #[trigger] other.block_address(i);
            assert(address == page.block_address(i));
        }
        if page.is_block(address) {
            let i = choose|i: int|
                0 <= i < page.block_count && address == #[trigger] page.block_address(i);
            assert(address == other.block_address(i));
        }
    }
}

/// The block boundaries are the multiples of the block size within the page.
pub proof fn blocks_start_at_multiples(page: PageView, address: int)
    requires
        page.wf(),
    ensures
        page.is_block(address) <==> {
            &&& page.start <= address < page.start + page.size
            &&& (address - page.start) % page.block_size == 0
        },
{
    let offset = address - page.start;
    vstd::arithmetic::div_mod::lemma_fundamental_div_mod(page.size, page.block_size);
    if page.is_block(address) {
        let i = choose|i: int|
            0 <= i < page.block_count && address == #[trigger] page.block_address(i);
        lemma_block_offset(page.size, page.block_size, page.block_count, i);
        vstd::arithmetic::div_mod::lemma_mod_multiples_basic(i, page.block_size);
    } else if 0 <= offset < page.size && offset % page.block_size == 0 {
        let i = offset / page.block_size;
        vstd::arithmetic::div_mod::lemma_fundamental_div_mod(offset, page.block_size);
        assert(i * page.block_size == offset) by {
            vstd::arithmetic::mul::lemma_mul_is_commutative(i, page.block_size);
        }
        assert(0 <= i < page.block_count) by (nonlinear_arith)
            requires
                page.block_size * i == offset,
                0 <= offset < page.size,
                page.size == page.block_size * page.block_count,
                0 < page.block_size,
        ;
        assert(address == page.block_address(i));
    }
}

/// A block's first word lies within the page, at its offset in words.
pub(crate) proof fn lemma_link_index(page: PageView, address: int)
    requires
        page.wf(),
        page.is_block(address),
    ensures
        0 <= page.link_index(address) < page.size / (WORD_SIZE as int),
        WORD_SIZE * page.link_index(address) == address - page.start,
{
    let i = choose|i: int| 0 <= i < page.block_count && address == #[trigger] page.block_address(i);
    lemma_block_offset(page.size, page.block_size, page.block_count, i);
    let words = page.block_size / (WORD_SIZE as int);
    assert(i * page.block_size == WORD_SIZE * (i * words)) by (nonlinear_arith)
        requires
            page.block_size == WORD_SIZE * words,
    ;
}

/// Blocks do not overlap: each ends no later than the next one starts.
pub proof fn blocks_do_not_overlap(page: PageView, first: int, second: int)
    requires
        page.wf(),
        0 <= first < second < page.block_count,
    ensures
        page.block_address(first) + page.block_size <= page.block_address(second),
{
    assert(first * page.block_size + page.block_size <= second * page.block_size)
        by (nonlinear_arith)
        requires
            first + 1 <= second,
            0 < page.block_size,
    ;
}

/// Every block lies within the page; the first starts and the last ends with it.
pub proof fn blocks_fill_the_page(page: PageView, block_index: int)
    requires
        page.wf(),
        0 <= block_index < page.block_count,
    ensures
        page.start <= page.block_address(block_index),
        page.block_address(block_index) + page.block_size <= page.start + page.size,
        page.block_address(0) == page.start,
        page.block_address(page.block_count - 1) + page.block_size == page.start + page.size,
{
    lemma_block_offset(page.size, page.block_size, page.block_count, block_index);
    vstd::arithmetic::div_mod::lemma_fundamental_div_mod(page.size, page.block_size);
    let last = page.block_count - 1;
    assert(last * page.block_size + page.block_size == page.block_size * page.block_count)
        by (nonlinear_arith)
        requires
            last == page.block_count - 1,
    ;
}

/// Blocks start at word boundaries, and at multiples of the block size where
/// the page itself does.
pub proof fn blocks_are_aligned(page: PageView, block_index: int)
    requires
        page.wf(),
        0 <= block_index < page.block_count,
    ensures
        page.block_address(block_index) % (WORD_SIZE as int) == 0,
        page.start % page.block_size == 0 ==> page.block_address(block_index) % page.block_size
            == 0,
{
    let address = page.block_address(block_index);
    assert(page.is_block(address));
    lemma_link_index(page, address);
    if page.start % page.block_size == 0 {
        vstd::arithmetic::div_mod::lemma_mod_multiples_vanish(
            block_index,
            page.start,
            page.block_size,
        );
        vstd::arithmetic::mul::lemma_mul_is_commutative(block_index, page.block_size);
    }
}

/// A page has at least one block, and no address is two of its blocks.
pub proof fn blocks_are_distinct(page: PageView)
    requires
        page.wf(),
    ensures
        0 < page.block_count,
        page.blocks().no_duplicates(),
        page.blocks().len() == page.block_count,
        forall|i: int|
            0 <= i < page.block_count ==> #[trigger] page.blocks()[i] == page.block_address(i),
        forall|address: usize|
            page.blocks().contains(address) == #[trigger] page.is_block(address as int),
{
    let blocks = page.blocks();
    vstd::arithmetic::div_mod::lemma_fundamental_div_mod(page.size, page.block_size);
    assert(0 < page.block_count) by (nonlinear_arith)
        requires
            page.size == page.block_size * page.block_count,
            0 < page.size,
            0 < page.block_size,
    ;
    assert forall|i: int| 0 <= i < page.block_count implies #[trigger] blocks[i]
        == page.block_address(i) by {
        lemma_block_offset(page.size, page.block_size, page.block_count, i);
    }
    assert forall|i: int, j: int| 0 <= i < j < blocks.len() implies blocks[i] != blocks[j] by {
        blocks_do_not_overlap(page, i, j);
    }
    assert forall|address: usize|
        blocks.contains(address) == #[trigger] page.is_block(address as int) by {
        if blocks.contains(address) {
            let i = choose|i: int| 0 <= i < blocks.len() && blocks[i] == address;
            assert(address == page.block_address(i));
        }
        if page.is_block(address as int) {
            let i = choose|i: int|
                0 <= i < page.block_count && address == #[trigger] page.block_address(i);
            assert(blocks[i] == address);
        }
    }
}

/// Taking a block keeps the page valid, and what is taken is one of its blocks.
pub proof fn take_keeps_page_valid(page: PageView)
    requires
        page.wf(),
    ensures
        page.taken().wf(),
        page.free.len() > 0 ==> page.is_block(page.free[0] as int),
{
    lemma_same_blocks(page, page.taken().free);
    lists_stay_valid(page.free, 0);
}

/// Returning a block that is not free keeps the page valid.
pub proof fn return_keeps_page_valid(page: PageView, block: usize)
    requires
        page.wf(),
        page.is_block(block as int),
        !page.free.contains(block),
    ensures
        page.returned(block).wf(),
{
    lemma_same_blocks(page, page.returned(block).free);
    blocks_start_at_multiples(page, block as int);
    lists_stay_valid(page.free, block);
}

/// Allocated blocks and free blocks together are all blocks of the page.
pub proof fn allocated_and_free_are_all(page: PageView)
    requires
        page.wf(),
    ensures
        page.allocated().finite(),
        page.allocated().len() + page.free.len() == page.block_count,
        page.free.len() == page.block_count ==> page.allocated().is_empty(),
{
    blocks_are_distinct(page);
    let blocks = page.blocks();
    let free = page.free;
    blocks.unique_seq_to_set();
    free.unique_seq_to_set();
    assert(blocks.to_set().intersect(free.to_set()) =~= free.to_set()) by {
        assert forall|address: usize| free.contains(address) implies blocks.contains(address) by {
            let i = choose|i: int| 0 <= i < free.len() && free[i] == address;
            assert(page.is_block(free[i] as int));
        }
    }
    vstd::set_lib::lemma_set_difference_len(blocks.to_set(), free.to_set());
}

/// Taking a block moves it from the free blocks to the allocated ones.
pub proof fn take_allocates_one_block(page: PageView)
    requires
        page.wf(),
        page.free.len() > 0,
    ensures
        !page.allocated().contains(page.free[0]),
        page.taken().allocated() == page.allocated().insert(page.free[0]),
{
    let after = page.taken();
    let free = after.free;
    blocks_are_distinct(page);
    assert(after.blocks() =~= page.blocks());
    assert(page.is_block(page.free[0] as int));
    assert forall|address: usize| page.free.contains(address) == (address == page.free[0]
        || #[trigger] free.contains(address)) by {
        if page.free.contains(address) {
            let i = choose|i: int| 0 <= i < page.free.len() && page.free[i] == address;
            if i > 0 {
                assert(free[i - 1] == address);
            }
        }
        if free.contains(address) {
            let i = choose|i: int| 0 <= i < free.len() && free[i] == address;
            assert(page.free[i + 1] == address);
        }
    }
    lists_stay_valid(page.free, 0);
    assert(after.allocated() =~= page.allocated().insert(page.free[0]));
}

/// Returning a block moves it from the allocated blocks to the free ones.
pub proof fn return_frees_one_block(page: PageView, block: usize)
    requires
        page.wf(),
        page.is_block(block as int),
        !page.free.contains(block),
    ensures
        page.allocated().contains(block),
        page.returned(block).allocated() == page.allocated().remove(block),
{
    let after = page.returned(block);
    let free = after.free;
    blocks_are_distinct(page);
    assert(page.blocks().contains(block));
    assert(after.blocks() =~= page.blocks());
    assert forall|address: usize| #[trigger] free.contains(address) == (address == block
        || page.free.contains(address)) by {
        if page.free.contains(address) {
            let i = choose|i: int| 0 <= i < page.free.len() && page.free[i] == address;
            assert(free[i + 1] == address);
        }
        assert(free[0] == block);
        if free.contains(address) {
            let i = choose|i: int| 0 <= i < free.len() && free[i] == address;
            if i > 0 {
                assert(page.free[i - 1] == address);
            }
        }
    }
    assert(after.allocated() =~= page.allocated().remove(block));
}

/// A page whose blocks are all free hands them out in address order, each
/// once, and is then empty.
pub proof fn fresh_page_hands_out_each_block_once(page: PageView, count: nat)
    requires
        page.wf(),
        page.free == page.blocks(),
    ensures
        page.allocated().is_empty(),
        count < page.block_count ==> block_at(after_takes(page.free, count), 0) == Some(
            page.block_address(count as int) as usize,
        ),
        page.block_count <= count ==> after_takes(page.free, count).len() == 0,
{
    blocks_are_distinct(page);
    allocated_and_free_are_all(page);
    takes_follow_list_order(page.free, count);
}

/// Returning a block, with its link written, keeps all free blocks linked.
pub proof fn return_keeps_links(page: PageView, memory: Seq<usize>, block: usize)
    requires
        page.wf(),
        page.links_hold(memory),
        page.is_block(block as int),
        !page.free.contains(block),
    ensures
        page.returned(block).links_hold(
            memory.update(page.link_index(block as int), link_word(block_at(page.free, 0))),
        ),
{
    let after = page.returned(block);
    let free = after.free;
    let written = memory.update(page.link_index(block as int), link_word(block_at(page.free, 0)));
    lemma_link_index(page, block as int);
    assert forall|i: int|
        0 <= i < free.len() implies written[#[trigger] after.link_index(free[i] as int)]
            == link_word(block_at(free, i + 1)) by {
        if i > 0 {
            assert(free[i] == page.free[i - 1]);
            lemma_link_index(page, free[i] as int);
        }
    }
}

/// The first free block starts with the link that taking it needs, and the
/// remaining free blocks stay linked.
pub proof fn take_keeps_links(page: PageView, memory: Seq<usize>)
    requires
        page.wf(),
        page.links_hold(memory),
        page.free.len() > 0,
    ensures
        0 <= page.link_index(page.free[0] as int) < memory.len(),
        memory[page.link_index(page.free[0] as int)] == link_word(block_at(page.free, 1)),
        page.taken().links_hold(memory),
{
    let after = page.taken();
    let free = after.free;
    assert(page.is_block(page.free[0] as int));
    lemma_link_index(page, page.free[0] as int);
    assert forall|i: int|
        0 <= i < free.len() implies memory[#[trigger] after.link_index(free[i] as int)]
            == link_word(block_at(free, i + 1)) by {
        assert(after.link_index(free[i] as int) == page.link_index(page.free[i + 1] as int));
    }
}

/// The user may write anything into an allocated block: the links of the free
/// blocks are out of its reach.
pub proof fn writes_to_allocated_blocks_keep_links(
    page: PageView,
    memory: Seq<usize>,
    written: Seq<usize>,
    block: usize,
)
    requires
        page.wf(),
        page.links_hold(memory),
        page.is_block(block as int),
        !page.free.contains(block),
        written.len() == memory.len(),
        forall|w: int|
            0 <= w < memory.len() && !page.in_block(block as int, w) ==> #[trigger] written[w]
                == memory[w],
    ensures
        page.links_hold(written),
{
    assert forall|i: int|
        0 <= i < page.free.len() implies written[#[trigger] page.link_index(page.free[i] as int)]
            == link_word(block_at(page.free, i + 1)) by {
        let other = page.free[i];
        assert(page.is_block(other as int));
        lemma_link_index(page, other as int);
        words_belong_to_one_block(
            page,
            block as int,
            other as int,
            page.link_index(other as int),
        );
    }
}

/// No word of the page belongs to two blocks, and a block's link is its own.
pub proof fn words_belong_to_one_block(page: PageView, block: int, other: int, word: int)
    requires
        page.wf(),
        page.is_block(block),
        page.is_block(other),
        block != other,
    ensures
        page.in_block(block, page.link_index(block)),
        page.in_block(block, word) ==> !page.in_block(other, word),
{
    let i = choose|i: int| 0 <= i < page.block_count && block == #[trigger] page.block_address(i);
    let j = choose|j: int| 0 <= j < page.block_count && other == #[trigger] page.block_address(j);
    lemma_link_index(page, block);
    lemma_link_index(page, other);
    if i < j {
        blocks_do_not_overlap(page, i, j);
    } else {
        blocks_do_not_overlap(page, j, i);
    }
}

/// Linking a block into the free list leaves the words of all others alone.
pub proof fn return_leaves_other_blocks_alone(
    page: PageView,
    memory: Seq<usize>,
    block: int,
    link: usize,
    other: int,
    word: int,
)
    requires
        page.wf(),
        memory.len() == page.size / (WORD_SIZE as int),
        page.is_block(block),
        page.is_block(other),
        block != other,
        0 <= word < memory.len(),
        page.in_block(other, word),
    ensures
        memory.update(page.link_index(block), link)[word] == memory[word],
{
    lemma_link_index(page, block);
    words_belong_to_one_block(page, block, other, word);
}

/// Whatever its class, a block that the size classes choose can hold a link
/// and divides a page of any number of such blocks.
pub proof fn chosen_blocks_divide_pages(request_size: int, count: int)
    requires
        0 <= request_size,
        0 < count,
    ensures
        valid_layout(count * block_size_for(request_size), block_size_for(request_size)),
{
    let block_size = block_size_for(request_size);
    block_holds_request(request_size);
    vstd::arithmetic::div_mod::lemma_mod_multiples_basic(count, block_size);
    assert(0 < count * block_size) by (nonlinear_arith)
        requires
            0 < count,
            0 < block_size,
    ;
}

/// Any number of blocks of any number of words makes a page.
pub proof fn whole_blocks_make_a_page(words: int, count: int)
    requires
        0 < words,
        0 < count,
    ensures
        valid_layout(count * (8 * words), 8 * words),
{
    vstd::arithmetic::div_mod::lemma_mod_multiples_basic(count, 8 * words);
    assert(0 < count * (8 * words)) by (nonlinear_arith)
        requires
            0 < count,
            0 < words,
    ;
}

/// A page consists of whole blocks, at least one, and a block of whole words.
pub proof fn pages_consist_of_whole_blocks(page_size: int, block_size: int)
    requires
        valid_layout(page_size, block_size),
    ensures
        0 < page_size,
        8 <= block_size,
        block_size % 8 == 0,
        page_size == block_size * (page_size / block_size),
        0 < page_size / block_size,
{
    let count = page_size / block_size;
    vstd::arithmetic::div_mod::lemma_fundamental_div_mod(page_size, block_size);
    assert(0 < count) by (nonlinear_arith)
        requires
            page_size == block_size * count,
            0 < page_size,
            0 < block_size,
    ;
}

/// A page may lie at any word boundary but the null address, as long as its
/// last byte has an address.
pub proof fn pages_lie_at_word_boundaries(start: int, size: int)
    ensures
        valid_mapping(start, size) <==> {
            &&& start != 0
            &&& exists|words: int| 0 <= words && start == #[trigger] (8 * words)
            &&& start + size - 1 <= usize::MAX
        },
{
    if valid_mapping(start, size) {
        assert(start == 8 * (start / 8));
    }
}

/// The first block starts the page, and each further one starts where the one
/// before it ends.
pub proof fn blocks_lie_end_to_end(page: PageView, block_index: int)
    ensures
        page.block_address(0) == page.start,
        page.block_address(block_index + 1) == page.block_address(block_index) + page.block_size,
        page.block_address(block_index) == page.start + block_index * page.block_size,
{
    assert((block_index + 1) * page.block_size == block_index * page.block_size + page.block_size)
        by (nonlinear_arith);
}

/// A word of the page belongs to the block that its position, divided by the
/// number of words in a block, names; the link is the first of these words.
pub proof fn words_are_divided_among_blocks(page: PageView, block_index: int, word: int)
    requires
        page.wf(),
        0 <= block_index < page.block_count,
    ensures
        page.in_block(page.block_address(block_index), word) <==> word / (page.block_size / 8)
            == block_index,
        page.link_index(page.block_address(block_index)) == block_index * (page.block_size / 8),
{
    let words = page.block_size / 8;
    let first = block_index * words;
    assert(block_index * page.block_size == 8 * first) by (nonlinear_arith)
        requires
            page.block_size == 8 * words,
            first == block_index * words,
    ;
    vstd::arithmetic::div_mod::lemma_fundamental_div_mod(word, words);
    if first <= word < first + words {
        vstd::arithmetic::div_mod::lemma_fundamental_div_mod_converse(
            word,
            words,
            block_index,
            word - first,
        );
    }
    vstd::arithmetic::mul::lemma_mul_is_commutative(block_index, words);
}

/// The memory is linked when the first word of each free block is the address
/// of the next one, and zero in the last.
pub proof fn links_name_the_next_free_block(page: PageView, memory: Seq<usize>)
    ensures
        page.links_hold(memory) <==> {
            &&& memory.len() == page.size / 8
            &&& forall|i: int|
                0 <= i < page.free.len() ==> memory[(#[trigger] page.free[i] - page.start) / 8] == (
                if i + 1 < page.free.len() {
                    page.free[i + 1]
                } else {
                    0
                })
        },
{
    let word = |i: int| (page.free[i] - page.start) / 8;
    assert forall|i: int| #[trigger] page.link_index(page.free[i] as int) == word(i) by {}
    if page.links_hold(memory) {
        assert forall|i: int| 0 <= i < page.free.len() implies memory[(#[trigger] page.free[i]
            - page.start) / 8] == (if i + 1 < page.free.len() {
            page.free[i + 1]
        } else {
            0
        }) by {
            assert(page.link_index(page.free[i] as int) == word(i));
        }
    }
}

/// In a linked page whose blocks are all free, each block starts with the
/// address of the block behind it, and the last one with zero.
pub proof fn fresh_page_is_linked_in_address_order(page: PageView, memory: Seq<usize>)
    requires
        page.wf(),
        page.free == page.blocks(),
        page.links_hold(memory),
    ensures
        page.free.len() == page.block_count,
        forall|i: int|
            0 <= i < page.block_count ==> {
                &&& #[trigger] page.free[i] == page.start + i * page.block_size
                &&& memory[i * (page.block_size / 8)] == (if i + 1 < page.block_count {
                    page.start + (i + 1) * page.block_size
                } else {
                    0
                })
            },
{
    blocks_are_distinct(page);
    assert forall|i: int| 0 <= i < page.block_count implies {
        &&& #[trigger] page.free[i] == page.start + i * page.block_size
        &&& memory[i * (page.block_size / 8)] == (if i + 1 < page.block_count {
            page.start + (i + 1) * page.block_size
        } else {
            0
        })
    } by {
        assert(page.blocks()[i] == page.block_address(i));
        words_are_divided_among_blocks(page, i, 0);
        assert(memory[page.link_index(page.free[i] as int)] == link_word(
            block_at(page.free, i + 1),
        ));
        if i + 1 < page.block_count {
            assert(page.blocks()[i + 1] == page.block_address(i + 1));
        }
    }
}

/// The allocated blocks are the blocks of the page that are not free.
pub proof fn allocated_blocks_are_not_free(page: PageView, address: usize)
    requires
        page.wf(),
    ensures
        page.allocated().contains(address) <==> page.is_block(address as int)
            && !page.free.contains(address),
{
    blocks_are_distinct(page);
    assert(page.blocks().contains(address) == page.is_block(address as int));
}

/// Taking from a page without a free block leaves it as it is. From any other
/// page the first free block goes, and nothing else changes.
pub proof fn take_changes_only_the_free_blocks(page: PageView)
    ensures
        page.free.len() == 0 ==> page.taken() == page,
        page.free.len() > 0 ==> page.taken() == (PageView { free: page.free.skip(1), ..page }),
        page.taken().start == page.start,
        page.taken().size == page.size,
        page.taken().block_size == page.block_size,
        page.taken().block_count == page.block_count,
        page.taken().free == after_take(page.free),
{
    take_removes_only_the_first(page.free);
    if page.free.len() == 0 {
        assert(page.taken().free =~= page.free);
    }
}

/// Returning a block puts it in front of the free blocks, and nothing else
/// changes.
pub proof fn return_changes_only_the_free_blocks(page: PageView, block: usize)
    ensures
        page.returned(block).start == page.start,
        page.returned(block).size == page.size,
        page.returned(block).block_size == page.block_size,
        page.returned(block).block_count == page.block_count,
        page.returned(block).free.len() == page.free.len() + 1,
        page.returned(block).free[0] == block,
        page.returned(block).free.skip(1) == page.free,
        page.returned(block).free == after_return(page.free, block),
{
    return_adds_only_in_front(page.free, block);
}

/// Taking never makes an allocated block available again: what is in use
/// stays in use, and the block that is handed out was not.
pub proof fn take_keeps_allocated_blocks(page: PageView)
    requires
        page.wf(),
    ensures
        page.allocated().subset_of(page.taken().allocated()),
        page.free.len() == 0 ==> page.taken().allocated() == page.allocated(),
        forall|i: int|
            0 <= i < page.taken().free.len() ==> !page.allocated().contains(
                #[trigger] page.taken().free[i],
            ),
{
    take_changes_only_the_free_blocks(page);
    if page.free.len() > 0 {
        take_allocates_one_block(page);
        assert forall|i: int| 0 <= i < page.taken().free.len() implies !page.allocated().contains(
            #[trigger] page.taken().free[i],
        ) by {
            assert(page.taken().free[i] == page.free[i + 1]);
            assert(page.free.contains(page.free[i + 1]));
        }
    }
}

/// Taking a returned block gives the page back as it was before the return,
/// and so does returning the block that was taken.
pub proof fn page_take_and_return_undo_each_other(page: PageView, block: usize)
    ensures
        page.returned(block).taken() == page,
        page.free.len() > 0 ==> page.taken().returned(page.free[0]) == page,
{
    take_changes_only_the_free_blocks(page);
    return_changes_only_the_free_blocks(page, block);
    take_changes_only_the_free_blocks(page.returned(block));
    if page.free.len() > 0 {
        let again = page.taken().returned(page.free[0]);
        return_changes_only_the_free_blocks(page.taken(), page.free[0]);
        assert forall|i: int| 0 <= i < page.free.len() implies again.free[i] == page.free[i] by {
            if i > 0 {
                assert(again.free.skip(1)[i - 1] == page.taken().free[i - 1]);
            }
        }
        assert(again.free =~= page.free);
    }
}

} // verus!
