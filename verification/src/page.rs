//! One contiguous allocator page, divided into equal-size blocks.

use crate::free_list::{
    after_return, after_take, block_at, link_word, valid_list, IntrusiveFreeList,
};
use crate::page_laws::{
    blocks_start_at_multiples, fresh_page_is_linked_in_address_order, lemma_block_offset,
    lemma_link_index, return_changes_only_the_free_blocks, return_keeps_links,
    return_keeps_page_valid, take_changes_only_the_free_blocks, take_keeps_page_valid,
};
use crate::size_class::WORD_SIZE;
use vstd::prelude::*;

verus! {

/// Why a page could not be made.
#[derive(Clone, Copy, Debug, Eq, PartialEq, Structural)]
pub enum PageError {
    /// The page size cannot be divided into blocks of the given size.
    InvalidArgument,
    /// The operating system refused a request, with this error number.
    Os(i32),
}

/// Whether a page of `page_size` bytes divides evenly into blocks of
/// `block_size` bytes that can each hold an aligned link.
pub open spec fn valid_layout(page_size: int, block_size: int) -> bool {
    &&& 0 < page_size
    &&& WORD_SIZE <= block_size
    &&& block_size % (WORD_SIZE as int) == 0
    &&& page_size % block_size == 0
}

/// Whether `size` bytes of word-aligned memory can lie at address `start`.
pub open spec fn valid_mapping(start: int, size: int) -> bool {
    &&& 0 < start
    &&& start % (WORD_SIZE as int) == 0
    &&& start + size <= usize::MAX + 1
}

/// The contents of a page: where it lies, how it is divided, what is free.
pub ghost struct PageView {
    /// Starting address of the page's memory.
    pub start: int,
    /// Total number of mapped bytes.
    pub size: int,
    /// Number of bytes in each block.
    pub block_size: int,
    /// Number of blocks.
    pub block_count: int,
    /// Addresses of the free blocks, the next one to be taken first.
    pub free: Seq<usize>,
}

impl PageView {
    /// Address of the block with the given index.
    pub open spec fn block_address(self, block_index: int) -> int {
        self.start + block_index * self.block_size
    }

    /// Whether `address` is where one of the blocks starts.
    pub open spec fn is_block(self, address: int) -> bool {
        exists|block_index: int|
            0 <= block_index < self.block_count && address == #[trigger] self.block_address(
                block_index,
            )
    }

    /// Addresses of all blocks, in address order.
    pub open spec fn blocks(self) -> Seq<usize> {
        Seq::new(self.block_count as nat, |block_index: int| self.block_address(block_index) as usize)
    }

    /// Addresses of the blocks that are in use.
    pub open spec fn allocated(self) -> Set<usize> {
        self.blocks().to_set().difference(self.free.to_set())
    }

    /// The page after its first free block has been taken.
    pub open spec fn taken(self) -> PageView {
        PageView { free: after_take(self.free), ..self }
    }

    /// The page after `block` has been returned.
    pub open spec fn returned(self, block: usize) -> PageView {
        PageView { free: after_return(self.free, block), ..self }
    }

    /// Whether the page consists of complete blocks in addressable memory and
    /// lists free blocks of its own only, each once.
    pub open spec fn wf(self) -> bool {
        &&& valid_layout(self.size, self.block_size)
        &&& valid_mapping(self.start, self.size)
        &&& self.block_count == self.size / self.block_size
        &&& valid_list(self.free)
        &&& forall|i: int| 0 <= i < self.free.len() ==> self.is_block(#[trigger] self.free[i] as int)
    }

    /// Position, in the page's memory, of the word at the start of a block.
    pub open spec fn link_index(self, address: int) -> int {
        (address - self.start) / (WORD_SIZE as int)
    }

    /// Whether the word at position `word` belongs to the block at `address`.
    pub open spec fn in_block(self, address: int, word: int) -> bool {
        address <= self.start + WORD_SIZE * word < address + self.block_size
    }

    /// Whether each free block of `memory`, the words of the page, starts with
    /// the link to the next one.
    pub open spec fn links_hold(self, memory: Seq<usize>) -> bool {
        &&& memory.len() == self.size / (WORD_SIZE as int)
        &&& forall|i: int|
            0 <= i < self.free.len() ==> memory[#[trigger] self.link_index(self.free[i] as int)]
                == link_word(block_at(self.free, i + 1))
    }
}

/// Owns one contiguous allocator page divided into equal-size blocks.
///
/// A block is one allocation slot within the page. A well-formed page
/// guarantees:
///
/// - the page and block sizes are nonzero;
/// - the page contains only complete blocks;
/// - every valid block address is within the page.
pub struct Page {
    /// Starting address of this page's memory.
    start: usize,
    /// Total number of mapped bytes owned by the page.
    size: usize,
    /// Number of bytes in each block.
    block_size: usize,
    /// Number of complete blocks that fit in the page.
    block_count: usize,
    /// Blocks currently available for allocation.
    free_list: IntrusiveFreeList,
}

impl View for Page {
    type V = PageView;

    closed spec fn view(&self) -> PageView {
        PageView {
            start: self.start as int,
            size: self.size as int,
            block_size: self.block_size as int,
            block_count: self.block_count as int,
            free: self.free_list@,
        }
    }
}

/// Returns whether a page divides evenly into blocks that can hold links.
pub(crate) fn layout_is_valid(page_size: usize, block_size: usize) -> (valid: bool)
    ensures
        valid == valid_layout(page_size as int, block_size as int),
        valid <==> 0 < page_size && 8 <= block_size && block_size % 8 == 0 && page_size
            % block_size == 0,
{
    !(page_size == 0 || block_size < WORD_SIZE || !block_size.is_multiple_of(WORD_SIZE)
        || !page_size.is_multiple_of(block_size))
}

impl Page {
    /// Whether the page's contents are valid and its free list is well formed.
    pub open spec fn wf(&self) -> bool {
        &&& self@.wf()
        &&& self.free_list_wf()
    }

    /// Whether the free list is well formed.
    pub closed spec fn free_list_wf(&self) -> bool {
        self.free_list.wf()
    }

    /// Divides a mapping into blocks when its size divides evenly.
    ///
    /// `memory` holds the words of the mapping at address `start`. All blocks
    /// are free at first and are taken in address order; only their links are
    /// written.
    pub fn new(page_size: usize, block_size: usize, start: usize, memory: &mut [usize]) -> (page:
        Result<Self, PageError>)
        requires
            valid_layout(page_size as int, block_size as int) ==> {
                &&& valid_mapping(start as int, page_size as int)
                &&& old(memory)@.len() == page_size / WORD_SIZE
            },
        ensures
            page is Ok <==> valid_layout(page_size as int, block_size as int),
            page is Ok <==> 0 < page_size && 8 <= block_size && block_size % 8 == 0 && page_size
                % block_size == 0,
            page matches Err(error) ==> {
                &&& error == PageError::InvalidArgument
                &&& final(memory)@ == old(memory)@
            },
            page matches Ok(page) ==> {
                &&& page.wf()
                &&& page@.start == start
                &&& page@.size == page_size
                &&& page@.block_size == block_size
                &&& page@.block_count == page_size / block_size
                &&& page@.free == page@.blocks()
                &&& page@.links_hold(final(memory)@)
                &&& forall|w: int|
                    0 <= w < final(memory)@.len() && w % (block_size / WORD_SIZE) as int != 0
                        ==> #[trigger] final(memory)@[w] == old(memory)@[w]
            },
            page matches Ok(page) ==> {
                &&& page@.free.len() == page_size / block_size
                &&& forall|i: int|
                    0 <= i < page_size / block_size ==> {
                        &&& #[trigger] page@.free[i] == start + i * block_size
                        &&& final(memory)@[i * (block_size / 8)] == (if i + 1 < page_size
                            / block_size {
                            start + (i + 1) * block_size
                        } else {
                            0
                        })
                    }
            },
    {
        if !layout_is_valid(page_size, block_size) {
            return Err(PageError::InvalidArgument);
        }
        let mut page = Page {
            start,
            size: page_size,
            block_size,
            block_count: page_size / block_size,
            free_list: IntrusiveFreeList::new(),
        };
        let words_per_block: usize = block_size / WORD_SIZE;
        let ghost view = page@;
        let mut block_index: usize = page.block_count;
        while block_index > 0
            invariant
                page.wf(),
                page@ == (PageView { free: page@.free, ..view }),
                view.start == start,
                view.size == page_size,
                view.block_size == block_size,
                view.block_count == page_size / block_size,
                words_per_block == block_size / WORD_SIZE,
                0 <= block_index <= view.block_count,
                memory@.len() == page_size / WORD_SIZE,
                page@.free == Seq::new(
                    (view.block_count - block_index) as nat,
                    |i: int| view.block_address(block_index + i) as usize,
                ),
                page@.links_hold(memory@),
                forall|w: int|
                    0 <= w < memory@.len() && w % (words_per_block as int) != 0
                        ==> #[trigger] memory@[w] == old(memory)@[w],
            decreases block_index,
        {
            block_index = block_index - 1;
            proof {
                lemma_block_offset(view.size, view.block_size, view.block_count, block_index as int);
            }
            let block = page.block_ptr(block_index).unwrap();
            let ghost before = page@;
            let ghost words = memory@;
            proof {
                assert(before.is_block(block as int)) by {
                    assert(block == before.block_address(block_index as int));
                }
                lemma_link_index(before, block as int);
                assert(before.link_index(block as int) == block_index * words_per_block) by {
                    assert(block_index * block_size == WORD_SIZE * (block_index * words_per_block))
                        by (nonlinear_arith)
                        requires
                            block_size == WORD_SIZE * words_per_block,
                    ;
                }
                assert forall|i: int| 0 <= i < before.free.len() implies before.free[i] != block by {
                    let later = block_index + 1 + i;
                    lemma_block_offset(view.size, view.block_size, view.block_count, later);
                    assert(block_index * block_size < later * block_size) by (nonlinear_arith)
                        requires
                            block_index < later,
                            0 < block_size,
                    ;
                    assert(before.free[i] == view.block_address(later));
                }
                return_keeps_links(before, words, block);
                vstd::arithmetic::div_mod::lemma_mod_multiples_basic(
                    block_index as int,
                    words_per_block as int,
                );
            }
            page.return_free_block(block, &mut memory[block_index * words_per_block]);
            assert(memory@ =~= words.update(
                before.link_index(block as int),
                link_word(block_at(before.free, 0)),
            ));
        }
        assert(page@.free =~= page@.blocks());
        proof {
            fresh_page_is_linked_in_address_order(page@, memory@);
        }
        Ok(page)
    }

    /// Returns the starting address of the page's memory.
    pub fn start(&self) -> (start: usize)
        ensures
            start == self@.start,
    {
        self.start
    }

    /// Returns the total number of mapped bytes.
    pub fn size(&self) -> (size: usize)
        ensures
            size == self@.size,
    {
        self.size
    }

    /// Returns the number of bytes in each block.
    pub fn block_size(&self) -> (block_size: usize)
        ensures
            block_size == self@.block_size,
    {
        self.block_size
    }

    /// Returns the number of blocks in the page.
    pub fn block_count(&self) -> (block_count: usize)
        ensures
            block_count == self@.block_count,
    {
        self.block_count
    }

    /// Returns a block's address, or `None` when the index is outside the page.
    pub fn block_ptr(&self, block_index: usize) -> (block: Option<usize>)
        requires
            self.wf(),
        ensures
            block is Some <==> block_index < self@.block_count,
            block matches Some(address) ==> {
                &&& address == self@.block_address(block_index as int)
                &&& address == self@.start + block_index * self@.block_size
            },
    {
        if block_index >= self.block_count {
            return None;
        }
        proof {
            lemma_block_offset(
                self.size as int,
                self.block_size as int,
                self.block_count as int,
                block_index as int,
            );
        }
        let offset = block_index.checked_mul(self.block_size)?;
        Some(self.start + offset)
    }

    /// Returns the first free block without removing it.
    pub fn first_free_block(&self) -> (block: Option<usize>)
        requires
            self.wf(),
        ensures
            block == block_at(self@.free, 0),
            block is Some <==> self@.free.len() > 0,
            block matches Some(address) ==> address == self@.free[0],
    {
        self.free_list.first()
    }

    /// Removes and returns the first free block.
    ///
    /// `link` is the word at the start of that block. It is not looked at when
    /// no block is free.
    pub fn take_free_block(&mut self, link: usize) -> (block: Option<usize>)
        requires
            old(self).wf(),
            old(self)@.free.len() > 0 ==> link == link_word(block_at(old(self)@.free, 1)),
        ensures
            final(self).wf(),
            block == block_at(old(self)@.free, 0),
            final(self)@ == old(self)@.taken(),
            final(self)@ == (PageView { free: final(self)@.free, ..old(self)@ }),
            old(self)@.free.len() == 0 ==> block is None && final(self)@ == old(self)@,
            old(self)@.free.len() > 0 ==> block == Some(old(self)@.free[0]) && final(self)@.free
                == old(self)@.free.skip(1),
    {
        proof {
            take_changes_only_the_free_blocks(self@);
            take_keeps_page_valid(self@);
        }
        self.free_list.take(link)
    }

    /// Returns an allocated block to the front of the free list.
    ///
    /// `link` is the word at the start of the block, which must have been taken
    /// from this page and must not already be free.
    pub fn return_free_block(&mut self, block: usize, link: &mut usize)
        requires
            old(self).wf(),
            old(self)@.is_block(block as int),
            !old(self)@.free.contains(block),
        ensures
            final(self).wf(),
            final(self)@ == old(self)@.returned(block),
            *final(link) == link_word(block_at(old(self)@.free, 0)),
            final(self)@ == (PageView { free: final(self)@.free, ..old(self)@ }),
            final(self)@.free.len() == old(self)@.free.len() + 1,
            final(self)@.free[0] == block,
            final(self)@.free.skip(1) == old(self)@.free,
            *final(link) == (if old(self)@.free.len() > 0 {
                old(self)@.free[0]
            } else {
                0
            }),
    {
        proof {
            return_changes_only_the_free_blocks(self@, block);
            blocks_start_at_multiples(self@, block as int);
            return_keeps_page_valid(self@, block);
        }
        self.free_list.return_block(block, link);
    }

    /// Returns whether the address identifies a block boundary in this page.
    pub fn contains_block(&self, block: usize) -> (contained: bool)
        requires
            self.wf(),
        ensures
            contained == self@.is_block(block as int),
            contained <==> {
                &&& self@.start <= block < self@.start + self@.size
                &&& (block - self@.start) % self@.block_size == 0
            },
    {
        proof {
            blocks_start_at_multiples(self@, block as int);
        }
        let Some(offset) = block.checked_sub(self.start) else {
            return false;
        };
        offset < self.size && offset.is_multiple_of(self.block_size)
    }
}

} // verus!
