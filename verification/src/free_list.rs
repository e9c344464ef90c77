//! A singly linked list whose links lie inside the free blocks themselves.
//!
//! ```text
//! Page memory
//! +----------------+----------------+----------------+----------------+
//! | block 0: free  | block 1: used  | block 2: free  | block 3: free  |
//! | next -> block2 | user bytes     | next -> block3 | next -> null   |
//! +----------------+----------------+----------------+----------------+
//!          ^
//!          |
//! free list head -> block 0 -> block 2 -> block 3 -> null
//! ```
//!
//! Blocks are named by their addresses. The first machine word of a free block
//! is its link; whoever holds the memory passes that one word in.

use vstd::prelude::*;

verus! {

/// The word that stands for an optional block address in a link.
pub open spec fn link_word(next: Option<usize>) -> usize {
    match next {
        Some(address) => address,
        None => 0,
    }
}

/// The optional block address that a link word stands for.
pub open spec fn linked_block(link: usize) -> Option<usize> {
    if link == 0 {
        None
    } else {
        Some(link)
    }
}

/// The block at position `index` of a list, if the list is that long.
pub open spec fn block_at(blocks: Seq<usize>, index: int) -> Option<usize> {
    if 0 <= index < blocks.len() {
        Some(blocks[index])
    } else {
        None
    }
}

/// The list that is left when the first block is removed.
pub open spec fn after_take(blocks: Seq<usize>) -> Seq<usize> {
    if blocks.len() == 0 {
        blocks
    } else {
        blocks.drop_first()
    }
}

/// The list that results when `block` is put in front.
pub open spec fn after_return(blocks: Seq<usize>, block: usize) -> Seq<usize> {
    seq![block] + blocks
}

/// The list after `count` blocks have been taken.
pub open spec fn after_takes(blocks: Seq<usize>, count: nat) -> Seq<usize>
    decreases count,
{
    if count == 0 {
        blocks
    } else {
        after_take(after_takes(blocks, (count - 1) as nat))
    }
}

/// The list after the blocks of `returned` have been put in front, one by one.
pub open spec fn after_returns(blocks: Seq<usize>, returned: Seq<usize>) -> Seq<usize>
    decreases returned.len(),
{
    if returned.len() == 0 {
        blocks
    } else {
        after_return(after_returns(blocks, returned.drop_last()), returned.last())
    }
}

/// Whether a list names each block once and never the null address.
pub open spec fn valid_list(blocks: Seq<usize>) -> bool {
    &&& blocks.no_duplicates()
    &&& !blocks.contains(0)
}

/// Stores a singly linked list inside the free blocks themselves.
///
/// The list does not own block memory. Each free block stores the address of
/// the next free block in its first machine word. The view is the sequence of
/// block addresses, the next one to be taken first.
pub struct IntrusiveFreeList {
    /// First free block, or `None` when the list is empty.
    head: Option<usize>,
    /// All free blocks, in the order in which the links visit them.
    blocks: Ghost<Seq<usize>>,
}

impl View for IntrusiveFreeList {
    type V = Seq<usize>;

    closed spec fn view(&self) -> Seq<usize> {
        self.blocks@
    }
}

impl IntrusiveFreeList {
    /// Whether the list names each block once, never the null address, and its
    /// head is the first of them.
    pub open spec fn wf(&self) -> bool {
        &&& valid_list(self@)
        &&& self.head_is_first()
    }

    /// Whether the head is the first block of the list.
    pub closed spec fn head_is_first(&self) -> bool {
        self.head == block_at(self@, 0)
    }

    /// Creates an empty free list.
    pub fn new() -> (list: Self)
        ensures
            list.wf(),
            list@ == Seq::<usize>::empty(),
    {
        IntrusiveFreeList { head: None, blocks: Ghost(Seq::empty()) }
    }

    /// Returns the first free block without removing it.
    pub fn first(&self) -> (block: Option<usize>)
        requires
            self.wf(),
        ensures
            block == block_at(self@, 0),
            block is Some <==> self@.len() > 0,
            block matches Some(address) ==> address == self@[0],
    {
        self.head
    }

    /// Removes and returns the first free block.
    ///
    /// `link` is the word at the start of that block, as
    /// [`return_block`](Self::return_block) left it there. It is not looked at
    /// when the list is empty.
    pub fn take(&mut self, link: usize) -> (block: Option<usize>)
        requires
            old(self).wf(),
            old(self)@.len() > 0 ==> link == link_word(block_at(old(self)@, 1)),
        ensures
            final(self).wf(),
            block == block_at(old(self)@, 0),
            final(self)@ == after_take(old(self)@),
            old(self)@.len() == 0 ==> block is None && final(self)@ == old(self)@,
            old(self)@.len() > 0 ==> block == Some(old(self)@[0]) && final(self)@
                == old(self)@.skip(1),
    {
        proof {
            take_removes_only_the_first(self@);
        }
        let block = self.head?;
        self.head = Self::read_next(link);
        self.blocks = Ghost(self.blocks@.drop_first());
        Some(block)
    }

    /// Adds a block to the front of the free list.
    ///
    /// `link` is the word at the start of the block. The block must not belong
    /// to the list.
    pub fn return_block(&mut self, block: usize, link: &mut usize)
        requires
            old(self).wf(),
            block != 0,
            !old(self)@.contains(block),
        ensures
            final(self).wf(),
            final(self)@ == after_return(old(self)@, block),
            *final(link) == link_word(block_at(old(self)@, 0)),
            final(self)@.len() == old(self)@.len() + 1,
            final(self)@[0] == block,
            final(self)@.skip(1) == old(self)@,
            *final(link) == (if old(self)@.len() > 0 {
                old(self)@[0]
            } else {
                0
            }),
    {
        proof {
            return_adds_only_in_front(self@, block);
        }
        Self::write_next(link, self.head);
        self.head = Some(block);
        self.blocks = Ghost(seq![block] + self.blocks@);
    }

    /// Reads the next-free link stored at the start of a free block.
    pub fn read_next(link: usize) -> (next: Option<usize>)
        ensures
            next == linked_block(link),
            next is None <==> link == 0,
            next matches Some(address) ==> address == link,
    {
        if link == 0 {
            None
        } else {
            Some(link)
        }
    }

    /// Writes a next-free link into the start of a free block.
    pub fn write_next(link: &mut usize, next: Option<usize>)
        ensures
            *final(link) == link_word(next),
            next is None ==> *final(link) == 0,
            next matches Some(address) ==> *final(link) == address,
    {
        *link = match next {
            Some(address) => address,
            None => 0,
        };
    }
}

/// Reading a link gives back the block that was written into it.
pub proof fn read_gives_back_written_link(next: Option<usize>)
    requires
        next != Some(0usize),
    ensures
        linked_block(link_word(next)) == next,
{
}

/// A link is the address of the next block, and zero where there is none.
pub proof fn links_are_addresses(link: usize)
    ensures
        link_word(None) == 0,
        link_word(Some(link)) == link,
        linked_block(link) is None <==> link == 0,
        linked_block(link) matches Some(address) ==> address == link,
{
}

/// A position within the list names the block there, and any other names none.
pub proof fn positions_name_blocks(blocks: Seq<usize>, index: int)
    ensures
        block_at(blocks, index) is Some <==> 0 <= index < blocks.len(),
        0 <= index < blocks.len() ==> block_at(blocks, index) == Some(blocks[index]),
{
}

/// Taking from an empty list leaves it empty. From any other list the first
/// block goes, and all others stay in their order.
pub proof fn take_removes_only_the_first(blocks: Seq<usize>)
    ensures
        blocks.len() == 0 ==> after_take(blocks).len() == 0,
        blocks.len() > 0 ==> after_take(blocks) == blocks.skip(1),
        blocks.len() > 0 ==> after_take(blocks).len() == blocks.len() - 1,
        forall|i: int|
            0 <= i < blocks.len() - 1 ==> #[trigger] after_take(blocks)[i] == blocks[i + 1],
{
    if blocks.len() > 0 {
        assert(blocks.drop_first() =~= blocks.skip(1));
    }
}

/// A returned block becomes the first, and all others stay in their order.
pub proof fn return_adds_only_in_front(blocks: Seq<usize>, block: usize)
    ensures
        after_return(blocks, block).len() == blocks.len() + 1,
        after_return(blocks, block)[0] == block,
        after_return(blocks, block).skip(1) == blocks,
        forall|i: int|
            0 <= i < blocks.len() ==> #[trigger] after_return(blocks, block)[i + 1] == blocks[i],
{
    assert(after_return(blocks, block).skip(1) =~= blocks);
}

/// A list is valid exactly when no two positions hold the same block and none
/// holds the null address.
pub proof fn valid_lists_name_blocks_once(blocks: Seq<usize>)
    ensures
        valid_list(blocks) <==> {
            &&& forall|i: int| 0 <= i < blocks.len() ==> #[trigger] blocks[i] != 0
            &&& forall|i: int, j: int|
                0 <= i < j < blocks.len() ==> #[trigger] blocks[i] != #[trigger] blocks[j]
        },
{
    if !blocks.no_duplicates() {
        let (i, j) = choose|i: int, j: int|
            0 <= i < blocks.len() && 0 <= j < blocks.len() && i != j && blocks[i] == blocks[j];
        if i < j {
            assert(blocks[i] == blocks[j]);
        } else {
            assert(blocks[j] == blocks[i]);
        }
    }
}

/// A returned block is the next one taken, and taking it restores the list.
pub proof fn take_undoes_return(blocks: Seq<usize>, block: usize)
    ensures
        block_at(after_return(blocks, block), 0) == Some(block),
        after_take(after_return(blocks, block)) == blocks,
{
    assert(after_return(blocks, block).drop_first() =~= blocks);
}

/// Returning the block that was taken last restores the list.
pub proof fn return_undoes_take(blocks: Seq<usize>)
    requires
        blocks.len() > 0,
    ensures
        after_return(after_take(blocks), blocks[0]) == blocks,
{
    assert(seq![blocks[0]] + blocks.drop_first() =~= blocks);
}

/// Blocks are taken from the front, one after the other, until none is left.
pub proof fn takes_follow_list_order(blocks: Seq<usize>, count: nat)
    ensures
        block_at(after_takes(blocks, count), 0) == block_at(blocks, count as int),
        count <= blocks.len() ==> after_takes(blocks, count) == blocks.skip(count as int),
        blocks.len() <= count ==> after_takes(blocks, count).len() == 0,
    decreases count,
{
    if count == 0 {
        assert(blocks.skip(0) =~= blocks);
    } else {
        takes_follow_list_order(blocks, (count - 1) as nat);
        if count <= blocks.len() {
            assert(blocks.skip(count - 1).drop_first() =~= blocks.skip(count as int));
        }
    }
}

/// Returned blocks lie in front of the list, the last returned first.
proof fn lemma_returns_reverse(blocks: Seq<usize>, returned: Seq<usize>)
    ensures
        after_returns(blocks, returned) == returned.reverse() + blocks,
    decreases returned.len(),
{
    if returned.len() > 0 {
        lemma_returns_reverse(blocks, returned.drop_last());
    }
    assert(after_returns(blocks, returned) =~= returned.reverse() + blocks);
}

/// Returned blocks are taken again in last-returned, first-taken order, and
/// taking them all restores the list.
pub proof fn last_returned_is_first_taken(blocks: Seq<usize>, returned: Seq<usize>, count: nat)
    ensures
        count < returned.len() ==> block_at(
            after_takes(after_returns(blocks, returned), count),
            0,
        ) == Some(returned[returned.len() - 1 - count]),
        after_takes(after_returns(blocks, returned), returned.len()) == blocks,
{
    lemma_returns_reverse(blocks, returned);
    takes_follow_list_order(after_returns(blocks, returned), count);
    takes_follow_list_order(after_returns(blocks, returned), returned.len());
    assert((returned.reverse() + blocks).skip(returned.len() as int) =~= blocks);
}

/// Taking keeps a list valid, and so does returning a block that it lacks.
pub proof fn lists_stay_valid(blocks: Seq<usize>, block: usize)
    requires
        valid_list(blocks),
    ensures
        valid_list(after_take(blocks)),
        block != 0 && !blocks.contains(block) ==> valid_list(after_return(blocks, block)),
        blocks.len() > 0 ==> !after_take(blocks).contains(blocks[0]),
{
}

} // verus!
