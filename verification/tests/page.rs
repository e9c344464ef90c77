use mimalloc_rust::page::{Page, PageError};
use mimalloc_rust::size_class::SizeClass;

const PAGE_SIZE: usize = 4096;
const BLOCK_SIZE: usize = 64;
const START: usize = 0x7f00_0000_0000;

/// A page together with the words of its memory.
struct MappedPage {
    page: Page,
    memory: Vec<usize>,
}

impl MappedPage {
    fn new(page_size: usize, block_size: usize) -> Result<Self, PageError> {
        let mut memory = vec![0; page_size / 8];
        let page = Page::new(page_size, block_size, START, &mut memory)?;
        Ok(Self { page, memory })
    }

    fn take_free_block(&mut self) -> Option<usize> {
        let link = match self.page.first_free_block() {
            Some(block) => self.memory[(block - START) / 8],
            None => 0,
        };
        self.page.take_free_block(link)
    }

    fn return_free_block(&mut self, block: usize) {
        self.page.return_free_block(block, &mut self.memory[(block - START) / 8]);
    }

    fn write(&mut self, address: usize, value: u8) {
        let word = &mut self.memory[(address - START) / 8];
        let mut bytes = word.to_ne_bytes();
        bytes[(address - START) % 8] = value;
        *word = usize::from_ne_bytes(bytes);
    }

    fn read(&self, address: usize) -> u8 {
        self.memory[(address - START) / 8].to_ne_bytes()[(address - START) % 8]
    }
}

/// Checks that one page is divided into 64 aligned, non-overlapping blocks.
///
/// Each block should keep its own data, and the final block should end
/// exactly at the end of the page.
#[test]
fn divide_an_os_page_into_fixed_size_blocks() {
    let mut mapped = MappedPage::new(PAGE_SIZE, BLOCK_SIZE)
        .expect("the operating system should provide one allocator page");
    assert_eq!(mapped.page.block_count(), 64);
    assert_eq!(mapped.page.block_ptr(mapped.page.block_count()), None);

    for block_index in 0..mapped.page.block_count() {
        let expected_block = mapped
            .page
            .block_ptr(block_index)
            .expect("the block index should be within the page");
        let block = mapped
            .take_free_block()
            .expect("the page should still contain a free block");
        let marker = (block_index + 1) as u8;

        assert_eq!(block, expected_block);
        assert_eq!(block % mapped.page.block_size(), 0);
        for byte_offset in 0..mapped.page.block_size() {
            mapped.write(block + byte_offset, marker);
        }
    }
    assert_eq!(mapped.take_free_block(), None);

    for block_index in 0..mapped.page.block_count() {
        let block = mapped
            .page
            .block_ptr(block_index)
            .expect("the block index should be within the page");
        let expected_marker = (block_index + 1) as u8;

        for byte_offset in 0..mapped.page.block_size() {
            assert_eq!(mapped.read(block + byte_offset), expected_marker);
        }
    }

    let first_block = mapped
        .page
        .block_ptr(0)
        .expect("the first block should be within the page");
    let last_block = mapped
        .page
        .block_ptr(mapped.page.block_count() - 1)
        .expect("the last block should be within the page");
    assert_eq!(
        last_block + mapped.page.block_size(),
        first_block + mapped.page.size()
    );
}

/// Checks that every free block can be taken and returned.
///
/// The list should become empty after all blocks are taken. Returned blocks
/// should then be available again in last-returned, first-taken order.
#[test]
fn take_and_return_blocks_through_the_intrusive_free_list() {
    let mut mapped = MappedPage::new(PAGE_SIZE, BLOCK_SIZE)
        .expect("the operating system should provide one allocator page");

    for block_index in 0..mapped.page.block_count() {
        assert_eq!(mapped.take_free_block(), mapped.page.block_ptr(block_index));
    }
    assert_eq!(mapped.take_free_block(), None);

    for block_index in 0..mapped.page.block_count() {
        let block = mapped
            .page
            .block_ptr(block_index)
            .expect("the block index should be within the page");

        mapped.return_free_block(block);
    }

    for block_index in (0..mapped.page.block_count()).rev() {
        assert_eq!(mapped.take_free_block(), mapped.page.block_ptr(block_index));
    }
    assert_eq!(mapped.take_free_block(), None);
}

#[test]
fn page_reports_its_layout() {
    let mapped = MappedPage::new(72, 24).unwrap();
    assert_eq!(mapped.page.start(), START);
    assert_eq!(mapped.page.size(), 72);
    assert_eq!(mapped.page.block_size(), 24);
    assert_eq!(mapped.page.block_count(), 3);
    assert_eq!(mapped.page.block_ptr(0), Some(START));
    assert_eq!(mapped.page.block_ptr(2), Some(START + 48));
    assert_eq!(mapped.page.block_ptr(3), None);
    assert_eq!(mapped.page.block_ptr(usize::MAX), None);
    assert_eq!(mapped.page.first_free_block(), Some(START));
}

#[test]
fn fresh_page_links_its_blocks_in_address_order() {
    let mut memory = vec![5; 9];
    let page = Page::new(72, 24, START, &mut memory);
    assert!(page.is_ok());
    assert_eq!(memory, vec![START + 24, 5, 5, START + 48, 5, 5, 0, 5, 5]);
}

#[test]
fn invalid_layouts_make_no_page() {
    for (page_size, block_size) in
        [(0, 64), (4096, 0), (4096, 7), (4096, 12), (4096, 96), (64, 128)]
    {
        let mut memory = vec![3; page_size / 8];
        let page = Page::new(page_size, block_size, START, &mut memory);
        assert_eq!(page.err(), Some(PageError::InvalidArgument));
        assert_eq!(memory, vec![3; page_size / 8]);
    }
}

#[test]
fn only_block_boundaries_are_contained() {
    let mapped = MappedPage::new(PAGE_SIZE, BLOCK_SIZE).unwrap();
    let page = &mapped.page;
    assert!(page.contains_block(START));
    assert!(page.contains_block(START + 4032));
    assert!(!page.contains_block(START + 1));
    assert!(!page.contains_block(START + 32));
    assert!(!page.contains_block(START - 64));
    assert!(!page.contains_block(START + 4096));
    assert!(!page.contains_block(0));
    for block_index in 0..page.block_count() {
        assert!(page.contains_block(page.block_ptr(block_index).unwrap()));
    }
}

#[test]
fn user_data_survives_other_blocks_being_freed() {
    let mut mapped = MappedPage::new(256, 64).unwrap();
    let blocks: Vec<usize> = (0..4).map(|_| mapped.take_free_block().unwrap()).collect();
    for byte_offset in 0..64 {
        mapped.write(blocks[1] + byte_offset, 0xa5);
        mapped.write(blocks[2] + byte_offset, 0x5a);
    }
    mapped.return_free_block(blocks[3]);
    mapped.return_free_block(blocks[0]);
    for byte_offset in 0..64 {
        assert_eq!(mapped.read(blocks[1] + byte_offset), 0xa5);
        assert_eq!(mapped.read(blocks[2] + byte_offset), 0x5a);
    }
    mapped.return_free_block(blocks[2]);
    assert_eq!(mapped.take_free_block(), Some(blocks[2]));
    assert_eq!(mapped.take_free_block(), Some(blocks[0]));
    assert_eq!(mapped.take_free_block(), Some(blocks[3]));
    assert_eq!(mapped.take_free_block(), None);
}

#[test]
fn allocated_and_free_blocks_add_up() {
    let mut mapped = MappedPage::new(PAGE_SIZE, BLOCK_SIZE).unwrap();
    let mut allocated: Vec<usize> = Vec::new();
    for _ in 0..40 {
        allocated.push(mapped.take_free_block().unwrap());
    }
    for _ in 0..15 {
        mapped.return_free_block(allocated.remove(3));
    }
    let mut free = Vec::new();
    while let Some(block) = mapped.take_free_block() {
        free.push(block);
    }
    assert_eq!(allocated.len() + free.len(), mapped.page.block_count());
    let mut all: Vec<usize> = allocated.into_iter().chain(free).collect();
    all.sort();
    let expected: Vec<usize> =
        (0..64).map(|index| mapped.page.block_ptr(index).unwrap()).collect();
    assert_eq!(all, expected);
}

#[test]
fn chosen_block_sizes_divide_pages() {
    for request_size in [0, 8, 9, 65, 1025, 10241, 81921] {
        let block_size = SizeClass::for_request(request_size).unwrap().block_size;
        let mapped = MappedPage::new(3 * block_size, block_size).unwrap();
        assert_eq!(mapped.page.block_count(), 3);
    }
}
