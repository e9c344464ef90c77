use mimalloc_rust::size_class::{
    align_up, class_index_for_word_count, page_kind_for_block_size, words_for_class_index,
    PageKind, SizeClass, LARGE_MAX_BLOCK_SIZE, LARGE_MAX_WORD_COUNT, MAX_CLASS_INDEX,
    LARGE_PAGE_SIZE, MEDIUM_MAX_BLOCK_SIZE, MEDIUM_PAGE_SIZE, OS_PAGE_SIZE,
    SMALL_MAX_BLOCK_SIZE, SMALL_PAGE_SIZE, WORD_SIZE,
};

/// Checks representative size classes on Linux x86-64.
///
/// Each request should round up to the expected aligned block size.
#[test]
fn maps_requests_to_expected_block_sizes() {
    let examples = [
        (0, 1, 8),
        (8, 1, 8),
        (9, 2, 16),
        (17, 4, 32),
        (50, 8, 64),
        (65, 9, 80),
        (129, 13, 160),
        (1025, 25, 1280),
    ];

    for (request_size, expected_class_index, expected_block_size) in examples {
        let size_class =
            SizeClass::for_request(request_size).expect("the request should be supported");
        assert_eq!(size_class.class_index, Some(expected_class_index));
        assert_eq!(size_class.block_size, expected_block_size);
    }
}

/// Checks where the allocator changes between page kinds.
///
/// Requests should use small, medium, and large pages until they exceed
/// 512 KiB, where they should use a page containing one block.
#[test]
fn selects_page_kinds_at_block_size_boundaries() {
    let examples = [
        (10 * 1024, 10 * 1024, PageKind::Small),
        (10 * 1024 + 1, 12 * 1024, PageKind::Medium),
        (80 * 1024, 80 * 1024, PageKind::Medium),
        (80 * 1024 + 1, 96 * 1024, PageKind::Large),
        (512 * 1024, 512 * 1024, PageKind::Large),
        (512 * 1024 + 1, 516 * 1024, PageKind::Singleton),
    ];

    for (request_size, expected_block_size, expected_page_kind) in examples {
        let size_class =
            SizeClass::for_request(request_size).expect("the request should be supported");
        assert_eq!(size_class.block_size, expected_block_size);
        assert_eq!(size_class.page_kind, expected_page_kind);
    }

    let singleton =
        SizeClass::for_request(512 * 1024 + 1).expect("the request should be supported");
    assert_eq!(singleton.class_index, None);
    assert_eq!(SizeClass::for_request(usize::MAX), None);
}

#[test]
fn requests_are_supported_up_to_half_the_address_space() {
    let largest = SizeClass::for_request(isize::MAX as usize).unwrap();
    assert_eq!(largest.block_size, 1 << 63);
    assert_eq!(largest.page_kind, PageKind::Singleton);
    assert_eq!(SizeClass::for_request(isize::MAX as usize + 1), None);
}

#[test]
fn word_counts_select_the_expected_class() {
    let examples = [
        (0, 1),
        (1, 1),
        (2, 2),
        (3, 4),
        (4, 4),
        (5, 6),
        (7, 8),
        (8, 8),
        (9, 9),
        (10, 9),
        (11, 10),
        (16, 12),
        (17, 13),
        (1280, 37),
        (1281, 38),
        (65535, 60),
        (65536, 60),
    ];
    for (word_count, class_index) in examples {
        assert_eq!(class_index_for_word_count(word_count), Some(class_index));
    }
    assert_eq!(class_index_for_word_count(65537), None);
    assert_eq!(class_index_for_word_count(usize::MAX), None);
}

#[test]
fn class_indices_decode_to_the_expected_size() {
    let examples = [
        (0, 1),
        (1, 1),
        (3, 3),
        (8, 8),
        (9, 10),
        (12, 16),
        (13, 20),
        (25, 160),
        (60, 65536),
        (251, 7 << 61),
    ];
    for (class_index, words) in examples {
        assert_eq!(words_for_class_index(class_index), words);
    }
}

#[test]
fn sizes_beyond_a_word_lose_their_high_bits() {
    assert_eq!(words_for_class_index(252), 0);
    assert_eq!(words_for_class_index(253), 1 << 62);
    assert_eq!(words_for_class_index(260), 0);
    assert_eq!(words_for_class_index(257), 1 << 63);
}

#[test]
fn selected_class_is_the_smallest_that_fits() {
    let mut previous = 0;
    for word_count in 0..=LARGE_MAX_WORD_COUNT {
        let class_index = class_index_for_word_count(word_count).unwrap();
        let words = words_for_class_index(class_index);
        assert!(word_count <= words);
        assert!(previous <= class_index && class_index <= MAX_CLASS_INDEX);
        assert_eq!(class_index_for_word_count(words), Some(class_index));
        if class_index > previous && previous > 0 {
            assert_eq!(words_for_class_index(previous), word_count - 1);
        }
        if word_count > 8 {
            assert!(4 * words < 5 * word_count);
        }
        previous = class_index;
    }
    assert_eq!(previous, MAX_CLASS_INDEX);
}

#[test]
fn blocks_hold_their_requests() {
    let mut previous = 0;
    for request_size in 0..600 * 1024 {
        let class = SizeClass::for_request(request_size).unwrap();
        assert!(request_size <= class.block_size && previous <= class.block_size);
        assert_eq!(class.block_size % 8, 0);
        assert!(class.block_size == 8 || class.block_size % 16 == 0);
        assert_eq!(SizeClass::for_request(class.block_size), Some(class));
        assert_eq!(class.class_index.is_none(), class.page_kind == PageKind::Singleton);
        previous = class.block_size;
    }
}

#[test]
fn page_kinds_change_after_their_largest_block() {
    assert_eq!(SMALL_MAX_BLOCK_SIZE, 10240);
    assert_eq!(MEDIUM_MAX_BLOCK_SIZE, 86698);
    assert_eq!(LARGE_MAX_BLOCK_SIZE, 524288);
    let examples = [
        (0, PageKind::Small),
        (10240, PageKind::Small),
        (10241, PageKind::Medium),
        (86698, PageKind::Medium),
        (86699, PageKind::Large),
        (524288, PageKind::Large),
        (524289, PageKind::Singleton),
        (usize::MAX, PageKind::Singleton),
    ];
    for (block_size, kind) in examples {
        assert_eq!(page_kind_for_block_size(block_size), kind);
    }
}

#[test]
fn sizes_align_upward_without_overflowing() {
    assert_eq!(align_up(0, 4096), Some(0));
    assert_eq!(align_up(1, 4096), Some(4096));
    assert_eq!(align_up(4096, 4096), Some(4096));
    assert_eq!(align_up(4097, 4096), Some(8192));
    assert_eq!(align_up(17, 1), Some(17));
    assert_eq!(align_up(usize::MAX - 4095, 4096), Some(usize::MAX - 4095));
    assert_eq!(align_up(usize::MAX - 4094, 4096), None);
    assert_eq!(align_up(usize::MAX, 2), None);
    assert_eq!(align_up(usize::MAX, 1), Some(usize::MAX));
}

#[test]
fn other_alignments_clear_the_bits_of_their_predecessor() {
    assert_eq!(align_up(5, 6), Some(10));
    assert_eq!(align_up(1, 3), Some(1));
}

#[test]
fn words_have_the_size_of_the_target() {
    assert_eq!(WORD_SIZE, std::mem::size_of::<usize>());
    assert_eq!(WORD_SIZE, std::mem::size_of::<&u8>());
    assert_eq!(WORD_SIZE, std::mem::align_of::<&u8>());
}

#[test]
fn class_index_encodes_range_and_quarter() {
    for word_count in 9..=LARGE_MAX_WORD_COUNT {
        let encoded_range = class_index_for_word_count(word_count).unwrap() + 3;
        let step = 1 << (encoded_range / 4 - 2);
        let quarter = encoded_range % 4;
        assert!((4 + quarter) * step < word_count && word_count <= (5 + quarter) * step);
    }
}

#[test]
fn powers_of_two_are_block_sizes() {
    for exponent in 0..=16 {
        let class_index = class_index_for_word_count(1 << exponent).unwrap();
        assert_eq!(words_for_class_index(class_index), 1 << exponent);
    }
}

#[test]
fn regular_pages_have_room_for_several_blocks() {
    assert!(6 * SMALL_MAX_BLOCK_SIZE + OS_PAGE_SIZE <= SMALL_PAGE_SIZE);
    assert!(6 * (SMALL_MAX_BLOCK_SIZE + 1) + OS_PAGE_SIZE > SMALL_PAGE_SIZE);
    assert!(6 * MEDIUM_MAX_BLOCK_SIZE + OS_PAGE_SIZE <= MEDIUM_PAGE_SIZE);
    assert!(6 * (MEDIUM_MAX_BLOCK_SIZE + 1) + OS_PAGE_SIZE > MEDIUM_PAGE_SIZE);
    assert_eq!(8 * LARGE_MAX_BLOCK_SIZE, LARGE_PAGE_SIZE);
}
