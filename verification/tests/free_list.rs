use mimalloc_rust::free_list::IntrusiveFreeList;

#[test]
fn empty_list_has_nothing_to_take() {
    let mut list = IntrusiveFreeList::new();
    assert_eq!(list.first(), None);
    assert_eq!(list.take(77), None);
    assert_eq!(list.first(), None);
}

#[test]
fn blocks_link_to_the_block_returned_before() {
    let mut list = IntrusiveFreeList::new();
    let mut links = [7; 3];
    list.return_block(64, &mut links[0]);
    list.return_block(192, &mut links[2]);
    list.return_block(128, &mut links[1]);
    assert_eq!(links, [0, 192, 64]);

    assert_eq!(list.first(), Some(128));
    assert_eq!(list.take(links[1]), Some(128));
    assert_eq!(list.take(links[2]), Some(192));
    assert_eq!(list.take(links[0]), Some(64));
    assert_eq!(list.take(0), None);
}

#[test]
fn returning_a_taken_block_restores_the_list() {
    let mut list = IntrusiveFreeList::new();
    let mut first = 0;
    let mut second = 0;
    list.return_block(8, &mut first);
    list.return_block(16, &mut second);
    assert_eq!(list.take(second), Some(16));
    second = usize::MAX;
    list.return_block(16, &mut second);
    assert_eq!(second, 8);
    assert_eq!(list.first(), Some(16));
}

#[test]
fn links_read_back_as_written() {
    let mut link = 9;
    IntrusiveFreeList::write_next(&mut link, None);
    assert_eq!(link, 0);
    assert_eq!(IntrusiveFreeList::read_next(link), None);
    IntrusiveFreeList::write_next(&mut link, Some(4096));
    assert_eq!(link, 4096);
    assert_eq!(IntrusiveFreeList::read_next(link), Some(4096));
}
