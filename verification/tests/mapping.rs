use mimalloc_rust::mapping::{OsRequest, PageSetup, Protection};
use mimalloc_rust::page::{Page, PageError};

#[test]
fn memory_is_reserved_before_it_is_made_accessible() {
    let setup = PageSetup::begin(4096, 64);
    assert_eq!(
        setup.request(),
        Some(OsRequest::Reserve { length: 4096, protection: Protection::NoAccess })
    );
    let setup = setup.advance(Ok(0x7000));
    assert_eq!(
        setup.request(),
        Some(OsRequest::Protect {
            address: 0x7000,
            length: 4096,
            protection: Protection::ReadWrite,
        })
    );
    let setup = setup.advance(Ok(0));
    assert_eq!(setup, PageSetup::Ready { start: 0x7000, page_size: 4096 });
    assert_eq!(setup.request(), None);
    assert_eq!(setup.advance(Err(5)), setup);
}

#[test]
fn refused_reservation_is_reported() {
    let setup = PageSetup::begin(4096, 64).advance(Err(12));
    assert_eq!(setup, PageSetup::Failed { reason: PageError::Os(12) });
    assert_eq!(setup.request(), None);
    assert_eq!(setup.advance(Ok(1)), setup);
}

#[test]
fn inaccessible_reservation_is_released() {
    let setup = PageSetup::begin(4096, 64).advance(Ok(0x7000)).advance(Err(13));
    assert_eq!(setup, PageSetup::Release { start: 0x7000, page_size: 4096, error: 13 });
    assert_eq!(setup.request(), Some(OsRequest::Release { address: 0x7000, length: 4096 }));
    let setup = setup.advance(Ok(0));
    assert_eq!(setup, PageSetup::Failed { reason: PageError::Os(13) });
}

#[test]
fn invalid_layouts_ask_for_no_memory() {
    let invalid = PageSetup::Failed { reason: PageError::InvalidArgument };
    assert_eq!(PageSetup::begin(0, 64), invalid);
    assert_eq!(PageSetup::begin(4096, 0), invalid);
    assert_eq!(PageSetup::begin(4096, 4), invalid);
    assert_eq!(PageSetup::begin(4096, 12), invalid);
    assert_eq!(PageSetup::begin(4096, 96), invalid);
    assert_eq!(PageSetup::begin(4096, 8192), invalid);
    assert_eq!(invalid.request(), None);
    assert_eq!(PageSetup::begin(4096, 8), PageSetup::Reserve { page_size: 4096 });
    assert_eq!(PageSetup::begin(4096, 4096), PageSetup::Reserve { page_size: 4096 });
    assert_eq!(PageSetup::begin(72, 24), PageSetup::Reserve { page_size: 72 });
}

#[test]
fn dropping_releases_the_complete_mapping() {
    let mut memory = [0; 512];
    let page = Page::new(4096, 64, 0x7000, &mut memory).ok().unwrap();
    assert_eq!(page.release_request(), OsRequest::Release { address: 0x7000, length: 4096 });
}

#[test]
fn ready_setup_gives_a_page_of_free_blocks() {
    let setup = PageSetup::begin(64, 16).advance(Ok(0x7000)).advance(Ok(0));
    let mut memory = [9; 8];
    let page = setup.finish(16, &mut memory).ok().unwrap();
    assert_eq!(page.start(), 0x7000);
    assert_eq!(page.size(), 64);
    assert_eq!(page.block_size(), 16);
    assert_eq!(page.block_count(), 4);
    assert_eq!(page.first_free_block(), Some(0x7000));
    assert_eq!(memory, [0x7010, 9, 0x7020, 9, 0x7030, 9, 0, 9]);
    assert_eq!(page.release_request(), OsRequest::Release { address: 0x7000, length: 64 });
}

#[test]
fn failed_setup_gives_its_reason() {
    let mut memory = [9; 8];
    let refused = PageSetup::begin(64, 16).advance(Ok(0x7000)).advance(Err(13)).advance(Ok(0));
    assert_eq!(refused.finish(16, &mut memory).err(), Some(PageError::Os(13)));
    let unavailable = PageSetup::begin(64, 16).advance(Err(12));
    assert_eq!(unavailable.finish(16, &mut memory).err(), Some(PageError::Os(12)));
    let invalid = PageSetup::begin(64, 24);
    assert_eq!(invalid.finish(24, &mut memory).err(), Some(PageError::InvalidArgument));
    assert_eq!(memory, [9; 8]);
}
