//! How a page obtains its memory from the operating system and gives it back.
//!
//! ```text
//! Reserve --ok--> Commit --ok--> Ready
//!    |               |
//!    |               +--error--> Release --ok--+
//!    |                                         v
//!    +--------------error-----------------> Failed
//! ```
//!
//! The address range is reserved before it is made accessible. This module
//! decides which request comes next; the caller performs it and reports back.

use crate::page::{layout_is_valid, valid_layout, valid_mapping, Page, PageError};
use crate::page_laws::fresh_page_is_linked_in_address_order;
use crate::size_class::WORD_SIZE;
use vstd::prelude::*;

verus! {

/// What may be done with mapped memory.
#[derive(Clone, Copy, Debug, Eq, PartialEq, Structural)]
pub enum Protection {
    /// Neither reading nor writing.
    NoAccess,
    /// Reading and writing.
    ReadWrite,
}

/// One request to the operating system.
#[derive(Clone, Copy, Debug, Eq, PartialEq, Structural)]
pub enum OsRequest {
    /// Map `length` bytes of private anonymous memory at any address.
    Reserve {
        /// Number of bytes to map.
        length: usize,
        /// Initial access to the mapping.
        protection: Protection,
    },
    /// Change the access to a mapping.
    Protect {
        /// Starting address of the mapping.
        address: usize,
        /// Number of bytes in the mapping.
        length: usize,
        /// New access to the mapping.
        protection: Protection,
    },
    /// Release a mapping.
    Release {
        /// Starting address of the mapping.
        address: usize,
        /// Number of bytes in the mapping.
        length: usize,
    },
}

/// How far the memory of a page has been set up.
#[derive(Clone, Copy, Debug, Eq, PartialEq, Structural)]
pub enum PageSetup {
    /// The address range has to be reserved.
    Reserve {
        /// Number of bytes in the page.
        page_size: usize,
    },
    /// The reserved range has to be made accessible.
    Commit {
        /// Starting address of the mapping.
        start: usize,
        /// Number of bytes in the page.
        page_size: usize,
    },
    /// The range could not be made accessible and has to be released.
    Release {
        /// Starting address of the mapping.
        start: usize,
        /// Number of bytes in the page.
        page_size: usize,
        /// Why the range could not be made accessible.
        error: i32,
    },
    /// The memory can be used.
    Ready {
        /// Starting address of the mapping.
        start: usize,
        /// Number of bytes in the page.
        page_size: usize,
    },
    /// No memory was obtained, and none is held.
    Failed {
        /// Why there is no page.
        reason: PageError,
    },
}

/// Memory that the operating system has mapped.
pub ghost struct Mapping {
    /// Starting address.
    pub address: usize,
    /// Number of bytes.
    pub length: usize,
    /// Access to the memory.
    pub protection: Protection,
}

/// Whether `mapped` is a mapping of exactly `length` bytes at `address`.
pub open spec fn spans(mapped: Option<Mapping>, address: usize, length: usize) -> bool {
    mapped matches Some(mapping) && mapping.address == address && mapping.length == length
}

impl OsRequest {
    /// Whether `after` can be mapped once the request has ended with `reply`,
    /// where `before` was mapped until then.
    ///
    /// Access is changed and memory is released by whole mappings: a request
    /// that names any other range is not counted on to do either. A refused
    /// change of access may have been made in part, so the range is still
    /// mapped, but with any access. Nothing is said of a refused release.
    pub open spec fn leads_to(
        self,
        before: Option<Mapping>,
        reply: Result<usize, i32>,
        after: Option<Mapping>,
    ) -> bool
        recommends
            self is Reserve ==> before is None,
    {
        match (self, reply) {
            (OsRequest::Reserve { length, protection }, Ok(address)) => after == Some(
                Mapping { address, length, protection },
            ),
            (OsRequest::Reserve { .. }, Err(_)) => after == before,
            (OsRequest::Protect { address, length, protection }, Ok(_)) => if spans(
                before,
                address,
                length,
            ) {
                after == Some(Mapping { address, length, protection })
            } else {
                after == before
            },
            (OsRequest::Protect { address, length, .. }, Err(_)) => if spans(
                before,
                address,
                length,
            ) {
                spans(after, address, length)
            } else {
                after == before
            },
            (OsRequest::Release { address, length }, Ok(_)) => if spans(before, address, length) {
                after is None
            } else {
                after == before
            },
            (OsRequest::Release { .. }, Err(_)) => true,
        }
    }
}

impl PageSetup {
    /// The request that has to be performed next, if the setup is not finished.
    pub open spec fn pending(self) -> Option<OsRequest> {
        match self {
            PageSetup::Reserve { page_size } => Some(
                OsRequest::Reserve { length: page_size, protection: Protection::NoAccess },
            ),
            PageSetup::Commit { start, page_size } => Some(
                OsRequest::Protect {
                    address: start,
                    length: page_size,
                    protection: Protection::ReadWrite,
                },
            ),
            PageSetup::Release { start, page_size, .. } => Some(
                OsRequest::Release { address: start, length: page_size },
            ),
            PageSetup::Ready { .. } => None,
            PageSetup::Failed { .. } => None,
        }
    }

    /// The state that follows when the pending request has ended with `reply`.
    pub open spec fn next(self, reply: Result<usize, i32>) -> PageSetup {
        match (self, reply) {
            (PageSetup::Reserve { page_size }, Ok(start)) => PageSetup::Commit { start, page_size },
            (PageSetup::Reserve { .. }, Err(error)) => PageSetup::Failed {
                reason: PageError::Os(error),
            },
            (PageSetup::Commit { start, page_size }, Ok(_)) => PageSetup::Ready {
                start,
                page_size,
            },
            (PageSetup::Commit { start, page_size }, Err(error)) => PageSetup::Release {
                start,
                page_size,
                error,
            },
            (PageSetup::Release { error, .. }, _) => PageSetup::Failed {
                reason: PageError::Os(error),
            },
            (finished, _) => finished,
        }
    }

    /// Whether `mapped` can be what is mapped for the page in this state.
    pub open spec fn holds(self, mapped: Option<Mapping>) -> bool {
        match self {
            PageSetup::Reserve { .. } => mapped is None,
            PageSetup::Commit { start, page_size } => mapped == Some(
                Mapping { address: start, length: page_size, protection: Protection::NoAccess },
            ),
            PageSetup::Release { start, page_size, .. } => spans(mapped, start, page_size),
            PageSetup::Ready { start, page_size } => mapped == Some(
                Mapping { address: start, length: page_size, protection: Protection::ReadWrite },
            ),
            PageSetup::Failed { .. } => mapped is None,
        }
    }

    /// An upper bound on the requests that are still to be performed.
    pub open spec fn requests_left(self) -> nat {
        match self {
            PageSetup::Reserve { .. } => 3,
            PageSetup::Commit { .. } => 2,
            PageSetup::Release { .. } => 1,
            PageSetup::Ready { .. } => 0,
            PageSetup::Failed { .. } => 0,
        }
    }

    /// Starts setting up a page when its size divides evenly into blocks.
    pub fn begin(page_size: usize, block_size: usize) -> (setup: Self)
        ensures
            setup == (if valid_layout(page_size as int, block_size as int) {
                PageSetup::Reserve { page_size }
            } else {
                PageSetup::Failed { reason: PageError::InvalidArgument }
            }),
            setup.holds(None),
            setup == (if 0 < page_size && 8 <= block_size && block_size % 8 == 0 && page_size
                % block_size == 0 {
                PageSetup::Reserve { page_size }
            } else {
                PageSetup::Failed { reason: PageError::InvalidArgument }
            }),
    {
        if !layout_is_valid(page_size, block_size) {
            return PageSetup::Failed { reason: PageError::InvalidArgument };
        }
        PageSetup::Reserve { page_size }
    }

    /// Returns the request to perform next, or `None` when the setup is finished.
    pub fn request(&self) -> (request: Option<OsRequest>)
        ensures
            request == self.pending(),
    {
        match *self {
            PageSetup::Reserve { page_size } => Some(
                OsRequest::Reserve { length: page_size, protection: Protection::NoAccess },
            ),
            PageSetup::Commit { start, page_size } => Some(
                OsRequest::Protect {
                    address: start,
                    length: page_size,
                    protection: Protection::ReadWrite,
                },
            ),
            PageSetup::Release { start, page_size, .. } => Some(
                OsRequest::Release { address: start, length: page_size },
            ),
            PageSetup::Ready { .. } => None,
            PageSetup::Failed { .. } => None,
        }
    }

    /// Goes on after the pending request has ended with `reply`: the address of
    /// a new mapping, any number for another request that succeeded, or an
    /// error number.
    ///
    /// A successful mapping is never at address zero, and a reserved range can
    /// always be released.
    pub fn advance(self, reply: Result<usize, i32>) -> (next: Self)
        requires
            self is Reserve ==> reply != Ok::<usize, i32>(0),
            self is Release ==> reply is Ok,
        ensures
            next == self.next(reply),
    {
        match (self, reply) {
            (PageSetup::Reserve { page_size }, Ok(start)) => PageSetup::Commit { start, page_size },
            (PageSetup::Reserve { .. }, Err(error)) => PageSetup::Failed {
                reason: PageError::Os(error),
            },
            (PageSetup::Commit { start, page_size }, Ok(_)) => PageSetup::Ready {
                start,
                page_size,
            },
            (PageSetup::Commit { start, page_size }, Err(error)) => PageSetup::Release {
                start,
                page_size,
                error,
            },
            (PageSetup::Release { error, .. }, _) => PageSetup::Failed {
                reason: PageError::Os(error),
            },
            (finished, _) => finished,
        }
    }

    /// Makes the page once the setup is finished, or says why there is none.
    ///
    /// `memory` holds the words of the mapping when the setup ended ready, and
    /// is not looked at otherwise. All blocks are free at first and are taken in
    /// address order; only their links are written.
    pub fn finish(self, block_size: usize, memory: &mut [usize]) -> (page: Result<Page, PageError>)
        requires
            self.pending() is None,
            self matches PageSetup::Ready { start, page_size } ==> {
                &&& valid_layout(page_size as int, block_size as int)
                &&& valid_mapping(start as int, page_size as int)
                &&& old(memory)@.len() == page_size / WORD_SIZE
            },
        ensures
            self matches PageSetup::Failed { reason } ==> {
                &&& page == Err::<Page, PageError>(reason)
                &&& final(memory)@ == old(memory)@
            },
            self matches PageSetup::Ready { start, page_size } ==> {
                &&& page matches Ok(page)
                &&& page.wf()
                &&& page@.start == start
                &&& page@.size == page_size
                &&& page@.block_size == block_size
                &&& page@.block_count == page_size / block_size
                &&& page@.free == page@.blocks()
                &&& page@.links_hold(final(memory)@)
                &&& forall|w: int|
                    0 <= w < final(memory)@.len() && w % (block_size / WORD_SIZE) as int != 0
                        ==> #[trigger] final(memory)@[w] == old(memory)@[w]
            },
            self matches PageSetup::Ready { start, page_size } ==> {
                &&& page matches Ok(page)
                &&& page@.free.len() == page_size / block_size
                &&& forall|i: int|
                    0 <= i < page_size / block_size ==> {
                        &&& #[trigger] page@.free[i] == start + i * block_size
                        &&& final(memory)@[i * (block_size / 8)] == (if i + 1 < page_size
                            / block_size {
                            start + (i + 1) * block_size
                        } else {
                            0
                        })
                    }
            },
    {
        match self {
            PageSetup::Ready { start, page_size } => {
                let page = Page::new(page_size, block_size, start, memory);
                proof {
                    fresh_page_is_linked_in_address_order(page->Ok_0@, memory@);
                }
                page
            },
            PageSetup::Failed { reason } => Err(reason),
            _ => vstd::pervasive::unreached(),
        }
    }
}

/// The state always knows which range is mapped, and with which access unless a
/// change of access was refused. So a failed setup holds no memory, and a
/// finished one holds the whole page, readable and writable. Memory is reserved
/// only while none is held.
pub proof fn setup_tracks_mapping(
    setup: PageSetup,
    before: Option<Mapping>,
    reply: Result<usize, i32>,
    after: Option<Mapping>,
)
    requires
        setup.pending() is Some,
        setup is Release ==> reply is Ok,
        setup.holds(before),
        setup.pending()->0.leads_to(before, reply, after),
    ensures
        setup.next(reply).holds(after),
        setup.pending()->0 is Reserve ==> before is None,
{
}

/// A failed setup holds no memory. A ready one holds exactly its page, readable
/// and writable, and one that has to release still holds the whole range.
pub proof fn setups_hold_whole_pages(
    start: usize,
    page_size: usize,
    error: i32,
    reason: PageError,
    mapped: Option<Mapping>,
)
    ensures
        (PageSetup::Failed { reason }).holds(mapped) <==> mapped is None,
        (PageSetup::Reserve { page_size }).holds(mapped) <==> mapped is None,
        (PageSetup::Ready { start, page_size }).holds(mapped) <==> (mapped matches Some(mapping)
            && mapping.address == start && mapping.length == page_size
            && mapping.protection is ReadWrite),
        (PageSetup::Commit { start, page_size }).holds(mapped) <==> (mapped matches Some(mapping)
            && mapping.address == start && mapping.length == page_size
            && mapping.protection is NoAccess),
        (PageSetup::Release { start, page_size, error }).holds(mapped) <==> (mapped matches Some(
            mapping,
        ) && mapping.address == start && mapping.length == page_size),
{
}

/// A reservation that succeeds gives a mapping, a change of access that succeeds
/// gives it the new access, and a release that succeeds leaves nothing. A
/// refused reservation gives nothing, and a refused change of access leaves the
/// range mapped.
pub proof fn requests_act_on_whole_mappings(
    mapping: Mapping,
    protection: Protection,
    done: usize,
    error: i32,
    after: Option<Mapping>,
)
    ensures
        ({
            let address = mapping.address;
            let length = mapping.length;
            let held = Some(mapping);
            &&& (OsRequest::Reserve { length, protection }).leads_to(None, Ok(address), after)
                <==> after == Some(Mapping { address, length, protection })
            &&& (OsRequest::Reserve { length, protection }).leads_to(None, Err(error), after)
                <==> after is None
            &&& (OsRequest::Protect { address, length, protection }).leads_to(held, Ok(done), after)
                <==> after == Some(Mapping { address, length, protection })
            &&& (OsRequest::Protect { address, length, protection }).leads_to(
                held,
                Err(error),
                after,
            ) <==> (after matches Some(left) && left.address == address && left.length == length)
            &&& (OsRequest::Release { address, length }).leads_to(held, Ok(done), after)
                <==> after is None
        }),
{
}

/// Releasing the range of a page gives back all the memory that its setup
/// obtained.
pub proof fn release_returns_whole_page(
    start: usize,
    page_size: usize,
    before: Option<Mapping>,
    released: usize,
    after: Option<Mapping>,
)
    requires
        (PageSetup::Ready { start, page_size }).holds(before),
        (OsRequest::Release { address: start, length: page_size }).leads_to(
            before,
            Ok(released),
            after,
        ),
    ensures
        after is None,
{
}

/// Every reply brings the setup closer to its end, after three requests at most.
pub proof fn setup_ends(setup: PageSetup, reply: Result<usize, i32>)
    ensures
        setup.pending() is Some <==> setup.requests_left() > 0,
        setup.pending() is Some ==> setup.next(reply).requests_left() < setup.requests_left(),
        setup.pending() is None ==> setup.next(reply) == setup,
        setup.requests_left() <= 3,
{
}

/// The memory of a page is reserved without access, then made readable and
/// writable, and released again where that is refused: always the whole page,
/// at the address that was reserved, and nothing after a refused reservation.
pub proof fn setup_requests_whole_page(page_size: usize, start: usize, done: usize, error: i32)
    ensures
        ({
            let begun = PageSetup::Reserve { page_size };
            let reserved = begun.next(Ok(start));
            let refused = reserved.next(Err(error));
            &&& begun.pending() == Some(
                OsRequest::Reserve { length: page_size, protection: Protection::NoAccess },
            )
            &&& begun.next(Err(error)).pending() is None
            &&& reserved.pending() == Some(
                OsRequest::Protect {
                    address: start,
                    length: page_size,
                    protection: Protection::ReadWrite,
                },
            )
            &&& reserved.next(Ok(done)).pending() is None
            &&& refused.pending() == Some(OsRequest::Release { address: start, length: page_size })
            &&& refused.next(Ok(done)).pending() is None
        }),
{
}

/// Each step of a setup keeps the size of the page, the address that was
/// reserved and the first error; a finished setup stays as it is.
pub proof fn setup_steps(
    page_size: usize,
    start: usize,
    error: i32,
    reason: PageError,
    done: usize,
    reply: Result<usize, i32>,
)
    ensures
        (PageSetup::Reserve { page_size }).next(Ok(start)) == (PageSetup::Commit {
            start,
            page_size,
        }),
        (PageSetup::Reserve { page_size }).next(Err(error)) == (PageSetup::Failed {
            reason: PageError::Os(error),
        }),
        (PageSetup::Commit { start, page_size }).next(Ok(done)) == (PageSetup::Ready {
            start,
            page_size,
        }),
        (PageSetup::Commit { start, page_size }).next(Err(error)) == (PageSetup::Release {
            start,
            page_size,
            error,
        }),
        (PageSetup::Release { start, page_size, error }).next(reply) == (PageSetup::Failed {
            reason: PageError::Os(error),
        }),
        (PageSetup::Ready { start, page_size }).next(reply) == (PageSetup::Ready {
            start,
            page_size,
        }),
        (PageSetup::Ready { start, page_size }).pending() is None,
        (PageSetup::Failed { reason }).next(reply) == (PageSetup::Failed { reason }),
        (PageSetup::Failed { reason }).pending() is None,
{
}

/// A setup ends ready when the range could be both reserved and made
/// accessible. Otherwise it fails with the error of the request that was
/// refused, not with anything that releasing the range brings.
pub proof fn setup_outcome(
    page_size: usize,
    reserved: Result<usize, i32>,
    committed: Result<usize, i32>,
    released: usize,
)
    ensures
        (PageSetup::Reserve { page_size }).next(reserved).next(committed).next(Ok(released)) == (
        match (reserved, committed) {
            (Ok(start), Ok(_)) => PageSetup::Ready { start, page_size },
            (Ok(_), Err(error)) => PageSetup::Failed { reason: PageError::Os(error) },
            (Err(error), _) => PageSetup::Failed { reason: PageError::Os(error) },
        }),
{
}

impl Page {
    /// Returns the request that releases the page's memory.
    ///
    /// It is to be performed once, when the page is dropped.
    pub fn release_request(&self) -> (request: OsRequest)
        ensures
            request matches OsRequest::Release { address, length } && address == self@.start
                && length == self@.size,
    {
        OsRequest::Release { address: self.start(), length: self.size() }
    }
}

} // verus!
