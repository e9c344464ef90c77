# mimalloc-rust

The core of an allocator for 64-bit targets, verified with Verus.

- `src/size_class.rs` chooses a block size and a page kind for each request;
  `src/size_class_laws.rs` proves what holds of all of them.
- `src/free_list.rs` keeps free blocks in a list whose links lie inside the
  blocks themselves.
- `src/page.rs` divides one page into equal-size blocks; `src/page_laws.rs`
  proves that blocks do not overlap, that each is either free or allocated, and
  that user data and links stay apart.
- `src/mapping.rs` decides, request by request, how a page obtains its memory
  from the operating system and gives it back.
- `app/` performs those requests and hands out pointers.
