//! The core of an allocator for 64-bit targets: size classes, pages divided into
//! equal-size blocks, and free lists that lie inside the free blocks.
//!
//! Blocks are named by their addresses, as plain numbers, and the words that hold
//! links are passed in. No memory is mapped here: [`mapping`] says which request
//! the operating system has to be given next.

pub mod free_list;
pub mod mapping;
pub mod page;
pub mod page_laws;
pub mod size_class;
pub mod size_class_laws;
