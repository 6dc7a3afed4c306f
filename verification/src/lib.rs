//! Block-aligned I/O for files opened with the page cache bypassed.
//!
//! The crate holds the part of direct file I/O that can be reasoned about
//! without touching the operating system: which block sizes and offsets are
//! acceptable, how a buffer is laid out so that its bytes start on a block
//! boundary, and how a block transfer is carried on after the operating system
//! moved fewer bytes than it was asked to. The system calls themselves are
//! made by the caller, who performs each [`transfer::Request`] and reports
//! what came back.
//!
//! - [`file`]: the aligned block file, from opening to closing.
//! - [`buffer`]: the aligned one-block buffer.
//! - [`transfer`]: one block's way across the system call boundary.
//! - [`align`]: block sizes and alignment arithmetic.
//! - [`model`]: what the transfers do to a file, and the laws that hold of it.
//! - [`error`]: the failures reported.

pub mod align;
pub mod buffer;
pub mod error;
pub mod file;
pub mod model;
pub mod transfer;
