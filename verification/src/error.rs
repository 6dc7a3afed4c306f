//! The failures that block I/O reports to its caller.

use vstd::prelude::*;

verus! {

/// Why an operation on an aligned block file did not succeed.
///
/// Codes are the operating system's error numbers, passed on untouched.
#[derive(Clone, Copy, Debug, PartialEq, Eq, Structural)]
pub enum BlockError {
    /// The operating system refused to open the file; the code says why.
    OpenFailed(i32),
    /// The platform has no way to open a file with its cache bypassed.
    UnsupportedMode,
    /// The file offset is not a multiple of the block size.
    MisalignedOffset,
    /// The buffer is not one block long, or does not start on a block boundary.
    MisalignedBuffer,
    /// A write could not be completed after this many bytes of the block: the
    /// operating system wrote nothing more, or claimed more than it was asked
    /// for.
    ShortWrite(usize),
    /// A read could not be completed after this many bytes of the block: the
    /// operating system claimed more than it was asked for.
    ShortRead(usize),
    /// The operating system failed a read or write; the code says why.
    IoError(i32),
}

} // verus!
