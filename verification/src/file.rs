//! The aligned block file: one open handle and the block size that every
//! transfer through it obeys.

use vstd::prelude::*;
use vstd::arithmetic::power2::is_pow2;
use crate::align::{aligned, is_aligned, lemma_aligned_block_fits, valid_block_size};
use crate::buffer::{zeros, AlignedBuffer};
use crate::error::BlockError;
use crate::transfer::{Direction, Transfer, TransferView};

verus! {

/// The permission bits a file is created with: read and write for the owner,
/// read for everyone else.
pub const CREATE_MODE: u32 = 0o644;

/// The bits that the platform's `open` takes for the ways this library opens
/// a file. `direct` is the bit that bypasses the page cache, where the
/// platform has one.
#[derive(Clone, Copy, Debug, PartialEq, Eq, Structural)]
pub struct PlatformFlags {
    pub read_write: i32,
    pub create: i32,
    pub direct: Option<i32>,
}

/// What to hand to the platform's `open` for a file of blocks.
#[derive(Clone, Copy, Debug)]
pub struct OpenRequest {
    flags: i32,
    mode: u32,
    block_size: usize,
}

/// A file opened for unbuffered reading and writing of whole blocks.
///
/// The file holds the handle until [`AlignedBlockFile::close`] hands it out
/// for release, which happens at most once.
#[derive(Debug)]
pub struct AlignedBlockFile {
    handle: Option<i32>,
    block_size: usize,
}

/// A buffer fits a block size if it is one block long and starts on a block
/// boundary.
pub open spec fn buffer_fits(buffer: AlignedBuffer, block_size: int) -> bool {
    buffer.spec_len() == block_size && aligned(buffer.spec_address() as int, block_size)
}

/// What a block transfer is begun with: the failure, or the transfer with no
/// byte moved yet. The offset is looked at before the buffer.
pub open spec fn begin_transfer(
    direction: Direction,
    block_size: int,
    offset: int,
    buffer: AlignedBuffer,
) -> Result<TransferView, BlockError> {
    if !aligned(offset, block_size) {
        Err(BlockError::MisalignedOffset)
    } else if !buffer_fits(buffer, block_size) {
        Err(BlockError::MisalignedBuffer)
    } else {
        Ok(TransferView { direction, offset, block_size, done: 0 })
    }
}

/// A started transfer as its view.
pub open spec fn transfer_view(started: Result<Transfer, BlockError>) -> Result<
    TransferView,
    BlockError,
> {
    match started {
        Ok(transfer) => Ok(transfer@),
        Err(error) => Err(error),
    }
}

impl OpenRequest {
    #[verifier::type_invariant]
    spec fn well_formed(self) -> bool {
        valid_block_size(self.block_size as int)
    }

    /// The flags for `open`.
    pub closed spec fn spec_flags(&self) -> i32 {
        self.flags
    }

    /// The permission bits for `open`.
    pub closed spec fn spec_mode(&self) -> u32 {
        self.mode
    }

    /// The block size of the file to be.
    pub closed spec fn spec_block_size(&self) -> usize {
        self.block_size
    }

    /// The flags for `open`.
    #[verifier::when_used_as_spec(spec_flags)]
    pub fn flags(&self) -> (flags: i32)
        ensures
            flags == self.spec_flags(),
    {
        self.flags
    }

    /// The permission bits for `open`, used if the file is created.
    #[verifier::when_used_as_spec(spec_mode)]
    pub fn mode(&self) -> (mode: u32)
        ensures
            mode == self.spec_mode(),
    {
        self.mode
    }

    /// The block size of the file to be.
    #[verifier::when_used_as_spec(spec_block_size)]
    pub fn block_size(&self) -> (block_size: usize)
        ensures
            block_size == self.spec_block_size(),
            valid_block_size(block_size as int),
    {
        proof {
            use_type_invariant(self);
        }
        self.block_size
    }

    /// Takes in what the platform's `open` returned: `descriptor` is its
    /// result, and `code` the error number that the operating system set if
    /// the result is negative.
    pub fn complete(self, descriptor: i32, code: i32) -> (opened: Result<
        AlignedBlockFile,
        BlockError,
    >)
        ensures
            descriptor < 0 ==> opened == Err::<AlignedBlockFile, BlockError>(
                BlockError::OpenFailed(code),
            ),
            descriptor >= 0 ==> opened is Ok && opened->Ok_0.spec_handle() == Some(descriptor)
                && opened->Ok_0.spec_block_size() == self.spec_block_size(),
    {
        proof {
            use_type_invariant(&self);
        }
        if descriptor < 0 {
            Err(BlockError::OpenFailed(code))
        } else {
            Ok(AlignedBlockFile { handle: Some(descriptor), block_size: self.block_size })
        }
    }
}

impl AlignedBlockFile {
    #[verifier::type_invariant]
    spec fn well_formed(self) -> bool {
        valid_block_size(self.block_size as int)
    }

    /// The handle the file holds, until it is closed.
    pub closed spec fn spec_handle(&self) -> Option<i32> {
        self.handle
    }

    /// The size of the file's blocks.
    pub closed spec fn spec_block_size(&self) -> usize {
        self.block_size
    }

    /// Prepares to open a file of blocks of `block_size` bytes for reading
    /// and writing, creating it if it is absent, with the page cache
    /// bypassed. Where the platform cannot bypass its cache there is nothing
    /// to open: the file is never opened buffered instead.
    pub fn open(block_size: usize, platform: &PlatformFlags) -> (request: Result<
        OpenRequest,
        BlockError,
    >)
        requires
            valid_block_size(block_size as int),
        ensures
            platform.direct is None ==> request == Err::<OpenRequest, BlockError>(
                BlockError::UnsupportedMode,
            ),
            platform.direct matches Some(direct) ==> request is Ok && request->Ok_0.spec_flags()
                == platform.read_write | platform.create | direct && request->Ok_0.spec_mode()
                == CREATE_MODE && request->Ok_0.spec_block_size() == block_size,
    {
        match platform.direct {
            None => Err(BlockError::UnsupportedMode),
            Some(direct) => Ok(
                OpenRequest {
                    flags: platform.read_write | platform.create | direct,
                    mode: CREATE_MODE,
                    block_size,
                },
            ),
        }
    }

    /// The size of the file's blocks.
    #[verifier::when_used_as_spec(spec_block_size)]
    pub fn block_size(&self) -> (block_size: usize)
        ensures
            block_size == self.spec_block_size(),
            valid_block_size(block_size as int),
    {
        proof {
            use_type_invariant(self);
        }
        self.block_size
    }

    /// The handle to make system calls with, or `None` once the file is
    /// closed.
    #[verifier::when_used_as_spec(spec_handle)]
    pub fn handle(&self) -> (handle: Option<i32>)
        ensures
            handle == self.spec_handle(),
    {
        self.handle
    }

    /// Makes a zero-filled buffer of one block that starts on a block
    /// boundary, and so fits this file.
    pub fn allocate_block(&self) -> (buffer: AlignedBuffer)
        ensures
            buffer@ == zeros(self.spec_block_size() as nat),
            buffer_fits(buffer, self.spec_block_size() as int),
    {
        proof {
            use_type_invariant(self);
        }
        AlignedBuffer::allocate(self.block_size)
    }

    /// Begins writing the block in `buffer` to the file at byte `offset`.
    ///
    /// Where the offset or the buffer is rejected there is no transfer, and so
    /// nothing is written. Otherwise the caller makes the system call for each
    /// request of the transfer, on the handle of this file and the bytes of
    /// `buffer`, until the transfer is over. The transfer is planned from the
    /// offset and the buffer alone: one begun on a closed file finds no handle
    /// to be carried out with.
    pub fn write_block(&self, offset: u64, buffer: &AlignedBuffer) -> (started: Result<
        Transfer,
        BlockError,
    >)
        ensures
            transfer_view(started) == begin_transfer(
                Direction::Write,
                self.spec_block_size() as int,
                offset as int,
                *buffer,
            ),
    {
        self.begin(Direction::Write, offset, buffer)
    }

    /// Begins reading the block at byte `offset` of the file into `buffer`.
    ///
    /// The offset and the buffer are held to the same rules as for a write,
    /// and the transfer is carried out in the same way. It ends with the
    /// number of bytes read, which is short of a block only where the file
    /// ends.
    pub fn read_block(&self, offset: u64, buffer: &AlignedBuffer) -> (started: Result<
        Transfer,
        BlockError,
    >)
        ensures
            transfer_view(started) == begin_transfer(
                Direction::Read,
                self.spec_block_size() as int,
                offset as int,
                *buffer,
            ),
    {
        self.begin(Direction::Read, offset, buffer)
    }

    fn begin(&self, direction: Direction, offset: u64, buffer: &AlignedBuffer) -> (started: Result<
        Transfer,
        BlockError,
    >)
        ensures
            transfer_view(started) == begin_transfer(
                direction,
                self.spec_block_size() as int,
                offset as int,
                *buffer,
            ),
    {
        proof {
            use_type_invariant(self);
            reveal(is_pow2);
        }
        if !is_aligned(offset, self.block_size) {
            Err(BlockError::MisalignedOffset)
        } else if buffer.len() != self.block_size || buffer.address() % self.block_size != 0 {
            Err(BlockError::MisalignedBuffer)
        } else {
            proof {
                lemma_aligned_block_fits(offset as int, self.block_size as int);
            }
            Ok(Transfer::begin(direction, offset, self.block_size))
        }
    }

    /// Gives up the handle for release. The first call hands it out; the file
    /// then holds none, and closing it again does nothing.
    pub fn close(&mut self) -> (released: Option<i32>)
        ensures
            released == old(self).spec_handle(),
            final(self).spec_handle() is None,
            final(self).spec_block_size() == old(self).spec_block_size(),
    {
        proof {
            use_type_invariant(&*self);
        }
        let released = self.handle;
        self.handle = None;
        released
    }
}

} // verus!
