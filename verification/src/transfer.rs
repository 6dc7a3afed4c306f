//! Carrying one block across the system call boundary.
//!
//! A read or write system call may move fewer bytes than it was asked to. A
//! [`Transfer`] remembers how much of a block has been moved and says which
//! call to make next; the caller makes the call and reports its result with
//! [`Transfer::on_result`], until the block is done or the transfer fails.

use vstd::prelude::*;
use crate::error::BlockError;

verus! {

/// Which way the bytes of a block move.
#[derive(Clone, Copy, Debug, PartialEq, Eq, Structural)]
pub enum Direction {
    /// From the buffer to the file.
    Write,
    /// From the file to the buffer.
    Read,
}

/// One system call for the caller to make: move `len` bytes between the file
/// at byte `position` and the buffer at index `start`.
#[derive(Clone, Copy, Debug, PartialEq, Eq, Structural)]
pub struct Request {
    pub direction: Direction,
    pub position: u64,
    pub start: usize,
    pub len: usize,
}

/// A block transfer that still has bytes to move.
#[derive(Debug, PartialEq, Eq, Structural)]
pub struct Transfer {
    direction: Direction,
    offset: u64,
    block_size: usize,
    done: usize,
}

/// What a [`Transfer`] stands for: `done` of the `block_size` bytes at file
/// offset `offset` have been moved.
pub struct TransferView {
    pub direction: Direction,
    pub offset: int,
    pub block_size: int,
    pub done: int,
}

/// What became of a transfer once a system call's result was taken in.
#[derive(Debug, PartialEq, Eq, Structural)]
pub enum Step {
    /// Bytes are still missing: make the next request of this transfer.
    Continue(Transfer),
    /// The transfer is over, with this many bytes moved in all.
    Done(usize),
    /// The transfer failed.
    Failed(BlockError),
}

/// What a [`Step`] stands for.
pub enum Outcome {
    Continue(TransferView),
    Done(int),
    Failed(BlockError),
}

/// A transfer in `state` has bytes left to move, and every byte of its block
/// has a file position. Every [`Transfer`] is in such a state.
pub open spec fn pending(state: TransferView) -> bool {
    &&& 0 <= state.done < state.block_size <= usize::MAX
    &&& 0 <= state.offset
    &&& state.offset + state.block_size - 1 <= u64::MAX
}

/// The error for a transfer that cannot go on after `done` bytes.
pub open spec fn short_transfer(direction: Direction, done: int) -> BlockError {
    match direction {
        Direction::Write => BlockError::ShortWrite(done as usize),
        Direction::Read => BlockError::ShortRead(done as usize),
    }
}

/// The system call that a transfer in `state` asks for: everything that is
/// still missing, from where the last call stopped.
pub open spec fn request_of(state: TransferView) -> Request {
    Request {
        direction: state.direction,
        position: (state.offset + state.done) as u64,
        start: state.done as usize,
        len: (state.block_size - state.done) as usize,
    }
}

/// How a transfer in `state` goes on when its request came back with
/// `transferred`, the system call's result, and `code`, the error number that
/// goes with a negative result.
///
/// A negative result is the operating system's failure. A result of zero ends
/// a read, since the file has no more bytes, and fails a write, which can make
/// no progress. A result short of what was asked for leaves the transfer
/// going; the exact amount completes it; more than was asked for cannot be
/// trusted and fails it.
pub open spec fn outcome(state: TransferView, transferred: int, code: i32) -> Outcome {
    let remaining = state.block_size - state.done;
    if transferred < 0 {
        Outcome::Failed(BlockError::IoError(code))
    } else if transferred == 0 {
        match state.direction {
            Direction::Write => Outcome::Failed(short_transfer(state.direction, state.done)),
            Direction::Read => Outcome::Done(state.done),
        }
    } else if transferred < remaining {
        Outcome::Continue(TransferView { done: state.done + transferred, ..state })
    } else if transferred == remaining {
        Outcome::Done(state.block_size)
    } else {
        Outcome::Failed(short_transfer(state.direction, state.done))
    }
}

impl View for Transfer {
    type V = TransferView;

    closed spec fn view(&self) -> TransferView {
        TransferView {
            direction: self.direction,
            offset: self.offset as int,
            block_size: self.block_size as int,
            done: self.done as int,
        }
    }
}

impl View for Step {
    type V = Outcome;

    open spec fn view(&self) -> Outcome {
        match *self {
            Step::Continue(transfer) => Outcome::Continue(transfer@),
            Step::Done(total) => Outcome::Done(total as int),
            Step::Failed(error) => Outcome::Failed(error),
        }
    }
}

impl Transfer {
    #[verifier::type_invariant]
    spec fn well_formed(self) -> bool {
        &&& self.done < self.block_size
        &&& self.offset + self.block_size - 1 <= u64::MAX
    }

    /// Starts the transfer of the `block_size` bytes at file offset `offset`.
    pub(crate) fn begin(direction: Direction, offset: u64, block_size: usize) -> (transfer:
        Transfer)
        requires
            block_size > 0,
            offset + block_size - 1 <= u64::MAX,
        ensures
            transfer@ == (TransferView {
                direction,
                offset: offset as int,
                block_size: block_size as int,
                done: 0,
            }),
    {
        Transfer { direction, offset, block_size, done: 0 }
    }

    /// The system call to make next.
    pub fn request(&self) -> (request: Request)
        ensures
            request == request_of(self@),
            pending(self@),
    {
        proof {
            use_type_invariant(self);
        }
        Request {
            direction: self.direction,
            position: self.offset + (self.done as u64),
            start: self.done,
            len: self.block_size - self.done,
        }
    }

    /// The number of bytes moved so far.
    pub fn bytes_done(&self) -> (done: usize)
        ensures
            done == self@.done,
    {
        self.done
    }

    /// Takes in what the system call for [`Transfer::request`] returned:
    /// `transferred` is its result, and `code` the error number that the
    /// operating system set if the result is negative.
    pub fn on_result(self, transferred: isize, code: i32) -> (step: Step)
        ensures
            step@ == outcome(self@, transferred as int, code),
            pending(self@),
    {
        proof {
            use_type_invariant(&self);
        }
        let remaining: usize = self.block_size - self.done;
        if transferred < 0 {
            Step::Failed(BlockError::IoError(code))
        } else if transferred == 0 {
            match self.direction {
                Direction::Write => Step::Failed(BlockError::ShortWrite(self.done)),
                Direction::Read => Step::Done(self.done),
            }
        } else {
            let moved: usize = transferred as usize;
            if moved < remaining {
                Step::Continue(
                    Transfer {
                        direction: self.direction,
                        offset: self.offset,
                        block_size: self.block_size,
                        done: self.done + moved,
                    },
                )
            } else if moved == remaining {
                Step::Done(self.block_size)
            } else {
                match self.direction {
                    Direction::Write => Step::Failed(BlockError::ShortWrite(self.done)),
                    Direction::Read => Step::Failed(BlockError::ShortRead(self.done)),
                }
            }
        }
    }
}

} // verus!
