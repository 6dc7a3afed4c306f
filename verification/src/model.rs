//! What block transfers do to a file, with the file taken as the sequence of
//! its bytes.
//!
//! The functions here describe the system calls that the caller makes; the
//! laws show that the requests of a [`crate::transfer::Transfer`], carried
//! out one after the other, move exactly the block that was asked for,
//! however the operating system cuts the transfer into pieces.

use vstd::prelude::*;
use crate::buffer::padded;
use crate::transfer::{
    outcome, pending, request_of, Direction, Outcome, Request, TransferView,
};

verus! {

/// The file after `data` is written at byte `position`. Writing past the end
/// lengthens the file, and bytes never written read as zero.
pub open spec fn write_at(file: Seq<u8>, position: int, data: Seq<u8>) -> Seq<u8> {
    let end = position + data.len();
    let length = if file.len() < end {
        end
    } else {
        file.len() as int
    };
    if data.len() == 0 {
        file
    } else {
        Seq::new(
            length as nat,
            |i: int|
                if position <= i < end {
                    data[i - position]
                } else if i < file.len() {
                    file[i]
                } else {
                    0u8
                },
        )
    }
}

/// The bytes that the file holds from byte `position` on, `len` of them or as
/// many as there are before the file ends.
pub open spec fn read_at(file: Seq<u8>, position: int, len: int) -> Seq<u8> {
    let end = if position + len < file.len() {
        position + len
    } else {
        file.len() as int
    };
    if position < end {
        file.subrange(position, end)
    } else {
        Seq::empty()
    }
}

/// What a read system call may hand over for `request` on `file`: the first
/// bytes of what the file holds at the request's position, and at least one
/// of them unless the file holds none there.
pub open spec fn delivers(file: Seq<u8>, request: Request, received: Seq<u8>) -> bool {
    let available = read_at(file, request.position as int, request.len as int);
    &&& received.len() <= available.len()
    &&& received == available.subrange(0, received.len() as int)
    &&& received.len() == 0 ==> available.len() == 0
}

/// The buffer after a read system call put `received` at index `start`.
pub open spec fn receive(buffer: Seq<u8>, start: int, received: Seq<u8>) -> Seq<u8> {
    buffer.subrange(0, start) + received + buffer.subrange(
        start + received.len(),
        buffer.len() as int,
    )
}

/// The file while a write is under way: the part of `block` that the transfer
/// has moved so far stands at the transfer's offset.
pub open spec fn file_during_write(state: TransferView, before: Seq<u8>, block: Seq<u8>) -> Seq<
    u8,
> {
    write_at(before, state.offset, block.subrange(0, state.done))
}

/// What was written can be read back from the same place.
pub proof fn lemma_read_back(file: Seq<u8>, position: int, data: Seq<u8>)
    requires
        0 <= position,
    ensures
        read_at(write_at(file, position, data), position, data.len() as int) == data,
{
    assert(read_at(write_at(file, position, data), position, data.len() as int) =~= data);
}

/// A payload no longer than a block, written zero-padded to a whole block and
/// read back as a whole block from the same offset, comes back in the first
/// bytes of the block, followed by the zero padding.
pub proof fn lemma_round_trip(file: Seq<u8>, offset: int, payload: Seq<u8>, block_size: nat)
    requires
        0 <= offset,
        payload.len() <= block_size,
    ensures
        ({
            let block = read_at(
                write_at(file, offset, padded(payload, block_size)),
                offset,
                block_size as int,
            );
            &&& block.len() == block_size
            &&& block.subrange(0, payload.len() as int) == payload
            &&& forall|i: int| payload.len() <= i < block_size ==> block[i] == 0u8
        }),
{
    let written = padded(payload, block_size);
    lemma_read_back(file, offset, written);
    assert(written.len() == block_size);
    assert(written.subrange(0, payload.len() as int) =~= payload);
}

/// Writing the head of `data` and then its tail behind it gives the same file
/// as writing `data` in one piece.
pub proof fn lemma_write_in_pieces(file: Seq<u8>, position: int, data: Seq<u8>, split: int)
    requires
        0 <= position,
        0 <= split <= data.len(),
    ensures
        write_at(
            write_at(file, position, data.subrange(0, split)),
            position + split,
            data.subrange(split, data.len() as int),
        ) == write_at(file, position, data),
{
    let head = data.subrange(0, split);
    let tail = data.subrange(split, data.len() as int);
    assert(write_at(write_at(file, position, head), position + split, tail) =~= write_at(
        file,
        position,
        data,
    ));
}

/// Reading one stretch of the file and then the stretch behind it gives the
/// same bytes as reading both in one piece.
pub proof fn lemma_read_in_pieces(file: Seq<u8>, position: int, first: int, second: int)
    requires
        0 <= position,
        0 <= first,
        0 <= second,
    ensures
        read_at(file, position, first) + read_at(file, position + first, second) == read_at(
            file,
            position,
            first + second,
        ),
{
    assert(read_at(file, position, first) + read_at(file, position + first, second) =~= read_at(
        file,
        position,
        first + second,
    ));
}

/// One step of a write keeps the file in line with the transfer: when the
/// system call for the transfer's request has written `transferred` bytes, a
/// transfer that goes on has its moved part in the file, and a transfer that
/// is done has put the whole block there.
pub proof fn lemma_write_step(
    state: TransferView,
    before: Seq<u8>,
    block: Seq<u8>,
    transferred: int,
    code: i32,
)
    requires
        pending(state),
        state.direction == Direction::Write,
        block.len() == state.block_size,
        0 < transferred <= state.block_size - state.done,
    ensures
        ({
            let request = request_of(state);
            let file = write_at(
                file_during_write(state, before, block),
                request.position as int,
                block.subrange(request.start as int, request.start + transferred),
            );
            match outcome(state, transferred, code) {
                Outcome::Continue(next) => pending(next) && file == file_during_write(
                    next,
                    before,
                    block,
                ),
                Outcome::Done(total) => total == state.block_size && file == write_at(
                    before,
                    state.offset,
                    block,
                ),
                Outcome::Failed(_) => false,
            }
        }),
{
    let moved = block.subrange(0, state.done + transferred);
    lemma_write_in_pieces(before, state.offset, moved, state.done);
    assert(moved.subrange(0, state.done) =~= block.subrange(0, state.done));
    assert(moved.subrange(state.done, moved.len() as int) =~= block.subrange(
        state.done,
        state.done + transferred,
    ));
    if transferred == state.block_size - state.done {
        assert(moved =~= block);
    }
}

/// One step of a read keeps the buffer in line with the transfer. `buffer`
/// holds what the transfer has read so far in its first bytes, and the system
/// call for the transfer's request hands over `received`. Then a transfer
/// that goes on has the file's bytes from its offset on in the buffer, and a
/// transfer that is done has read the block as far as the file holds it: its
/// count is short of a block only where the file ends.
pub proof fn lemma_read_step(
    state: TransferView,
    file: Seq<u8>,
    buffer: Seq<u8>,
    received: Seq<u8>,
    code: i32,
)
    requires
        pending(state),
        state.direction == Direction::Read,
        buffer.len() == state.block_size,
        buffer.subrange(0, state.done) == read_at(file, state.offset, state.done),
        delivers(file, request_of(state), received),
    ensures
        ({
            let filled = receive(buffer, request_of(state).start as int, received);
            &&& filled.len() == buffer.len()
            &&& match outcome(state, received.len() as int, code) {
                Outcome::Continue(next) => pending(next) && filled.subrange(0, next.done)
                    == read_at(file, next.offset, next.done),
                Outcome::Done(total) => 0 <= total <= state.block_size && filled.subrange(0, total)
                    == read_at(file, state.offset, state.block_size),
                Outcome::Failed(_) => false,
            }
        }),
{
    let count = received.len() as int;
    let filled = receive(buffer, request_of(state).start as int, received);
    assert(filled.subrange(0, state.done + count) =~= buffer.subrange(0, state.done) + received);
    lemma_read_in_pieces(file, state.offset, state.done, count);
    assert(received =~= read_at(file, state.offset + state.done, count));
    if count == 0 {
        assert(read_at(file, state.offset, state.block_size) =~= read_at(
            file,
            state.offset,
            state.done,
        ));
    }
}

/// Where a transfer in `state` ends up when the system calls for its
/// requests return `results`, one after the other. Results that come after
/// the transfer is over are not looked at.
pub open spec fn run(state: TransferView, results: Seq<int>) -> Outcome
    decreases results.len(),
{
    if results.len() == 0 {
        Outcome::Continue(state)
    } else {
        match outcome(state, results[0], 0) {
            Outcome::Continue(next) => run(next, results.drop_first()),
            over => over,
        }
    }
}

/// The file after the system calls for the requests of a write in `state`
/// wrote `results` bytes, one call after the other, each taking its bytes
/// from `block` as its request says.
pub open spec fn file_after_writes(
    state: TransferView,
    file: Seq<u8>,
    block: Seq<u8>,
    results: Seq<int>,
) -> Seq<u8>
    decreases results.len(),
{
    if results.len() == 0 {
        file
    } else {
        let request = request_of(state);
        let written = write_at(
            file,
            request.position as int,
            block.subrange(request.start as int, request.start + results[0]),
        );
        match outcome(state, results[0], 0) {
            Outcome::Continue(next) => file_after_writes(
                next,
                written,
                block,
                results.drop_first(),
            ),
            _ => written,
        }
    }
}

/// However the operating system cuts a write into pieces, a transfer that
/// is done has put the whole block into the file at its offset: a count short
/// of the request is followed by a request for the rest, never taken for
/// success.
pub proof fn lemma_write_run(
    state: TransferView,
    before: Seq<u8>,
    block: Seq<u8>,
    results: Seq<int>,
)
    requires
        pending(state),
        state.direction == Direction::Write,
        block.len() == state.block_size,
        forall|i: int| 0 <= i < results.len() ==> results[i] > 0,
        run(state, results) is Done,
    ensures
        run(state, results) == Outcome::Done(state.block_size),
        file_after_writes(state, file_during_write(state, before, block), block, results)
            == write_at(before, state.offset, block),
    decreases results.len(),
{
    if results.len() > 0 {
        let first = results[0];
        if first <= state.block_size - state.done {
            lemma_write_step(state, before, block, first, 0);
            match outcome(state, first, 0) {
                Outcome::Continue(next) => {
                    let rest = results.drop_first();
                    assert forall|i: int| 0 <= i < rest.len() implies rest[i] > 0 by {
                        assert(rest[i] == results[i + 1]);
                    }
                    lemma_write_run(next, before, block, rest);
                },
                _ => {},
            }
        }
    }
}

/// The lengths of `chunks`, one for each.
pub open spec fn lengths(chunks: Seq<Seq<u8>>) -> Seq<int> {
    Seq::new(chunks.len(), |i: int| chunks[i].len() as int)
}

/// Each of `chunks` is what a read system call may hand over for the request
/// that a read in `state` makes when the chunks before it have come in.
pub open spec fn reads_deliver(state: TransferView, file: Seq<u8>, chunks: Seq<Seq<u8>>) -> bool
    decreases chunks.len(),
{
    chunks.len() == 0 || {
        &&& delivers(file, request_of(state), chunks[0])
        &&& match outcome(state, chunks[0].len() as int, 0) {
            Outcome::Continue(next) => reads_deliver(next, file, chunks.drop_first()),
            _ => true,
        }
    }
}

/// The buffer after the system calls for the requests of a read in `state`
/// handed over `chunks`, one call after the other.
pub open spec fn buffer_after_reads(
    state: TransferView,
    buffer: Seq<u8>,
    chunks: Seq<Seq<u8>>,
) -> Seq<u8>
    decreases chunks.len(),
{
    if chunks.len() == 0 {
        buffer
    } else {
        let filled = receive(buffer, request_of(state).start as int, chunks[0]);
        match outcome(state, chunks[0].len() as int, 0) {
            Outcome::Continue(next) => buffer_after_reads(next, filled, chunks.drop_first()),
            _ => filled,
        }
    }
}

/// However the operating system cuts a read into pieces, a transfer that is
/// done has the block in the buffer as far as the file holds it, and reports
/// that many bytes.
pub proof fn lemma_read_run(
    state: TransferView,
    file: Seq<u8>,
    buffer: Seq<u8>,
    chunks: Seq<Seq<u8>>,
)
    requires
        pending(state),
        state.direction == Direction::Read,
        buffer.len() == state.block_size,
        buffer.subrange(0, state.done) == read_at(file, state.offset, state.done),
        reads_deliver(state, file, chunks),
        run(state, lengths(chunks)) is Done,
    ensures
        ({
            let total = run(state, lengths(chunks))->Done_0;
            let filled = buffer_after_reads(state, buffer, chunks);
            &&& filled.len() == buffer.len()
            &&& total == read_at(file, state.offset, state.block_size).len()
            &&& filled.subrange(0, total) == read_at(file, state.offset, state.block_size)
        }),
    decreases chunks.len(),
{
    if chunks.len() > 0 {
        let first = chunks[0];
        assert(lengths(chunks)[0] == first.len());
        assert(lengths(chunks).drop_first() =~= lengths(chunks.drop_first()));
        lemma_read_step(state, file, buffer, first, 0);
        let filled = receive(buffer, request_of(state).start as int, first);
        match outcome(state, first.len() as int, 0) {
            Outcome::Continue(next) => {
                lemma_read_run(next, file, filled, chunks.drop_first());
            },
            Outcome::Done(total) => {
                assert(filled.subrange(0, total).len() == total);
            },
            Outcome::Failed(_) => {},
        }
    }
}

/// A payload no longer than a block comes back whole, however the operating
/// system cuts the write and the read into pieces: once the block that holds
/// the payload and its zero padding has been written at `offset`, reading the
/// block at `offset` fills the buffer with the payload and the padding.
pub proof fn lemma_round_trip_in_pieces(
    before: Seq<u8>,
    offset: int,
    block_size: int,
    payload: Seq<u8>,
    results: Seq<int>,
    buffer: Seq<u8>,
    chunks: Seq<Seq<u8>>,
)
    requires
        payload.len() <= block_size,
        buffer.len() == block_size,
        pending(TransferView { direction: Direction::Write, offset, block_size, done: 0 }),
        forall|i: int| 0 <= i < results.len() ==> results[i] > 0,
        run(TransferView { direction: Direction::Write, offset, block_size, done: 0 }, results)
            is Done,
        reads_deliver(
            TransferView { direction: Direction::Read, offset, block_size, done: 0 },
            file_after_writes(
                TransferView { direction: Direction::Write, offset, block_size, done: 0 },
                before,
                padded(payload, block_size as nat),
                results,
            ),
            chunks,
        ),
        run(
            TransferView { direction: Direction::Read, offset, block_size, done: 0 },
            lengths(chunks),
        ) is Done,
    ensures
        ({
            let reading = TransferView { direction: Direction::Read, offset, block_size, done: 0 };
            let block = buffer_after_reads(reading, buffer, chunks);
            &&& run(reading, lengths(chunks)) == Outcome::Done(block_size)
            &&& block == padded(payload, block_size as nat)
            &&& block.subrange(0, payload.len() as int) == payload
            &&& forall|i: int| payload.len() <= i < block_size ==> block[i] == 0u8
        }),
{
    let writing = TransferView { direction: Direction::Write, offset, block_size, done: 0 };
    let reading = TransferView { direction: Direction::Read, offset, block_size, done: 0 };
    let written = padded(payload, block_size as nat);
    assert(file_during_write(writing, before, written) =~= before);
    lemma_write_run(writing, before, written, results);
    let file = write_at(before, offset, written);
    assert(buffer.subrange(0, 0) =~= read_at(file, offset, 0));
    lemma_read_run(reading, file, buffer, chunks);
    lemma_read_back(before, offset, written);
    let block = buffer_after_reads(reading, buffer, chunks);
    assert(block.subrange(0, block_size) =~= block);
    assert(written.subrange(0, payload.len() as int) =~= payload);
}

} // verus!
