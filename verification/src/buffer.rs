//! A one-block buffer whose bytes start on a block boundary.

use vstd::prelude::*;
use vstd::arithmetic::power2::is_pow2;
use crate::align::{aligned, padding_to_align, valid_block_size};

verus! {

/// `n` zero bytes.
pub open spec fn zeros(n: nat) -> Seq<u8> {
    Seq::new(n, |i: int| 0u8)
}

/// `payload` followed by as many zero bytes as it takes to fill `block_size`.
pub open spec fn padded(payload: Seq<u8>, block_size: nat) -> Seq<u8> {
    payload + zeros((block_size - payload.len()) as nat)
}

/// The address at which the heap storage of `storage` begins, as
/// `Vec::as_ptr` reports it.
///
/// Which address that is, is up to the allocator. All that is claimed of it
/// is that the stored bytes end within the address space, which the language
/// guarantees of every allocation.
#[verifier::external_body]
fn storage_address(storage: &Vec<u8>) -> (address: usize)
    requires
        storage@.len() > 0,
    ensures
        address + storage@.len() <= usize::MAX,
{
    storage.as_ptr() as usize
}

/// The bytes `start..end` of `storage`, for writing in place.
///
/// This is `Vec`'s mutable index by a range, `&mut storage[start..end]`. It
/// hands out that part of the vector; whatever is written through it lands
/// there, and the bytes around it and the vector's length stay as they are.
/// With the range inside the vector it does not panic.
#[verifier::external_body]
fn storage_range_mut(storage: &mut Vec<u8>, start: usize, end: usize) -> (bytes: &mut [u8])
    requires
        start <= end <= old(storage)@.len(),
    ensures
        bytes@ == old(storage)@.subrange(start as int, end as int),
        final(bytes)@.len() == bytes@.len(),
        final(storage)@ == old(storage)@.subrange(0, start as int) + final(bytes)@ + old(
            storage,
        )@.subrange(end as int, old(storage)@.len() as int),
    no_unwind
{
    &mut storage[start..end]
}

/// A buffer of exactly one block, placed so that its first byte lies on a
/// block boundary.
///
/// The bytes live inside a larger allocation that is never resized, so the
/// address recorded when the buffer was made stays the address of its first
/// byte for as long as the buffer lives.
#[derive(Debug)]
pub struct AlignedBuffer {
    storage: Vec<u8>,
    start: usize,
    block_size: usize,
    address: usize,
}

impl View for AlignedBuffer {
    type V = Seq<u8>;

    closed spec fn view(&self) -> Seq<u8> {
        self.storage@.subrange(self.start as int, self.start + self.block_size)
    }
}

impl AlignedBuffer {
    #[verifier::type_invariant]
    spec fn well_formed(self) -> bool {
        &&& self.block_size > 0
        &&& self.start + self.block_size <= self.storage@.len() <= usize::MAX
        &&& aligned(self.address as int, self.block_size as int)
    }

    /// The number of bytes the buffer holds.
    pub closed spec fn spec_len(&self) -> usize {
        self.block_size
    }

    /// The address of the buffer's first byte.
    pub closed spec fn spec_address(&self) -> usize {
        self.address
    }

    /// Makes a zero-filled buffer of `block_size` bytes that starts on a
    /// boundary of `block_size`.
    pub fn allocate(block_size: usize) -> (buffer: AlignedBuffer)
        requires
            valid_block_size(block_size as int),
        ensures
            buffer@ == zeros(block_size as nat),
            buffer.spec_len() == block_size,
            aligned(buffer.spec_address() as int, block_size as int),
    {
        proof {
            reveal(is_pow2);
        }
        let storage: Vec<u8> = vec![0u8; block_size + (block_size - 1)];
        let base: usize = storage_address(&storage);
        let start: usize = padding_to_align(base, block_size);
        let buffer = AlignedBuffer { storage, start, block_size, address: base + start };
        assert(buffer@ =~= zeros(block_size as nat));
        buffer
    }

    /// The number of bytes the buffer holds.
    #[verifier::when_used_as_spec(spec_len)]
    pub fn len(&self) -> (n: usize)
        ensures
            n == self.spec_len(),
            n == self@.len(),
            n > 0,
    {
        proof {
            use_type_invariant(self);
        }
        self.block_size
    }

    /// The address of the buffer's first byte.
    #[verifier::when_used_as_spec(spec_address)]
    pub fn address(&self) -> (a: usize)
        ensures
            a == self.spec_address(),
            aligned(a as int, self.spec_len() as int),
    {
        proof {
            use_type_invariant(self);
        }
        self.address
    }

    /// The bytes of the buffer.
    pub fn as_slice(&self) -> (bytes: &[u8])
        ensures
            bytes@ == self@,
    {
        proof {
            use_type_invariant(self);
        }
        vstd::slice::slice_subrange(self.storage.as_slice(), self.start, self.start + self.block_size)
    }

    /// The bytes of the buffer, for writing in place.
    pub fn as_mut_slice(&mut self) -> (bytes: &mut [u8])
        ensures
            bytes@ == old(self)@,
            final(bytes)@.len() == bytes@.len(),
            final(self)@ == final(bytes)@,
            final(self).spec_len() == old(self).spec_len(),
            final(self).spec_address() == old(self).spec_address(),
    {
        proof {
            use_type_invariant(&*self);
        }
        let end: usize = self.start + self.block_size;
        storage_range_mut(&mut self.storage, self.start, end)
    }

    /// The first `len` bytes of the buffer.
    pub fn prefix(&self, len: usize) -> (bytes: &[u8])
        requires
            len <= self.spec_len(),
        ensures
            bytes@ == self@.subrange(0, len as int),
    {
        proof {
            use_type_invariant(self);
        }
        let bytes = vstd::slice::slice_subrange(
            self.storage.as_slice(),
            self.start,
            self.start + len,
        );
        assert(bytes@ =~= self@.subrange(0, len as int));
        bytes
    }

    /// Overwrites the buffer with `payload`, followed by zero bytes up to the
    /// end of the block.
    pub fn fill(&mut self, payload: &[u8])
        requires
            payload@.len() <= old(self).spec_len(),
        ensures
            final(self)@ == padded(payload@, old(self).spec_len() as nat),
            final(self).spec_len() == old(self).spec_len(),
            final(self).spec_address() == old(self).spec_address(),
    {
        proof {
            use_type_invariant(&*self);
        }
        let given: usize = payload.len();
        let mut i: usize = 0;
        while i < self.block_size
            invariant
                i <= self.block_size,
                given == payload@.len(),
                given <= self.block_size,
                self.block_size == old(self).block_size,
                self.start == old(self).start,
                self.address == old(self).address,
                self.well_formed(),
                forall|k: int|
                    self.start <= k < self.start + i ==> self.storage@[k] == padded(
                        payload@,
                        self.block_size as nat,
                    )[k - self.start],
            decreases self.block_size - i,
        {
            let byte: u8 = if i < given {
                payload[i]
            } else {
                0u8
            };
            self.storage[self.start + i] = byte;
            i = i + 1;
        }
        assert(self@ =~= padded(payload@, self.block_size as nat));
    }

    /// Overwrites the whole buffer with zero bytes.
    pub fn clear(&mut self)
        ensures
            final(self)@ == zeros(old(self).spec_len() as nat),
            final(self).spec_len() == old(self).spec_len(),
            final(self).spec_address() == old(self).spec_address(),
    {
        proof {
            use_type_invariant(&*self);
        }
        let mut i: usize = 0;
        while i < self.block_size
            invariant
                i <= self.block_size,
                self.block_size == old(self).block_size,
                self.start == old(self).start,
                self.address == old(self).address,
                self.well_formed(),
                forall|k: int| self.start <= k < self.start + i ==> self.storage@[k] == 0u8,
            decreases self.block_size - i,
        {
            self.storage[self.start + i] = 0u8;
            i = i + 1;
        }
        assert(self@ =~= zeros(self.block_size as nat));
    }
}

} // verus!
