//! The linear memory of a machine.
use vstd::prelude::*;

use crate::value::Value;

verus! {

/// The number of bytes of a page, the unit in which memory grows.
pub const PAGE_SIZE: usize = 65536;

/// The most pages that one request may add.
pub const MAX_GROWTH_PAGES: i32 = 16384;

/// Bytes that a program reads and writes, with the size that they may grow to.
pub struct Memory {
    data: Vec<u8>,
    max_size: Option<usize>,
}

/// A memory as mathematics.
#[verifier::ext_equal]
pub struct MemoryState {
    pub bytes: Seq<u8>,
    pub max_size: Option<usize>,
}

impl View for Memory {
    type V = MemoryState;

    closed spec fn view(&self) -> MemoryState {
        MemoryState { bytes: self.data@, max_size: self.max_size }
    }
}

/// `n` bytes of zero.
pub open spec fn zeros(n: nat) -> Seq<u8> {
    Seq::new(n, |i: int| 0u8)
}

/// The number of whole pages of `len` bytes, as an instruction sees it.
pub open spec fn page_count(len: nat) -> Value {
    Value::I32((len / PAGE_SIZE as nat) as i32)
}

impl MemoryState {
    /// Whether the memory is no larger than it is allowed to be.
    pub open spec fn within_limit(self) -> bool {
        self.max_size matches Some(limit) ==> self.bytes.len() <= limit
    }

    /// Whether memory takes `n_pages` more pages: a positive number of them, no
    /// more than a request may add, and within the size that is allowed.
    pub open spec fn can_grow(self, n_pages: i32) -> bool {
        &&& 0 < n_pages <= MAX_GROWTH_PAGES
        &&& self.bytes.len() + n_pages * PAGE_SIZE <= usize::MAX
        &&& self.max_size matches Some(limit) ==> self.bytes.len() + n_pages * PAGE_SIZE <= limit
    }

    /// The memory after a request for `n_pages` more pages, and its answer: the
    /// number of pages before, or minus one with the memory as it was.
    pub open spec fn grown(self, n_pages: i32) -> (MemoryState, Value) {
        if self.can_grow(n_pages) {
            (
                MemoryState {
                    bytes: self.bytes + zeros((n_pages * PAGE_SIZE) as nat),
                    max_size: self.max_size,
                },
                page_count(self.bytes.len()),
            )
        } else {
            (self, Value::I32((-1) as i32))
        }
    }
}

impl Memory {
    /// A memory of `default_size` bytes of zero.
    pub fn new(default_size: usize, max_size: Option<usize>) -> (memory: Memory)
        ensures
            memory@ == (MemoryState { bytes: zeros(default_size as nat), max_size }),
    {
        let data: Vec<u8> = vec![0u8; default_size];
        assert(data@ =~= zeros(default_size as nat));
        Memory { data, max_size }
    }

    pub fn current_size(&self) -> (pages: Value)
        ensures
            pages == page_count(self@.bytes.len()),
    {
        Value::I32((self.data.len() / PAGE_SIZE) as i32)
    }

    pub fn grow(&mut self, n_pages: i32) -> (answer: Value)
        ensures
            (final(self)@, answer) == old(self)@.grown(n_pages),
    {
        if n_pages <= 0 || n_pages > MAX_GROWTH_PAGES {
            return Value::I32(-1);
        }
        let len: usize = self.data.len();
        let len_inc: usize = n_pages as usize * PAGE_SIZE;
        let after_inc: usize = match len.checked_add(len_inc) {
            Some(after_inc) => after_inc,
            None => return Value::I32(-1),
        };
        if let Some(limit) = self.max_size {
            if after_inc > limit {
                return Value::I32(-1);
            }
        }
        self.data.resize(after_inc, 0);
        proof {
            let grown = old(self)@.grown(n_pages).0.bytes;
            assert forall|i: int| 0 <= i < after_inc implies self.data@[i] == grown[i] by {
                if i < len {
                    assert(self.data@.subrange(0, len as int)[i] == old(self).data@[i]);
                }
            }
            assert(self.data@ =~= grown);
        }
        Value::I32((len / PAGE_SIZE) as i32)
    }

    /// The number of bytes.
    pub(crate) fn len(&self) -> (len: usize)
        ensures
            len == self@.bytes.len(),
    {
        self.data.len()
    }

    /// The byte at an address.
    pub(crate) fn read(&self, addr: usize) -> (byte: u8)
        requires
            addr < self@.bytes.len(),
        ensures
            byte == self@.bytes[addr as int],
    {
        self.data[addr]
    }

    /// Replaces the byte at an address.
    pub(crate) fn write(&mut self, addr: usize, byte: u8)
        requires
            addr < old(self)@.bytes.len(),
        ensures
            final(self)@ == (MemoryState {
                bytes: old(self)@.bytes.update(addr as int, byte),
                max_size: old(self)@.max_size,
            }),
    {
        self.data.set(addr, byte);
    }

    /// All bytes.
    pub(crate) fn bytes(&self) -> (bytes: &[u8])
        ensures
            bytes@ == self@.bytes,
    {
        self.data.as_slice()
    }

    /// All bytes, to be changed or resized.
    pub(crate) fn bytes_mut(&mut self) -> (bytes: &mut Vec<u8>)
        ensures
            bytes@ == old(self)@.bytes,
            final(self)@ == (MemoryState {
                bytes: final(bytes)@,
                max_size: old(self)@.max_size,
            }),
    {
        &mut self.data
    }
}

} // verus!
