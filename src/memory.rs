//! Word memory.
//!
//! A block of bytes of fixed size. Double words are stored big endian: the
//! high byte at the lower address.
use vstd::prelude::*;

use crate::storage::BusContext;

verus! {

/// The double word stored big endian at `offset`.
pub open spec fn dword_at(m: Seq<u8>, offset: int) -> u16 {
    (m[offset] as int * 256 + m[offset + 1] as int) as u16
}

/// `m` with `value` stored big endian at `offset`.
pub open spec fn store_dword(m: Seq<u8>, offset: int, value: u16) -> Seq<u8> {
    m.update(offset, (value / 256) as u8).update(offset + 1, (value % 256) as u8)
}

/// `m` with `values` copied in from `offset` on.
pub open spec fn store_slice(m: Seq<u8>, offset: int, values: Seq<u8>) -> Seq<u8> {
    Seq::new(
        m.len(),
        |a: int|
            if offset <= a < offset + values.len() {
                values[a - offset]
            } else {
                m[a]
            },
    )
}

/// A double word written at an offset is read back unchanged from it.
pub proof fn lemma_dword_round_trip(m: Seq<u8>, offset: int, value: u16)
    requires
        0 <= offset,
        offset + 1 < m.len(),
    ensures
        dword_at(store_dword(m, offset, value), offset) == value,
        store_dword(m, offset, value).len() == m.len(),
{
}

/// Word memory.
#[derive(Debug)]
pub struct WordMemory {
    values: Vec<u8>,
}

impl View for WordMemory {
    type V = Seq<u8>;

    closed spec fn view(&self) -> Seq<u8> {
        self.values@
    }
}

impl WordMemory {
    /// Create new zeroed word memory of the specified size.
    pub fn new(size: usize) -> (r: WordMemory)
        ensures
            r@ == Seq::new(size as nat, |_a: int| 0u8),
    {
        let mut values: Vec<u8> = Vec::new();
        let mut k: usize = 0;
        while k < size
            invariant
                k <= size,
                values@ == Seq::new(k as nat, |_a: int| 0u8),
            decreases size - k,
        {
            values.push(0);
            k = k + 1;
            assert(values@ =~= Seq::new(k as nat, |_a: int| 0u8));
        }
        WordMemory { values }
    }

    /// The size in bytes.
    pub fn len(&self) -> (r: usize)
        ensures
            r == self@.len(),
    {
        self.values.len()
    }

    /// Read the byte at `offset`.
    pub fn read(&self, ctx: BusContext, offset: usize) -> (r: u8)
        requires
            offset < self@.len(),
        ensures
            r == self@[offset as int],
    {
        self.values[offset]
    }

    /// Write the byte at `offset`.
    pub fn write(&mut self, ctx: BusContext, offset: usize, value: u8)
        requires
            offset < old(self)@.len(),
        ensures
            final(self)@ == old(self)@.update(offset as int, value),
    {
        self.values.set(offset, value);
    }

    /// Read the big-endian double word at `offset`.
    pub fn read_dword(&self, ctx: BusContext, offset: usize) -> (r: u16)
        requires
            offset + 1 < self@.len(),
        ensures
            r == dword_at(self@, offset as int),
    {
        let _n = self.values.len();
        let high = self.read(ctx, offset) as u16;
        let low = self.read(ctx, offset + 1) as u16;
        high * 256 + low
    }

    /// Write a double word at `offset`, big endian.
    pub fn write_dword(&mut self, ctx: BusContext, offset: usize, value: u16)
        requires
            offset + 1 < old(self)@.len(),
        ensures
            final(self)@ == store_dword(old(self)@, offset as int, value),
    {
        let _n = self.values.len();
        self.write(ctx, offset, (value / 256) as u8);
        self.write(ctx, offset + 1, (value % 256) as u8);
    }

    /// Read `count` bytes from `offset` on.
    pub fn read_slice(&self, ctx: BusContext, offset: usize, count: usize) -> (r: Vec<u8>)
        requires
            offset + count <= self@.len(),
        ensures
            r@ == self@.subrange(offset as int, offset + count),
    {
        let _n = self.values.len();
        let mut r: Vec<u8> = Vec::new();
        let mut k: usize = 0;
        while k < count
            invariant
                k <= count,
                offset + count <= self@.len(),
                self@.len() <= usize::MAX,
                r@ == self@.subrange(offset as int, offset + k),
            decreases count - k,
        {
            r.push(self.read(ctx, offset + k));
            k = k + 1;
            assert(r@ =~= self@.subrange(offset as int, offset + k));
        }
        r
    }

    /// Write `values` from `offset` on.
    pub fn write_slice(&mut self, ctx: BusContext, offset: usize, values: &[u8])
        requires
            offset + values@.len() <= old(self)@.len(),
        ensures
            final(self)@ == store_slice(old(self)@, offset as int, values@),
    {
        let _n = self.values.len();
        let mut k: usize = 0;
        while k < values.len()
            invariant
                k <= values@.len(),
                offset + values@.len() <= old(self)@.len(),
                old(self)@.len() <= usize::MAX,
                self@ == store_slice(old(self)@, offset as int, values@.subrange(0, k as int)),
            decreases values@.len() - k,
        {
            self.write(ctx, offset + k, values[k]);
            k = k + 1;
            assert(self@ =~= store_slice(old(self)@, offset as int, values@.subrange(0, k as int)));
        }
        assert(values@.subrange(0, values@.len() as int) =~= values@);
    }

    /// A copy of the whole block.
    pub fn to_bytes(&self) -> (r: Vec<u8>)
        ensures
            r@ == self@,
    {
        self.values.clone()
    }
}

} // verus!
