use vstd::prelude::*;

use crate::error::TiffError;

verus! {

/// Which end of a multi-byte integer comes first in the source.
#[derive(Clone, Copy, Debug, PartialEq, Eq, Structural)]
pub enum ByteOrder {
    LittleEndian,
    BigEndian,
}

/// The 16-bit value that the bytes `b0`, `b1` (in source order) denote under
/// `order`.
pub open spec fn u16_of(order: ByteOrder, b0: u8, b1: u8) -> u16 {
    match order {
        ByteOrder::LittleEndian => (b0 + 0x100 * b1) as u16,
        ByteOrder::BigEndian => (0x100 * b0 + b1) as u16,
    }
}

/// The 32-bit value that the bytes `b0` .. `b3` (in source order) denote under
/// `order`.
pub open spec fn u32_of(order: ByteOrder, b0: u8, b1: u8, b2: u8, b3: u8) -> u32 {
    match order {
        ByteOrder::LittleEndian => (b0 + 0x100 * b1 + 0x10000 * b2 + 0x1000000 * b3) as u32,
        ByteOrder::BigEndian => (0x1000000 * b0 + 0x10000 * b1 + 0x100 * b2 + b3) as u32,
    }
}

/// The 16-bit value stored at position `p` of `data` under `order`.
pub open spec fn u16_at(order: ByteOrder, data: Seq<u8>, p: int) -> u16
    recommends
        0 <= p,
        p + 2 <= data.len(),
{
    u16_of(order, data[p], data[p + 1])
}

/// The 32-bit value stored at position `p` of `data` under `order`.
pub open spec fn u32_at(order: ByteOrder, data: Seq<u8>, p: int) -> u32
    recommends
        0 <= p,
        p + 4 <= data.len(),
{
    u32_of(order, data[p], data[p + 1], data[p + 2], data[p + 3])
}

/// The two bytes, in source order, that encode `v` under `order`.
pub open spec fn u16_bytes(order: ByteOrder, v: u16) -> Seq<u8> {
    let lo = (v % 0x100) as u8;
    let hi = ((v / 0x100) % 0x100) as u8;
    match order {
        ByteOrder::LittleEndian => seq![lo, hi],
        ByteOrder::BigEndian => seq![hi, lo],
    }
}

/// The four bytes, in source order, that encode `v` under `order`.
pub open spec fn u32_bytes(order: ByteOrder, v: u32) -> Seq<u8> {
    let b0 = (v % 0x100) as u8;
    let b1 = ((v / 0x100) % 0x100) as u8;
    let b2 = ((v / 0x10000) % 0x100) as u8;
    let b3 = ((v / 0x1000000) % 0x100) as u8;
    match order {
        ByteOrder::LittleEndian => seq![b0, b1, b2, b3],
        ByteOrder::BigEndian => seq![b3, b2, b1, b0],
    }
}

/// Law: decoding the two bytes that encode a 16-bit value reproduces that
/// value exactly, for either byte order, wherever the bytes lie in the source.
pub proof fn lemma_u16_round_trip(order: ByteOrder, data: Seq<u8>, p: int, v: u16)
    requires
        0 <= p,
        p + 2 <= data.len(),
        data.subrange(p, p + 2) =~= u16_bytes(order, v),
    ensures
        u16_at(order, data, p) == v,
{
    assert(data[p] == u16_bytes(order, v)[0]);
    assert(data[p + 1] == u16_bytes(order, v)[1]);
    vstd::arithmetic::div_mod::lemma_fundamental_div_mod(v as int, 0x100);
}

/// Law: decoding the four bytes that encode a 32-bit value reproduces that
/// value exactly, for either byte order, wherever the bytes lie in the source.
pub proof fn lemma_u32_round_trip(order: ByteOrder, data: Seq<u8>, p: int, v: u32)
    requires
        0 <= p,
        p + 4 <= data.len(),
        data.subrange(p, p + 4) =~= u32_bytes(order, v),
    ensures
        u32_at(order, data, p) == v,
{
    assert(data[p] == u32_bytes(order, v)[0]);
    assert(data[p + 1] == u32_bytes(order, v)[1]);
    assert(data[p + 2] == u32_bytes(order, v)[2]);
    assert(data[p + 3] == u32_bytes(order, v)[3]);
    let x = v as int;
    vstd::arithmetic::div_mod::lemma_fundamental_div_mod(x, 0x100);
    vstd::arithmetic::div_mod::lemma_fundamental_div_mod(x / 0x100, 0x100);
    vstd::arithmetic::div_mod::lemma_fundamental_div_mod(x / 0x10000, 0x100);
    vstd::arithmetic::div_mod::lemma_div_denominator(x, 0x100, 0x100);
    vstd::arithmetic::div_mod::lemma_div_denominator(x, 0x10000, 0x100);
}

/// A cursor over an exclusively owned in-memory byte source, together with the
/// byte order used to reassemble multi-byte integers.
pub struct ByteStream {
    order: ByteOrder,
    data: Vec<u8>,
    pos: usize,
}

impl ByteStream {
    /// The bytes of the source.
    pub closed spec fn data(&self) -> Seq<u8> {
        self.data@
    }

    /// The cursor position, counted in bytes from the start of the source.
    pub closed spec fn pos(&self) -> int {
        self.pos as int
    }

    /// The byte order used by default reads.
    pub closed spec fn order(&self) -> ByteOrder {
        self.order
    }

    /// The cursor never lies beyond the end of the source. Constructors
    /// establish this and every method preserves it.
    pub open spec fn wf(&self) -> bool {
        self.pos() <= self.data().len()
    }

    /// Construct a stream over `data` with initial byte order `order`,
    /// positioned at the start.
    pub fn new(data: Vec<u8>, order: ByteOrder) -> (r: ByteStream)
        ensures
            r.data() == data@,
            r.order() == order,
            r.pos() == 0,
            r.wf(),
    {
        ByteStream { order, data, pos: 0 }
    }

    /// Change the byte order for all subsequent default reads.
    pub fn set_order(&mut self, order: ByteOrder)
        ensures
            final(self).order() == order,
            final(self).data() == old(self).data(),
            final(self).pos() == old(self).pos(),
    {
        self.order = order;
    }

    /// The number of bytes in the source.
    pub fn len(&self) -> (n: usize)
        ensures
            n == self.data().len(),
    {
        self.data.len()
    }

    /// The current cursor position.
    pub fn position(&self) -> (p: usize)
        ensures
            p == self.pos(),
    {
        self.pos
    }

    /// The byte order currently used by default reads.
    pub fn current_order(&self) -> (o: ByteOrder)
        ensures
            o == self.order(),
    {
        self.order
    }

    /// Move the cursor to the absolute position `pos`. Fails without moving
    /// when the target lies beyond the end of the source.
    pub fn seek(&mut self, pos: u64) -> (r: Result<(), TiffError>)
        requires
            old(self).wf(),
        ensures
            final(self).wf(),
            final(self).data() == old(self).data(),
            final(self).order() == old(self).order(),
            pos <= old(self).data().len() ==> r == Ok::<(), TiffError>(())
                && final(self).pos() == pos,
            pos > old(self).data().len() ==> r == Err::<(), TiffError>(TiffError::SeekFailure)
                && final(self).pos() == old(self).pos(),
    {
        if pos <= self.data.len() as u64 {
            self.pos = pos as usize;
            Ok(())
        } else {
            Err(TiffError::SeekFailure)
        }
    }

    /// Read one 16-bit integer at the cursor under the caller-supplied byte
    /// order, leaving the stored order unchanged. Advances the cursor past the
    /// value on success; fails without moving when fewer than two bytes
    /// remain.
    pub fn read_with_order_u16(&mut self, order: ByteOrder) -> (r: Result<u16, TiffError>)
        requires
            old(self).wf(),
        ensures
            final(self).wf(),
            final(self).data() == old(self).data(),
            final(self).order() == old(self).order(),
            old(self).pos() + 2 <= old(self).data().len() ==> r == Ok::<u16, TiffError>(
                u16_at(order, old(self).data(), old(self).pos()),
            ) && final(self).pos() == old(self).pos() + 2,
            old(self).pos() + 2 > old(self).data().len() ==> r == Err::<u16, TiffError>(
                TiffError::ShortRead,
            ) && final(self).pos() == old(self).pos(),
    {
        if self.data.len() - self.pos >= 2 {
            let b0 = self.data[self.pos];
            let b1 = self.data[self.pos + 1];
            self.pos = self.pos + 2;
            let v: u16 = match order {
                ByteOrder::LittleEndian => b0 as u16 + 0x100 * (b1 as u16),
                ByteOrder::BigEndian => 0x100 * (b0 as u16) + b1 as u16,
            };
            Ok(v)
        } else {
            Err(TiffError::ShortRead)
        }
    }

    /// Read one 32-bit integer at the cursor under the caller-supplied byte
    /// order, leaving the stored order unchanged. Advances the cursor past the
    /// value on success; fails without moving when fewer than four bytes
    /// remain.
    pub fn read_with_order_u32(&mut self, order: ByteOrder) -> (r: Result<u32, TiffError>)
        requires
            old(self).wf(),
        ensures
            final(self).wf(),
            final(self).data() == old(self).data(),
            final(self).order() == old(self).order(),
            old(self).pos() + 4 <= old(self).data().len() ==> r == Ok::<u32, TiffError>(
                u32_at(order, old(self).data(), old(self).pos()),
            ) && final(self).pos() == old(self).pos() + 4,
            old(self).pos() + 4 > old(self).data().len() ==> r == Err::<u32, TiffError>(
                TiffError::ShortRead,
            ) && final(self).pos() == old(self).pos(),
    {
        if self.data.len() - self.pos >= 4 {
            let b0 = self.data[self.pos];
            let b1 = self.data[self.pos + 1];
            let b2 = self.data[self.pos + 2];
            let b3 = self.data[self.pos + 3];
            self.pos = self.pos + 4;
            let v: u32 = match order {
                ByteOrder::LittleEndian => b0 as u32 + 0x100 * (b1 as u32) + 0x10000 * (b2 as u32)
                    + 0x1000000 * (b3 as u32),
                ByteOrder::BigEndian => 0x1000000 * (b0 as u32) + 0x10000 * (b1 as u32) + 0x100 * (
                b2 as u32) + b3 as u32,
            };
            Ok(v)
        } else {
            Err(TiffError::ShortRead)
        }
    }

    /// Read one 16-bit integer at the cursor using the stored byte order.
    pub fn read_u16(&mut self) -> (r: Result<u16, TiffError>)
        requires
            old(self).wf(),
        ensures
            final(self).wf(),
            final(self).data() == old(self).data(),
            final(self).order() == old(self).order(),
            old(self).pos() + 2 <= old(self).data().len() ==> r == Ok::<u16, TiffError>(
                u16_at(old(self).order(), old(self).data(), old(self).pos()),
            ) && final(self).pos() == old(self).pos() + 2,
            old(self).pos() + 2 > old(self).data().len() ==> r == Err::<u16, TiffError>(
                TiffError::ShortRead,
            ) && final(self).pos() == old(self).pos(),
    {
        let order = self.order;
        self.read_with_order_u16(order)
    }

    /// Read one 32-bit integer at the cursor using the stored byte order.
    pub fn read_u32(&mut self) -> (r: Result<u32, TiffError>)
        requires
            old(self).wf(),
        ensures
            final(self).wf(),
            final(self).data() == old(self).data(),
            final(self).order() == old(self).order(),
            old(self).pos() + 4 <= old(self).data().len() ==> r == Ok::<u32, TiffError>(
                u32_at(old(self).order(), old(self).data(), old(self).pos()),
            ) && final(self).pos() == old(self).pos() + 4,
            old(self).pos() + 4 > old(self).data().len() ==> r == Err::<u32, TiffError>(
                TiffError::ShortRead,
            ) && final(self).pos() == old(self).pos(),
    {
        let order = self.order;
        self.read_with_order_u32(order)
    }

    /// Read exactly `n` bytes at the cursor. Advances the cursor past them on
    /// success; a short read fails without a partial fill, leaving the cursor
    /// where it was.
    pub fn read_bytes(&mut self, n: usize) -> (r: Result<Vec<u8>, TiffError>)
        requires
            old(self).wf(),
        ensures
            final(self).wf(),
            final(self).data() == old(self).data(),
            final(self).order() == old(self).order(),
            old(self).pos() + n <= old(self).data().len() ==> (r matches Ok(buf)
                && buf@ == old(self).data().subrange(old(self).pos(), old(self).pos() + n))
                && final(self).pos() == old(self).pos() + n,
            old(self).pos() + n > old(self).data().len() ==> r == Err::<Vec<u8>, TiffError>(
                TiffError::ShortRead,
            ) && final(self).pos() == old(self).pos(),
    {
        if self.data.len() - self.pos < n {
            return Err(TiffError::ShortRead);
        }
        let mut buf: Vec<u8> = Vec::new();
        let mut i: usize = 0;
        while i < n
            invariant
                i <= n,
                *self == *old(self),
                self.wf(),
                self.pos() + n <= self.data().len(),
                self.pos() + n <= usize::MAX,
                buf@ =~= self.data().subrange(self.pos(), self.pos() + i),
            decreases n - i,
        {
            buf.push(self.data[self.pos + i]);
            i = i + 1;
        }
        self.pos = self.pos + n;
        Ok(buf)
    }
}

} // verus!
