//! The growable byte container every layer works on: an ordered sequence of
//! bytes with an independent read cursor. The write cursor is the end of the
//! bytes, so writes append and reads consume from the front.

use vstd::prelude::*;

use crate::error::ProtoError;
use crate::varint::spec_varint;
use crate::varint::varint_incomplete;
use crate::varint::varint_len;
use crate::varint::varint_malformed;
use crate::varint::varint_parse;

verus! {

/// Growable byte buffer with a read cursor. The bytes before `reader_index`
/// have been consumed; the bytes from `reader_index` on are still to be read.
pub struct Buf {
    pub buffer: Vec<u8>,
    pub reader_index: usize,
}

impl Buf {
    /// The read cursor never runs past the end of the bytes.
    pub open spec fn wf(self) -> bool {
        self.reader_index <= self.buffer@.len()
    }

    /// The bytes not yet consumed.
    pub open spec fn remaining_bytes(self) -> Seq<u8> {
        self.buffer@.skip(self.reader_index as int)
    }

    pub fn new() -> (r: Buf)
        ensures
            r.wf(),
            r.buffer@ == Seq::<u8>::empty(),
            r.reader_index == 0,
    {
        Buf { buffer: Vec::new(), reader_index: 0 }
    }

    /// An empty buffer with room for `len` bytes already reserved.
    pub fn with_length(len: u32) -> (r: Buf)
        ensures
            r.wf(),
            r.buffer@ == Seq::<u8>::empty(),
            r.reader_index == 0,
    {
        Buf { buffer: Vec::with_capacity(len as usize), reader_index: 0 }
    }

    /// An empty buffer with room for `cap` bytes already reserved.
    pub fn with_capacity(cap: u32) -> (r: Buf)
        ensures
            r.wf(),
            r.buffer@ == Seq::<u8>::empty(),
            r.reader_index == 0,
    {
        Buf { buffer: Vec::with_capacity(cap as usize), reader_index: 0 }
    }

    /// A buffer over already-obtained bytes, none of them consumed yet.
    pub fn from_vec(bytes: Vec<u8>) -> (r: Buf)
        ensures
            r.wf(),
            r.buffer@ == bytes@,
            r.reader_index == 0,
    {
        Buf { buffer: bytes, reader_index: 0 }
    }

    pub fn len(&self) -> (r: usize)
        ensures
            r == self.buffer@.len(),
    {
        self.buffer.len()
    }

    pub fn remaining(&self) -> (r: usize)
        requires
            self.wf(),
        ensures
            r == self.remaining_bytes().len(),
    {
        self.buffer.len() - self.reader_index
    }

    pub fn get_reader_index(&self) -> (r: usize)
        ensures
            r == self.reader_index,
    {
        self.reader_index
    }

    pub fn set_reader_index(&mut self, index: usize)
        requires
            index <= old(self).buffer@.len(),
        ensures
            final(self).wf(),
            final(self).buffer@ == old(self).buffer@,
            final(self).reader_index == index,
    {
        self.reader_index = index;
    }

    /// The write cursor: the position the next written byte will take.
    pub fn get_writer_index(&self) -> (r: usize)
        ensures
            r == self.buffer@.len(),
    {
        self.buffer.len()
    }

    /// Appends one byte.
    pub fn write_u8(&mut self, b: u8)
        ensures
            final(self).buffer@ == old(self).buffer@.push(b),
            final(self).reader_index == old(self).reader_index,
    {
        self.buffer.push(b);
    }

    /// Appends a 16-bit value, most significant byte first.
    pub fn write_u16_be(&mut self, v: u16)
        ensures
            final(self).buffer@ == old(self).buffer@ + spec_u16_be(v),
            final(self).reader_index == old(self).reader_index,
    {
        self.buffer.push((v / 0x100) as u8);
        self.buffer.push((v % 0x100) as u8);
        proof {
            assert(self.buffer@ =~= old(self).buffer@ + spec_u16_be(v));
        }
    }

    /// Appends a 64-bit value, most significant byte first.
    pub fn write_u64_be(&mut self, v: u64)
        ensures
            final(self).buffer@ == old(self).buffer@ + spec_u64_be(v),
            final(self).reader_index == old(self).reader_index,
    {
        self.buffer.push((v / 0x100_0000_0000_0000) as u8);
        self.buffer.push((v / 0x1_0000_0000_0000 % 0x100) as u8);
        self.buffer.push((v / 0x100_0000_0000 % 0x100) as u8);
        self.buffer.push((v / 0x1_0000_0000 % 0x100) as u8);
        self.buffer.push((v / 0x100_0000 % 0x100) as u8);
        self.buffer.push((v / 0x1_0000 % 0x100) as u8);
        self.buffer.push((v / 0x100 % 0x100) as u8);
        self.buffer.push((v % 0x100) as u8);
        proof {
            assert(self.buffer@ =~= old(self).buffer@ + spec_u64_be(v));
        }
    }

    /// Appends a run of bytes.
    pub fn write_bytes(&mut self, bytes: &[u8])
        ensures
            final(self).buffer@ == old(self).buffer@ + bytes@,
            final(self).reader_index == old(self).reader_index,
    {
        self.buffer.extend_from_slice(bytes);
    }

    /// Appends the whole byte content of `other`, consuming it.
    pub fn append(&mut self, other: Buf)
        ensures
            final(self).buffer@ == old(self).buffer@ + other.buffer@,
            final(self).reader_index == old(self).reader_index,
    {
        let mut source = other;
        self.buffer.append(&mut source.buffer);
    }

    /// The number of bytes the minimal encoding of `v` takes, without writing.
    pub fn get_var_u32_size(v: u32) -> (r: u32)
        ensures
            r == varint_len(v as nat),
            1 <= r <= 5,
    {
        if v < 0x80 {
            1
        } else if v < 0x4000 {
            2
        } else if v < 0x20_0000 {
            3
        } else if v < 0x1000_0000 {
            4
        } else {
            5
        }
    }

    /// Appends the canonical minimal-length encoding of `v`.
    pub fn write_var_u32(&mut self, v: u32)
        ensures
            final(self).buffer@ == old(self).buffer@ + spec_varint(v as nat),
            final(self).reader_index == old(self).reader_index,
    {
        if v < 0x80 {
            self.buffer.push(v as u8);
        } else if v < 0x4000 {
            self.buffer.push((v % 0x80 + 0x80) as u8);
            self.buffer.push((v / 0x80) as u8);
        } else if v < 0x20_0000 {
            self.buffer.push((v % 0x80 + 0x80) as u8);
            self.buffer.push((v / 0x80 % 0x80 + 0x80) as u8);
            self.buffer.push((v / 0x4000) as u8);
        } else if v < 0x1000_0000 {
            self.buffer.push((v % 0x80 + 0x80) as u8);
            self.buffer.push((v / 0x80 % 0x80 + 0x80) as u8);
            self.buffer.push((v / 0x4000 % 0x80 + 0x80) as u8);
            self.buffer.push((v / 0x20_0000) as u8);
        } else {
            self.buffer.push((v % 0x80 + 0x80) as u8);
            self.buffer.push((v / 0x80 % 0x80 + 0x80) as u8);
            self.buffer.push((v / 0x4000 % 0x80 + 0x80) as u8);
            self.buffer.push((v / 0x20_0000 % 0x80 + 0x80) as u8);
            self.buffer.push((v / 0x1000_0000) as u8);
        }
        proof {
            assert(self.buffer@ =~= old(self).buffer@ + spec_varint(v as nat));
        }
    }

    /// Decodes the variable-length integer at the read cursor without moving
    /// it, reporting the value and how many bytes it occupies.
    pub fn try_parse_var_u32(&self) -> (r: Result<(u32, usize), ProtoError>)
        requires
            self.wf(),
        ensures
            match r {
                Ok((v, k)) => varint_parse(self.remaining_bytes()) == Some((v as nat, k as nat))
                    && 1 <= k <= 5,
                Err(ProtoError::BufferUnderflow) => varint_incomplete(self.remaining_bytes()),
                Err(ProtoError::VarIntTooLong) => varint_malformed(self.remaining_bytes())
                    || (varint_parse(self.remaining_bytes()) matches Some((n, _)) && n > u32::MAX),
                Err(_) => false,
            },
    {
        let ghost rem = self.remaining_bytes();
        let start = self.reader_index;
        let len = self.buffer.len();
        if start >= len {
            return Err(ProtoError::BufferUnderflow);
        }
        let b0 = *self.buffer.get(start).unwrap();
        if b0 < 0x80 {
            return Ok((b0 as u32, 1));
        }
        if start + 1 >= len {
            return Err(ProtoError::BufferUnderflow);
        }
        let b1 = *self.buffer.get(start + 1).unwrap();
        if b1 < 0x80 {
            return Ok(((b0 - 0x80) as u32 + 0x80 * b1 as u32, 2));
        }
        if start + 2 >= len {
            return Err(ProtoError::BufferUnderflow);
        }
        let b2 = *self.buffer.get(start + 2).unwrap();
        if b2 < 0x80 {
            return Ok((
                (b0 - 0x80) as u32 + 0x80 * (b1 - 0x80) as u32 + 0x4000 * b2 as u32,
                3,
            ));
        }
        if start + 3 >= len {
            return Err(ProtoError::BufferUnderflow);
        }
        let b3 = *self.buffer.get(start + 3).unwrap();
        if b3 < 0x80 {
            return Ok((
                (b0 - 0x80) as u32 + 0x80 * (b1 - 0x80) as u32 + 0x4000 * (b2 - 0x80) as u32
                    + 0x20_0000 * b3 as u32,
                4,
            ));
        }
        if start + 4 >= len {
            return Err(ProtoError::BufferUnderflow);
        }
        let b4 = *self.buffer.get(start + 4).unwrap();
        if b4 >= 0x80 {
            return Err(ProtoError::VarIntTooLong);
        }
        if b4 >= 0x10 {
            // the fifth group would carry the value past 32 bits
            return Err(ProtoError::VarIntTooLong);
        }
        Ok((
            (b0 - 0x80) as u32 + 0x80 * (b1 - 0x80) as u32 + 0x4000 * (b2 - 0x80) as u32
                + 0x20_0000 * (b3 - 0x80) as u32 + 0x1000_0000 * b4 as u32,
            5,
        ))
    }

    /// Decodes the variable-length integer at the read cursor and consumes it.
    /// On an error nothing is consumed.
    pub fn read_var_u32(&mut self) -> (r: Result<u32, ProtoError>)
        requires
            old(self).wf(),
        ensures
            final(self).wf(),
            final(self).buffer@ == old(self).buffer@,
            match r {
                Ok(v) => varint_parse(old(self).remaining_bytes()) matches Some((n, k))
                    && n == v as nat
                    && final(self).reader_index == old(self).reader_index + k,
                Err(e) => final(self).reader_index == old(self).reader_index && (match e {
                    ProtoError::BufferUnderflow => varint_incomplete(old(self).remaining_bytes()),
                    ProtoError::VarIntTooLong => varint_malformed(old(self).remaining_bytes())
                        || (varint_parse(old(self).remaining_bytes()) matches Some((n, _))
                            && n > u32::MAX),
                    _ => false,
                }),
            },
    {
        match self.try_parse_var_u32() {
            Ok((v, k)) => {
                let total = self.buffer.len();
                proof {
                    lemma_varint_parse_consumes_at_most(self.remaining_bytes());
                    assert(self.remaining_bytes().len() == total - self.reader_index);
                    assert(k <= self.remaining_bytes().len());
                }
                self.reader_index = self.reader_index + k;
                Ok(v)
            },
            Err(e) => Err(e),
        }
    }

    /// Copies the bytes in `[start, end)` out into a fresh vector.
    pub fn copy_range(&self, start: usize, end: usize) -> (r: Vec<u8>)
        requires
            start <= end <= self.buffer@.len(),
        ensures
            r@ == self.buffer@.subrange(start as int, end as int),
    {
        let mut out: Vec<u8> = Vec::with_capacity(end - start);
        let mut i = start;
        while i < end
            invariant
                start <= i <= end <= self.buffer@.len(),
                out@ == self.buffer@.subrange(start as int, i as int),
            decreases end - i,
        {
            out.push(*self.buffer.get(i).unwrap());
            i = i + 1;
            proof {
                assert(out@ =~= self.buffer@.subrange(start as int, i as int));
            }
        }
        out
    }

    /// Drops the consumed prefix, keeping only the bytes still to be read and
    /// resetting the read cursor to the front.
    pub fn discard_read(&mut self)
        requires
            old(self).wf(),
        ensures
            final(self).wf(),
            final(self).buffer@ == old(self).remaining_bytes(),
            final(self).reader_index == 0,
    {
        let kept = self.copy_range(self.reader_index, self.buffer.len());
        self.buffer = kept;
        self.reader_index = 0;
        proof {
            assert(self.buffer@ =~= old(self).remaining_bytes());
        }
    }
}

/// A 16-bit value as two bytes, most significant first.
pub open spec fn spec_u16_be(v: u16) -> Seq<u8> {
    seq![(v / 0x100) as u8, (v % 0x100) as u8]
}

/// A 64-bit value as eight bytes, most significant first.
pub open spec fn spec_u64_be(v: u64) -> Seq<u8> {
    seq![
        (v / 0x100_0000_0000_0000) as u8,
        (v / 0x1_0000_0000_0000 % 0x100) as u8,
        (v / 0x100_0000_0000 % 0x100) as u8,
        (v / 0x1_0000_0000 % 0x100) as u8,
        (v / 0x100_0000 % 0x100) as u8,
        (v / 0x1_0000 % 0x100) as u8,
        (v / 0x100 % 0x100) as u8,
        (v % 0x100) as u8,
    ]
}

/// A successful decode consumes no more bytes than are there.
pub proof fn lemma_varint_parse_consumes_at_most(s: Seq<u8>)
    ensures
        varint_parse(s) matches Some((_, k)) ==> k <= s.len(),
{
}

} // verus!
