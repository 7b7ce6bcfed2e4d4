//! Low-level payload (de)serialization: little-endian integers, the
//! modular 8-bit checksum, and bounded payload readers and writers.
use vstd::prelude::*;

verus! {

/// Errors of payload (de)serialization.
#[derive(Debug, Copy, Clone, PartialEq, Eq, Structural)]
pub enum DeserError {
    /// The payload ended before the expected fields; on a streaming read
    /// this means "try again later", not a hard failure.
    UnexpectedEndOfBuffer,
    /// An encoder wrote the inner size of a variable-sized variant twice.
    SizeWasAlreadyWritten,
    /// An encoder of a variable-sized variant never wrote the inner size.
    SizeWasNotWritten,
    /// An unknown variant tag or enum byte.
    InvalidVariant(u8),
}

/// The payload size of a message variant: fixed, or read from the
/// payload itself.
#[derive(Debug, Copy, Clone, PartialEq, Eq, Structural)]
pub enum DeserSize {
    Fixed(u32),
    Variable,
}

/// The four little-endian bytes of a 32-bit value.
pub open spec fn le32(x: u32) -> Seq<u8> {
    seq![
        (x & 0xff) as u8,
        ((x >> 8) & 0xff) as u8,
        ((x >> 16) & 0xff) as u8,
        ((x >> 24) & 0xff) as u8,
    ]
}

/// The 32-bit value of four little-endian bytes.
pub open spec fn combine32(b0: u8, b1: u8, b2: u8, b3: u8) -> u32 {
    (b0 as u32) | ((b1 as u32) << 8) | ((b2 as u32) << 16) | ((b3 as u32) << 24)
}

/// The two little-endian bytes of a 16-bit value.
pub open spec fn le16(x: u16) -> Seq<u8> {
    seq![(x & 0xff) as u8, ((x >> 8) & 0xff) as u8]
}

/// The 16-bit value of two little-endian bytes.
pub open spec fn combine16(b0: u8, b1: u8) -> u16 {
    (b0 as u16) | ((b1 as u16) << 8)
}

/// Reading back the four bytes of a value gives the value.
pub proof fn lemma_le32_roundtrip(x: u32)
    ensures
        combine32(
            (x & 0xff) as u8,
            ((x >> 8) & 0xff) as u8,
            ((x >> 16) & 0xff) as u8,
            ((x >> 24) & 0xff) as u8,
        ) == x,
{
    assert(((x & 0xff) as u8 as u32) | (((x >> 8) & 0xff) as u8 as u32) << 8 | (((x >> 16)
        & 0xff) as u8 as u32) << 16 | (((x >> 24) & 0xff) as u8 as u32) << 24 == x)
        by (bit_vector);
}

/// The modular 8-bit sum of a byte sequence.
pub open spec fn checksum_of(s: Seq<u8>) -> u8
    decreases s.len(),
{
    if s.len() == 0 {
        0u8
    } else {
        ((checksum_of(s.drop_last()) + s.last()) % 256) as u8
    }
}

/// The checksum of a byte slice.
pub fn checksum(data: &[u8]) -> (r: u8)
    ensures
        r == checksum_of(data@),
{
    let n = data.len();
    let mut acc: u8 = 0;
    let mut i: usize = 0;
    while i < n
        invariant
            n == data@.len(),
            i <= n,
            acc == checksum_of(data@.take(i as int)),
        decreases n - i,
    {
        let b = data[i];
        proof {
            assert(data@.take(i + 1).drop_last() =~= data@.take(i as int));
            assert(data@.take(i + 1).last() == data@[i as int]);
        }
        acc = ((acc as u16 + b as u16) % 256) as u8;
        i = i + 1;
    }
    proof {
        assert(data@.take(n as int) =~= data@);
    }
    acc
}

/// Append the four little-endian bytes of a value.
pub fn push_le32(out: &mut Vec<u8>, x: u32)
    ensures
        final(out)@ == old(out)@ + le32(x),
{
    out.push((x & 0xff) as u8);
    out.push(((x >> 8) & 0xff) as u8);
    out.push(((x >> 16) & 0xff) as u8);
    out.push(((x >> 24) & 0xff) as u8);
    proof {
        assert(out@ =~= old(out)@ + le32(x));
    }
}

/// A bounded reader over a payload byte slice.
pub struct DeserPayloadReader<'a> {
    data: &'a [u8],
    pos: usize,
}

impl<'a> DeserPayloadReader<'a> {
    /// The whole payload this reader walks.
    pub closed spec fn all(&self) -> Seq<u8> {
        self.data@
    }

    /// How many bytes have been consumed.
    pub closed spec fn taken(&self) -> int {
        self.pos as int
    }

    /// The reader never runs past its payload.
    pub closed spec fn wf(&self) -> bool {
        self.pos <= self.data@.len()
    }

    /// A reader over the whole of `data`.
    pub fn new(data: &'a [u8]) -> (r: DeserPayloadReader<'a>)
        ensures
            r.all() == data@,
            r.taken() == 0,
            r.wf(),
    {
        DeserPayloadReader { data, pos: 0 }
    }

    /// How many bytes are left.
    pub fn len(&self) -> (r: usize)
        requires
            self.wf(),
        ensures
            r == self.all().len() - self.taken(),
    {
        self.data.len() - self.pos
    }

    /// Read one byte; fails when the payload is exhausted.
    pub fn parse_u8(&mut self) -> (r: Result<u8, DeserError>)
        requires
            old(self).wf(),
        ensures
            final(self).all() == old(self).all(),
            final(self).wf(),
            match r {
                Ok(b) => old(self).taken() < old(self).all().len() && b == old(self).all()[old(
                    self,
                ).taken()] && final(self).taken() == old(self).taken() + 1,
                Err(e) => e == DeserError::UnexpectedEndOfBuffer && old(self).taken() == old(
                    self,
                ).all().len() && final(self).taken() == old(self).taken(),
            },
    {
        if self.pos < self.data.len() {
            let b = self.data[self.pos];
            self.pos = self.pos + 1;
            Ok(b)
        } else {
            Err(DeserError::UnexpectedEndOfBuffer)
        }
    }

    /// Read a little-endian 16-bit value.
    pub fn parse_u16(&mut self) -> (r: Result<u16, DeserError>)
        requires
            old(self).wf(),
        ensures
            final(self).all() == old(self).all(),
            final(self).wf(),
            match r {
                Ok(x) => old(self).taken() + 2 <= old(self).all().len() && le16(x) == old(
                    self,
                ).all().subrange(old(self).taken(), old(self).taken() + 2) && final(self).taken()
                    == old(self).taken() + 2,
                Err(e) => e == DeserError::UnexpectedEndOfBuffer && old(self).all().len() < old(
                    self,
                ).taken() + 2,
            },
    {
        let b0 = self.parse_u8()?;
        let b1 = self.parse_u8()?;
        let x = (b0 as u16) | ((b1 as u16) << 8);
        proof {
            let s = old(self).all().subrange(old(self).taken(), old(self).taken() + 2);
            assert(x == combine16(b0, b1));
            lemma_le16_split(b0, b1);
            assert(le16(x) =~= seq![b0, b1]);
            assert(s =~= seq![b0, b1]);
        }
        Ok(x)
    }

    /// Read a little-endian 32-bit value.
    pub fn parse_u32(&mut self) -> (r: Result<u32, DeserError>)
        requires
            old(self).wf(),
        ensures
            final(self).all() == old(self).all(),
            final(self).wf(),
            match r {
                Ok(x) => old(self).taken() + 4 <= old(self).all().len() && le32(x) == old(
                    self,
                ).all().subrange(old(self).taken(), old(self).taken() + 4) && final(self).taken()
                    == old(self).taken() + 4,
                Err(e) => e == DeserError::UnexpectedEndOfBuffer && old(self).all().len() < old(
                    self,
                ).taken() + 4,
            },
    {
        let b0 = self.parse_u8()?;
        let b1 = self.parse_u8()?;
        let b2 = self.parse_u8()?;
        let b3 = self.parse_u8()?;
        let x = (b0 as u32) | ((b1 as u32) << 8) | ((b2 as u32) << 16) | ((b3 as u32) << 24);
        proof {
            let s = old(self).all().subrange(old(self).taken(), old(self).taken() + 4);
            assert(x == combine32(b0, b1, b2, b3));
            lemma_le32_split(b0, b1, b2, b3);
            assert(le32(x) =~= seq![b0, b1, b2, b3]);
            assert(s =~= seq![b0, b1, b2, b3]);
        }
        Ok(x)
    }
}

/// The bytes of a combined 32-bit value are the combined bytes.
pub proof fn lemma_le32_split(b0: u8, b1: u8, b2: u8, b3: u8)
    ensures
        le32(combine32(b0, b1, b2, b3)) == seq![b0, b1, b2, b3],
{
    let x = combine32(b0, b1, b2, b3);
    assert((((b0 as u32) | ((b1 as u32) << 8) | ((b2 as u32) << 16) | ((b3 as u32) << 24))
        & 0xff) as u8 == b0 && ((((b0 as u32) | ((b1 as u32) << 8) | ((b2 as u32) << 16) | ((
    b3 as u32) << 24)) >> 8) & 0xff) as u8 == b1 && ((((b0 as u32) | ((b1 as u32) << 8) | ((
    b2 as u32) << 16) | ((b3 as u32) << 24)) >> 16) & 0xff) as u8 == b2 && ((((b0 as u32) | ((
    b1 as u32) << 8) | ((b2 as u32) << 16) | ((b3 as u32) << 24)) >> 24) & 0xff) as u8 == b3)
        by (bit_vector);
    assert(le32(x) =~= seq![b0, b1, b2, b3]);
}

/// The bytes of a combined 16-bit value are the combined bytes.
pub proof fn lemma_le16_split(b0: u8, b1: u8)
    ensures
        le16(combine16(b0, b1)) == seq![b0, b1],
{
    let x = combine16(b0, b1);
    assert((((b0 as u16) | ((b1 as u16) << 8)) & 0xff) as u8 == b0 && ((((b0 as u16) | ((
    b1 as u16) << 8)) >> 8) & 0xff) as u8 == b1) by (bit_vector);
    assert(le16(x) =~= seq![b0, b1]);
}

/// A payload writer: an append-only buffer plus the flag that the inner
/// size of a variable-sized variant was written.
pub struct DeserPayloadWriter {
    buffer: Vec<u8>,
    size_written: bool,
}

impl DeserPayloadWriter {
    /// The bytes written so far.
    pub closed spec fn bytes(&self) -> Seq<u8> {
        self.buffer@
    }

    /// Whether the inner size was written.
    pub closed spec fn wrote_size(&self) -> bool {
        self.size_written
    }

    /// An empty writer.
    pub fn new() -> (r: DeserPayloadWriter)
        ensures
            r.bytes() == Seq::<u8>::empty(),
            !r.wrote_size(),
    {
        DeserPayloadWriter { buffer: Vec::new(), size_written: false }
    }

    /// Take the written bytes out of the writer.
    pub fn into_bytes(self) -> (r: Vec<u8>)
        ensures
            r@ == self.bytes(),
    {
        self.buffer
    }

    /// Write the inner size of a variable-sized variant, at most once.
    pub fn write_size(&mut self, value: u32) -> (r: Result<(), DeserError>)
        ensures
            match r {
                Ok(()) => !old(self).wrote_size() && final(self).bytes() == old(self).bytes()
                    + le32(value) && final(self).wrote_size(),
                Err(e) => e == DeserError::SizeWasAlreadyWritten && old(self).wrote_size()
                    && *final(self) == *old(self),
            },
    {
        if self.size_written {
            return Err(DeserError::SizeWasAlreadyWritten);
        }
        push_le32(&mut self.buffer, value);
        self.size_written = true;
        Ok(())
    }

    /// Append one byte.
    pub fn write_u8(&mut self, value: u8)
        ensures
            final(self).bytes() == old(self).bytes() + seq![value],
            final(self).wrote_size() == old(self).wrote_size(),
    {
        self.buffer.push(value);
        proof {
            assert(self.buffer@ =~= old(self).bytes() + seq![value]);
        }
    }

    /// Append a 16-bit value, little-endian.
    pub fn write_u16(&mut self, value: u16)
        ensures
            final(self).bytes() == old(self).bytes() + le16(value),
            final(self).wrote_size() == old(self).wrote_size(),
    {
        self.buffer.push((value & 0xff) as u8);
        self.buffer.push(((value >> 8) & 0xff) as u8);
        proof {
            assert(self.buffer@ =~= old(self).bytes() + le16(value));
        }
    }

    /// Append a 32-bit value, little-endian.
    pub fn write_u32(&mut self, value: u32)
        ensures
            final(self).bytes() == old(self).bytes() + le32(value),
            final(self).wrote_size() == old(self).wrote_size(),
    {
        push_le32(&mut self.buffer, value);
    }
}

} // verus!
