use vstd::prelude::*;

use crate::error::DecodeError;

verus! {

/// The little-endian `u16` stored at byte `i` of `s`.
pub open spec fn le_u16(s: Seq<u8>, i: int) -> u16 {
    (s[i] as int + 256 * (s[i + 1] as int)) as u16
}

/// The little-endian `u32` stored at byte `i` of `s`.
pub open spec fn le_u32(s: Seq<u8>, i: int) -> u32 {
    (s[i] as int + 256 * (s[i + 1] as int) + 65536 * (s[i + 2] as int) + 16777216 * (
    s[i + 3] as int)) as u32
}

/// The little-endian `u64` stored at byte `i` of `s`.
pub open spec fn le_u64(s: Seq<u8>, i: int) -> u64 {
    (le_u32(s, i) as int + 4294967296 * (le_u32(s, i + 4) as int)) as u64
}

/// Whether `n` bytes can be read at offset `pos` of `s`.
pub open spec fn fits(s: Seq<u8>, pos: u64, n: int) -> bool {
    pos + n <= s.len()
}

/// A seekable little-endian reader over an in-memory byte buffer.
///
/// As with a file, the position may stand past the end of the data; only a
/// read needs the bytes to be there.
pub struct Cursor {
    data: Vec<u8>,
    pos: u64,
}

impl Cursor {
    /// The bytes read from.
    pub closed spec fn bytes(&self) -> Seq<u8> {
        self.data@
    }

    /// The current offset.
    pub closed spec fn pos(&self) -> u64 {
        self.pos
    }

    /// The data of a cursor fits in memory, so its length is a `u64`.
    pub proof fn lemma_len_fits(&self)
        ensures
            self.bytes().len() <= u64::MAX,
    {
        assert(self.data.len() == self.data@.len());
    }

    pub fn new(data: Vec<u8>) -> (r: Cursor)
        ensures
            r.bytes() == data@,
            r.pos() == 0,
    {
        Cursor { data, pos: 0 }
    }

    pub fn position(&self) -> (r: u64)
        ensures
            r == self.pos(),
    {
        self.pos
    }

    pub fn len(&self) -> (r: usize)
        ensures
            r == self.bytes().len(),
    {
        self.data.len()
    }

    /// Whether `n` bytes can be read at the current offset.
    pub fn has(&self, n: u64) -> (r: bool)
        ensures
            r == fits(self.bytes(), self.pos(), n as int),
    {
        let len = self.data.len() as u64;
        self.pos <= len && n <= len - self.pos
    }

    /// Moves to an absolute offset; like a file, any offset is accepted.
    pub fn seek_to(&mut self, pos: u64)
        ensures
            final(self).bytes() == old(self).bytes(),
            final(self).pos() == pos,
    {
        self.pos = pos;
    }

    /// Moves by `delta` bytes from the current offset.
    pub fn seek_by(&mut self, delta: i64) -> (r: Result<(), DecodeError>)
        ensures
            final(self).bytes() == old(self).bytes(),
            r is Ok <==> 0 <= old(self).pos() + delta <= u64::MAX,
            r is Ok ==> final(self).pos() == old(self).pos() + delta,
            r is Err ==> final(self).pos() == old(self).pos() && r == Err::<(), DecodeError>(
                DecodeError::SeekOutOfRange { offset: old(self).pos() },
            ),
    {
        if delta >= 0 {
            let d = delta as u64;
            if self.pos <= u64::MAX - d {
                self.pos = self.pos + d;
                return Ok(());
            }
        } else {
            let back: u64 = if delta == i64::MIN {
                9223372036854775808u64
            } else {
                (-delta) as u64
            };
            if back <= self.pos {
                self.pos = self.pos - back;
                return Ok(());
            }
        }
        Err(DecodeError::SeekOutOfRange { offset: self.pos })
    }

    /// Reads `n` bytes into a new vector.
    pub fn read_bytes(&mut self, n: usize) -> (r: Result<Vec<u8>, DecodeError>)
        ensures
            final(self).bytes() == old(self).bytes(),
            r is Ok <==> fits(old(self).bytes(), old(self).pos(), n as int),
            r is Ok ==> final(self).pos() == old(self).pos() + n && r->Ok_0@ == old(
                self,
            ).bytes().subrange(old(self).pos() as int, old(self).pos() + n),
            r is Err ==> final(self).pos() == old(self).pos() && r == Err::<Vec<u8>, DecodeError>(
                DecodeError::UnexpectedEnd { offset: old(self).pos() },
            ),
    {
        let len = self.data.len();
        if self.pos > len as u64 || (n as u64) > (len as u64) - self.pos {
            return Err(DecodeError::UnexpectedEnd { offset: self.pos });
        }
        let start = self.pos as usize;
        let mut out: Vec<u8> = Vec::with_capacity(n);
        let mut i: usize = 0;
        while i < n
            invariant
                self.data@.len() == len,
                start + n <= len,
                i <= n,
                out@ == self.data@.subrange(start as int, start + i),
            decreases n - i,
        {
            out.push(self.data[start + i]);
            i = i + 1;
            assert(out@ =~= self.data@.subrange(start as int, start + i));
        }
        self.pos = self.pos + n as u64;
        Ok(out)
    }

    /// Passes over `n` bytes as reading them would: no bytes need be there
    /// when `n` is zero.
    pub fn skip(&mut self, n: u64) -> (r: Result<(), DecodeError>)
        ensures
            final(self).bytes() == old(self).bytes(),
            r is Ok <==> n == 0 || fits(old(self).bytes(), old(self).pos(), n as int),
            r is Ok ==> final(self).pos() == old(self).pos() + n,
            r is Err ==> final(self).pos() == old(self).pos() && r == Err::<(), DecodeError>(
                DecodeError::UnexpectedEnd { offset: old(self).pos() },
            ),
    {
        if n == 0 {
            return Ok(());
        }
        let len = self.data.len() as u64;
        if self.pos > len || n > len - self.pos {
            return Err(DecodeError::UnexpectedEnd { offset: self.pos });
        }
        self.pos = self.pos + n;
        Ok(())
    }

    pub fn read_u8(&mut self) -> (r: Result<u8, DecodeError>)
        ensures
            final(self).bytes() == old(self).bytes(),
            r is Ok <==> fits(old(self).bytes(), old(self).pos(), 1),
            r is Ok ==> final(self).pos() == old(self).pos() + 1 && r->Ok_0 == old(
                self,
            ).bytes()[old(self).pos() as int],
            r is Err ==> final(self).pos() == old(self).pos() && r == Err::<u8, DecodeError>(
                DecodeError::UnexpectedEnd { offset: old(self).pos() },
            ),
    {
        if self.pos >= self.data.len() as u64 {
            return Err(DecodeError::UnexpectedEnd { offset: self.pos });
        }
        let b = self.data[self.pos as usize];
        self.pos = self.pos + 1;
        Ok(b)
    }

    pub fn read_i8(&mut self) -> (r: Result<i8, DecodeError>)
        ensures
            final(self).bytes() == old(self).bytes(),
            r is Ok <==> fits(old(self).bytes(), old(self).pos(), 1),
            r is Ok ==> final(self).pos() == old(self).pos() + 1 && r->Ok_0 == old(
                self,
            ).bytes()[old(self).pos() as int] as i8,
            r is Err ==> final(self).pos() == old(self).pos() && r == Err::<i8, DecodeError>(
                DecodeError::UnexpectedEnd { offset: old(self).pos() },
            ),
    {
        let b = self.read_u8()?;
        Ok(b as i8)
    }

    pub fn read_u16(&mut self) -> (r: Result<u16, DecodeError>)
        ensures
            final(self).bytes() == old(self).bytes(),
            r is Ok <==> fits(old(self).bytes(), old(self).pos(), 2),
            r is Ok ==> final(self).pos() == old(self).pos() + 2 && r->Ok_0 == le_u16(
                old(self).bytes(),
                old(self).pos() as int,
            ),
            r is Err ==> final(self).pos() == old(self).pos() && r == Err::<u16, DecodeError>(
                DecodeError::UnexpectedEnd { offset: old(self).pos() },
            ),
    {
        let len = self.data.len();
        if self.pos > len as u64 || 2 > (len as u64) - self.pos {
            return Err(DecodeError::UnexpectedEnd { offset: self.pos });
        }
        let p = self.pos as usize;
        let v: u16 = self.data[p] as u16 + 256 * (self.data[p + 1] as u16);
        self.pos = self.pos + 2;
        Ok(v)
    }

    pub fn read_i16(&mut self) -> (r: Result<i16, DecodeError>)
        ensures
            final(self).bytes() == old(self).bytes(),
            r is Ok <==> fits(old(self).bytes(), old(self).pos(), 2),
            r is Ok ==> final(self).pos() == old(self).pos() + 2 && r->Ok_0 == le_u16(
                old(self).bytes(),
                old(self).pos() as int,
            ) as i16,
            r is Err ==> final(self).pos() == old(self).pos() && r == Err::<i16, DecodeError>(
                DecodeError::UnexpectedEnd { offset: old(self).pos() },
            ),
    {
        let v = self.read_u16()?;
        Ok(v as i16)
    }

    pub fn read_u32(&mut self) -> (r: Result<u32, DecodeError>)
        ensures
            final(self).bytes() == old(self).bytes(),
            r is Ok <==> fits(old(self).bytes(), old(self).pos(), 4),
            r is Ok ==> final(self).pos() == old(self).pos() + 4 && r->Ok_0 == le_u32(
                old(self).bytes(),
                old(self).pos() as int,
            ),
            r is Err ==> final(self).pos() == old(self).pos() && r == Err::<u32, DecodeError>(
                DecodeError::UnexpectedEnd { offset: old(self).pos() },
            ),
    {
        let len = self.data.len();
        if self.pos > len as u64 || 4 > (len as u64) - self.pos {
            return Err(DecodeError::UnexpectedEnd { offset: self.pos });
        }
        let p = self.pos as usize;
        let v: u32 = self.data[p] as u32 + 256 * (self.data[p + 1] as u32) + 65536 * (self.data[p
            + 2] as u32) + 16777216 * (self.data[p + 3] as u32);
        self.pos = self.pos + 4;
        Ok(v)
    }

    pub fn read_u64(&mut self) -> (r: Result<u64, DecodeError>)
        ensures
            final(self).bytes() == old(self).bytes(),
            r is Ok <==> fits(old(self).bytes(), old(self).pos(), 8),
            r is Ok ==> final(self).pos() == old(self).pos() + 8 && r->Ok_0 == le_u64(
                old(self).bytes(),
                old(self).pos() as int,
            ),
            r is Err ==> final(self).pos() == old(self).pos() && r == Err::<u64, DecodeError>(
                DecodeError::UnexpectedEnd { offset: old(self).pos() },
            ),
    {
        let len = self.data.len();
        if self.pos > len as u64 || 8 > (len as u64) - self.pos {
            return Err(DecodeError::UnexpectedEnd { offset: self.pos });
        }
        let lo = self.read_u32()?;
        let hi = self.read_u32()?;
        Ok(lo as u64 + 4294967296 * (hi as u64))
    }
}

} // verus!
