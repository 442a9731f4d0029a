//! A bounds-checked byte cursor over an in-memory image, with little-endian
//! integer readers. Every other component reads its bytes through this one.

use vstd::prelude::*;

verus! {

/// The error kinds an extraction can end with. Every failure is terminal for
/// the request; nothing is retried and no partial output is produced.
#[derive(Clone, Copy, Debug, PartialEq, Eq, Structural)]
pub enum PeError {
    /// A read ran past the end of the available bytes.
    Truncated,
    /// A magic number or signature did not match, or the resource section is
    /// missing, or the image declares something no valid image can.
    MalformedImage,
    /// The requested resource type, index or identifier does not exist.
    ResourceNotFound,
    /// A relative virtual address falls inside no section.
    UnmappedAddress,
}

/// Two bytes of `s` at `i`, read as a little-endian integer.
pub open spec fn le16(s: Seq<u8>, i: int) -> u16 {
    (s[i] + 0x100 * s[i + 1]) as u16
}

/// Four bytes of `s` at `i`, read as a little-endian integer.
pub open spec fn le32(s: Seq<u8>, i: int) -> u32 {
    (s[i] + 0x100 * s[i + 1] + 0x1_0000 * s[i + 2] + 0x100_0000 * s[i + 3]) as u32
}

/// Eight bytes of `s` at `i`, read as a little-endian integer.
pub open spec fn le64(s: Seq<u8>, i: int) -> u64 {
    (s[i] + 0x100 * s[i + 1] + 0x1_0000 * s[i + 2] + 0x100_0000 * s[i + 3] + 0x1_0000_0000 * s[i
        + 4] + 0x100_0000_0000 * s[i + 5] + 0x1_0000_0000_0000 * s[i + 6] + 0x100_0000_0000_0000
        * s[i + 7]) as u64
}

/// A seekable, bounds-checked position into a borrowed byte buffer.
pub struct Cursor<'a> {
    pub data: &'a Vec<u8>,
    pub pos: usize,
}

impl<'a> Cursor<'a> {
    /// A cursor at the start of `data`.
    pub fn new(data: &'a Vec<u8>) -> (c: Cursor<'a>)
        ensures
            c.data == data,
            c.pos == 0,
    {
        Cursor { data, pos: 0 }
    }

    /// The current absolute offset.
    pub fn position(&self) -> (p: usize)
        ensures
            p == self.pos,
    {
        self.pos
    }

    /// Repositions the cursor without reading. Seeking past the end is
    /// allowed; the next read then fails.
    pub fn seek(&mut self, pos: usize)
        ensures
            final(self).data == old(self).data,
            final(self).pos == pos,
    {
        self.pos = pos;
    }

    /// Whether `n` more bytes are available at the current position.
    pub fn has(&self, n: usize) -> (r: bool)
        ensures
            r == (self.pos + n <= self.data@.len()),
            self.data@.len() <= usize::MAX,
    {
        self.pos <= self.data.len() && self.data.len() - self.pos >= n
    }

    pub fn read_u8(&mut self) -> (r: Result<u8, PeError>)
        ensures
            final(self).data == old(self).data,
            old(self).pos + 1 <= old(self).data@.len() ==> r == Ok::<u8, PeError>(
                old(self).data@[old(self).pos as int],
            ) && final(self).pos == old(self).pos + 1,
            old(self).pos + 1 > old(self).data@.len() ==> r == Err::<u8, PeError>(
                PeError::Truncated,
            ) && final(self).pos == old(self).pos,
    {
        if self.has(1) {
            let b = self.data[self.pos];
            self.pos = self.pos + 1;
            Ok(b)
        } else {
            Err(PeError::Truncated)
        }
    }

    pub fn read_u16(&mut self) -> (r: Result<u16, PeError>)
        ensures
            final(self).data == old(self).data,
            old(self).pos + 2 <= old(self).data@.len() ==> r == Ok::<u16, PeError>(
                le16(old(self).data@, old(self).pos as int),
            ) && final(self).pos == old(self).pos + 2,
            old(self).pos + 2 > old(self).data@.len() ==> r == Err::<u16, PeError>(
                PeError::Truncated,
            ) && final(self).pos == old(self).pos,
    {
        if self.has(2) {
            let b0 = self.data[self.pos];
            let b1 = self.data[self.pos + 1];
            self.pos = self.pos + 2;
            Ok(b0 as u16 + 0x100 * (b1 as u16))
        } else {
            Err(PeError::Truncated)
        }
    }

    pub fn read_u32(&mut self) -> (r: Result<u32, PeError>)
        ensures
            final(self).data == old(self).data,
            old(self).pos + 4 <= old(self).data@.len() ==> r == Ok::<u32, PeError>(
                le32(old(self).data@, old(self).pos as int),
            ) && final(self).pos == old(self).pos + 4,
            old(self).pos + 4 > old(self).data@.len() ==> r == Err::<u32, PeError>(
                PeError::Truncated,
            ) && final(self).pos == old(self).pos,
    {
        if self.has(4) {
            let b0 = self.data[self.pos];
            let b1 = self.data[self.pos + 1];
            let b2 = self.data[self.pos + 2];
            let b3 = self.data[self.pos + 3];
            self.pos = self.pos + 4;
            Ok(b0 as u32 + 0x100 * (b1 as u32) + 0x1_0000 * (b2 as u32) + 0x100_0000 * (
            b3 as u32))
        } else {
            Err(PeError::Truncated)
        }
    }

    pub fn read_u64(&mut self) -> (r: Result<u64, PeError>)
        ensures
            final(self).data == old(self).data,
            old(self).pos + 8 <= old(self).data@.len() ==> r == Ok::<u64, PeError>(
                le64(old(self).data@, old(self).pos as int),
            ) && final(self).pos == old(self).pos + 8,
            old(self).pos + 8 > old(self).data@.len() ==> r == Err::<u64, PeError>(
                PeError::Truncated,
            ) && final(self).pos == old(self).pos,
    {
        if self.has(8) {
            let b0 = self.data[self.pos];
            let b1 = self.data[self.pos + 1];
            let b2 = self.data[self.pos + 2];
            let b3 = self.data[self.pos + 3];
            let b4 = self.data[self.pos + 4];
            let b5 = self.data[self.pos + 5];
            let b6 = self.data[self.pos + 6];
            let b7 = self.data[self.pos + 7];
            self.pos = self.pos + 8;
            Ok(b0 as u64 + 0x100 * (b1 as u64) + 0x1_0000 * (b2 as u64) + 0x100_0000 * (b3 as u64)
                + 0x1_0000_0000 * (b4 as u64) + 0x100_0000_0000 * (b5 as u64) + 0x1_0000_0000_0000
                * (b6 as u64) + 0x100_0000_0000_0000 * (b7 as u64))
        } else {
            Err(PeError::Truncated)
        }
    }

    /// Reads exactly `n` bytes, or fails with `Truncated` and moves nothing.
    pub fn read_vec(&mut self, n: usize) -> (r: Result<Vec<u8>, PeError>)
        ensures
            final(self).data == old(self).data,
            old(self).pos + n <= old(self).data@.len() ==> (r matches Ok(v) && v@ == old(
                self,
            ).data@.subrange(old(self).pos as int, old(self).pos + n) && final(self).pos == old(
                self,
            ).pos + n),
            old(self).pos + n > old(self).data@.len() ==> r == Err::<Vec<u8>, PeError>(
                PeError::Truncated,
            ) && final(self).pos == old(self).pos,
    {
        if self.has(n) {
            let mut out: Vec<u8> = Vec::new();
            let mut i: usize = 0;
            while i < n
                invariant
                    i <= n,
                    self.pos + n <= self.data@.len(),
                    self.data@.len() <= usize::MAX,
                    out@ == self.data@.subrange(self.pos as int, self.pos + i),
                decreases n - i,
            {
                out.push(self.data[self.pos + i]);
                i = i + 1;
                proof {
                    assert(out@ =~= self.data@.subrange(self.pos as int, self.pos + i));
                }
            }
            self.pos = self.pos + n;
            Ok(out)
        } else {
            Err(PeError::Truncated)
        }
    }
}

} // verus!
