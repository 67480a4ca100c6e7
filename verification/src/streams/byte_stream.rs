//! An owned, positioned stream of bytes held in memory.
//!
//! The stream is the one boundary of the crate: everything is read from it or
//! written to it. Its model is a pair of a byte sequence and a cursor, and the
//! cursor may stand beyond the last byte.

use super::any_int::zeroed;
use super::{IoErrorKind, StreamError};
use vstd::prelude::*;
use vstd::slice::{slice_subrange, slice_to_vec};

verus! {

/// A growable run of bytes with a cursor.
#[derive(Debug, Clone, PartialEq, Eq)]
pub struct ByteStream {
    data: Vec<u8>,
    pos: u64,
}

/// `n` zero bytes.
pub open spec fn zeros(n: nat) -> Seq<u8> {
    Seq::new(n, |i: int| 0u8)
}

/// The contents of a stream that held `data` after `buf` was written at
/// offset `pos`: a gap between the old end and `pos` is filled with zeros,
/// bytes under `buf` are replaced, and the stream grows as far as `buf`
/// reaches.
pub open spec fn written(data: Seq<u8>, pos: nat, buf: Seq<u8>) -> Seq<u8> {
    let padded = if pos > data.len() {
        data + zeros((pos - data.len()) as nat)
    } else {
        data
    };
    let tail = if pos + buf.len() >= padded.len() {
        Seq::<u8>::empty()
    } else {
        padded.skip((pos + buf.len()) as int)
    };
    padded.take(pos as int) + buf + tail
}

/// What is written can be read back from where it was written.
pub proof fn lemma_written_readback(data: Seq<u8>, pos: nat, buf: Seq<u8>)
    ensures
        written(data, pos, buf).len() >= pos + buf.len(),
        written(data, pos, buf).subrange(pos as int, (pos + buf.len()) as int) == buf,
{
}

impl ByteStream {
    /// The bytes that the stream holds.
    pub closed spec fn bytes(&self) -> Seq<u8> {
        self.data@
    }

    /// The offset of the cursor from the first byte.
    pub closed spec fn pos(&self) -> nat {
        self.pos as nat
    }

    /// Whether at least `n` bytes are left from the cursor on.
    pub open spec fn has(&self, n: nat) -> bool {
        self.pos() + n <= self.bytes().len()
    }

    /// The `n` bytes from the cursor on.
    pub open spec fn next(&self, n: nat) -> Seq<u8> {
        self.bytes().subrange(self.pos() as int, (self.pos() + n) as int)
    }

    /// Whether `after` is this stream with the cursor moved on by `n` bytes.
    pub open spec fn advanced(&self, after: &ByteStream, n: nat) -> bool {
        after.bytes() == self.bytes() && after.pos() == self.pos() + n
    }

    /// A stream over `data` with the cursor at its first byte.
    pub fn new(data: Vec<u8>) -> (s: Self)
        ensures
            s.bytes() == data@,
            s.pos() == 0,
    {
        ByteStream { data, pos: 0 }
    }

    /// The bytes of the stream.
    pub fn into_inner(self) -> (data: Vec<u8>)
        ensures
            data@ == self.bytes(),
    {
        self.data
    }

    /// The bytes of the stream.
    pub fn get_ref(&self) -> (data: &Vec<u8>)
        ensures
            data@ == self.bytes(),
    {
        &self.data
    }

    /// The number of bytes that the stream holds.
    pub fn len(&self) -> (n: usize)
        ensures
            n == self.bytes().len(),
    {
        self.data.len()
    }

    /// The offset of the cursor.
    pub fn position(&self) -> (p: u64)
        ensures
            p == self.pos(),
    {
        self.pos
    }

    /// Moves the cursor to `pos`, which may lie beyond the last byte.
    pub fn seek(&mut self, pos: u64)
        ensures
            final(self).bytes() == old(self).bytes(),
            final(self).pos() == pos,
    {
        self.pos = pos;
    }

    /// Reads the byte under the cursor and steps over it; `None` at the end
    /// of the stream, where the cursor stays.
    pub fn read_byte(&mut self) -> (r: Option<u8>)
        ensures
            final(self).bytes() == old(self).bytes(),
            old(self).pos() < old(self).bytes().len() ==> r == Some(
                old(self).bytes()[old(self).pos() as int],
            ) && final(self).pos() == old(self).pos() + 1,
            old(self).pos() >= old(self).bytes().len() ==> r.is_none() && final(self).pos() == old(
                self,
            ).pos(),
    {
        if self.pos >= self.data.len() as u64 {
            return None;
        }
        let b = self.data[self.pos as usize];
        self.pos = self.pos + 1;
        Some(b)
    }

    /// Reads the next `n` bytes and steps over them. With fewer than `n`
    /// bytes left the read fails and the cursor stays.
    pub fn read_exact(&mut self, n: usize) -> (r: Result<Vec<u8>, StreamError>)
        ensures
            final(self).bytes() == old(self).bytes(),
            old(self).pos() + n <= old(self).bytes().len() ==> r.is_ok() && r.unwrap()@ == old(
                self,
            ).bytes().subrange(old(self).pos() as int, old(self).pos() + n) && final(self).pos()
                == old(self).pos() + n,
            old(self).pos() + n > old(self).bytes().len() ==> r == Err::<Vec<u8>, StreamError>(
                StreamError::IOError(IoErrorKind::UnexpectedEndOfStream),
            ) && final(self).pos() == old(self).pos(),
    {
        let len = self.data.len();
        if self.pos > len as u64 || n > len - self.pos as usize {
            return Err(StreamError::IOError(IoErrorKind::UnexpectedEndOfStream));
        }
        let start = self.pos as usize;
        let out = slice_to_vec(slice_subrange(self.data.as_slice(), start, start + n));
        self.pos = (start + n) as u64;
        Ok(out)
    }

    /// Steps over the next `n` bytes. With fewer than `n` bytes left the
    /// skip fails and the cursor stops at the end of the stream, or stays
    /// where it was if it stood beyond the end already.
    pub fn skip(&mut self, n: usize) -> (r: Result<(), StreamError>)
        ensures
            final(self).bytes() == old(self).bytes(),
            old(self).pos() + n <= old(self).bytes().len() ==> r.is_ok() && final(self).pos()
                == old(self).pos() + n,
            old(self).pos() + n > old(self).bytes().len() ==> r == Err::<(), StreamError>(
                StreamError::IOError(IoErrorKind::UnexpectedEndOfStream),
            ) && final(self).pos() == skip_stop(old(self).bytes().len(), old(self).pos()),
    {
        let len = self.data.len();
        if self.pos > len as u64 {
            return Err(StreamError::IOError(IoErrorKind::UnexpectedEndOfStream));
        }
        if n > len - self.pos as usize {
            self.pos = len as u64;
            return Err(StreamError::IOError(IoErrorKind::UnexpectedEndOfStream));
        }
        self.pos = (self.pos as usize + n) as u64;
        Ok(())
    }

    /// Writes `buf` at the cursor and steps over it: bytes under `buf` are
    /// replaced, and the stream grows where `buf` reaches beyond its end. A
    /// write that would end beyond the largest offset of the machine fails
    /// and changes nothing.
    pub fn write_all(&mut self, buf: &[u8]) -> (r: Result<(), StreamError>)
        ensures
            old(self).pos() + buf@.len() <= usize::MAX ==> r.is_ok() && final(self).bytes()
                == written(old(self).bytes(), old(self).pos(), buf@) && final(self).pos() == old(
                self,
            ).pos() + buf@.len(),
            old(self).pos() + buf@.len() > usize::MAX ==> r == Err::<(), StreamError>(
                StreamError::IOError(IoErrorKind::PositionOutOfRange),
            ) && final(self).bytes() == old(self).bytes() && final(self).pos() == old(self).pos(),
    {
        let n = buf.len();
        if self.pos > usize::MAX as u64 || n > usize::MAX - self.pos as usize {
            return Err(StreamError::IOError(IoErrorKind::PositionOutOfRange));
        }
        let start = self.pos as usize;
        if start > self.data.len() {
            let mut gap = zeroed(start - self.data.len());
            self.data.append(&mut gap);
        }
        let ghost padded = self.data@;
        let mut i: usize = 0;
        while i < n
            invariant
                i <= n,
                n == buf@.len(),
                start <= padded.len(),
                start + n <= usize::MAX,
                self.pos == old(self).pos,
                self.data@ == written(padded, start as nat, buf@.take(i as int)),
            decreases n - i,
        {
            if start + i < self.data.len() {
                self.data[start + i] = buf[i];
            } else {
                self.data.push(buf[i]);
            }
            i += 1;
        }
        assert(written(padded, start as nat, buf@) =~= written(
            old(self).data@,
            start as nat,
            buf@,
        ));
        self.pos = (start + n) as u64;
        Ok(())
    }
}

/// Where a failed skip leaves a cursor that stood at `pos` in a stream of
/// `len` bytes.
pub open spec fn skip_stop(len: nat, pos: nat) -> nat {
    if pos < len {
        len
    } else {
        pos
    }
}

} // verus!
