//! An in-memory seekable byte stream: the whole file is buffered, and a
//! cursor moves over it. Reads fail with `EndOfStream` when they run past
//! the end; forward seeks may point past the end without failing, exactly
//! like a file cursor.

use vstd::prelude::*;

use crate::error::LoftyError;

verus! {

/// A byte buffer with a cursor. The cursor may sit past the end of the
/// buffer; only an actual read notices.
pub struct ByteStream {
    pub data: Vec<u8>,
    pub pos: usize,
}

impl ByteStream {
    /// A stream over the given bytes, positioned at the start.
    pub fn new(data: Vec<u8>) -> (r: ByteStream)
        ensures
            r.data@ == data@,
            r.pos == 0,
    {
        ByteStream { data, pos: 0 }
    }

    /// Total number of bytes in the stream.
    pub fn len(&self) -> (r: usize)
        ensures
            r == self.data@.len(),
    {
        self.data.len()
    }

    /// The current cursor position.
    pub fn position(&self) -> (r: usize)
        ensures
            r == self.pos,
    {
        self.pos
    }

    /// Reads exactly `n` bytes, advancing the cursor. Fails with
    /// `EndOfStream`, leaving the cursor where it was, when fewer than `n`
    /// bytes remain.
    pub fn read_exact(&mut self, n: usize) -> (r: Result<Vec<u8>, LoftyError>)
        ensures
            final(self).data@ == old(self).data@,
            r is Ok <==> old(self).pos + n <= old(self).data@.len(),
            r matches Ok(v) ==> {
                &&& v@ == old(self).data@.subrange(old(self).pos as int, old(self).pos + n)
                &&& final(self).pos == old(self).pos + n
            },
            r is Err ==> r == Result::<Vec<u8>, LoftyError>::Err(LoftyError::EndOfStream)
                && final(self).pos == old(self).pos,
    {
        if self.pos > self.data.len() || n > self.data.len() - self.pos {
            return Err(LoftyError::EndOfStream);
        }
        let end = self.pos + n;
        let out = vstd::slice::slice_to_vec(&self.data.as_slice()[self.pos..end]);
        self.pos = end;
        Ok(out)
    }

    /// Moves the cursor forward by `n` bytes without reading. Fails only
    /// when the new position would not be representable.
    pub fn seek_forward(&mut self, n: usize) -> (r: Result<(), LoftyError>)
        ensures
            final(self).data@ == old(self).data@,
            r is Ok <==> old(self).pos + n <= usize::MAX,
            r is Ok ==> final(self).pos == old(self).pos + n,
            r is Err ==> r == Result::<(), LoftyError>::Err(LoftyError::EndOfStream)
                && final(self).pos == old(self).pos,
    {
        match self.pos.checked_add(n) {
            Some(p) => {
                self.pos = p;
                Ok(())
            },
            None => Err(LoftyError::EndOfStream),
        }
    }

    /// Moves the cursor backward by `n` bytes. Fails with `EndOfStream`
    /// when that would land before the start of the stream.
    pub fn seek_back(&mut self, n: usize) -> (r: Result<(), LoftyError>)
        ensures
            final(self).data@ == old(self).data@,
            r is Ok <==> n <= old(self).pos,
            r is Ok ==> final(self).pos == old(self).pos - n,
            r is Err ==> r == Result::<(), LoftyError>::Err(LoftyError::EndOfStream)
                && final(self).pos == old(self).pos,
    {
        if n > self.pos {
            return Err(LoftyError::EndOfStream);
        }
        self.pos = self.pos - n;
        Ok(())
    }

    /// Gives the buffer back, consuming the stream.
    pub fn into_inner(self) -> (r: Vec<u8>)
        ensures
            r@ == self.data@,
    {
        self.data
    }
}

} // verus!
