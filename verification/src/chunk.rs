//! A sequential cursor over the chunks of an IFF/RIFF-style container:
//! each chunk is a four-byte identifier, a four-byte size in the
//! container's byte order, and `size` payload bytes. Chunks start on even
//! boundaries; a chunk with odd size is followed by exactly one padding
//! byte that belongs to neither the size nor the payload.
//!
//! The embedded metadata block a chunk may carry is parsed by an outside
//! collaborator; the cursor only hands the raw payload out and, told
//! whether the parsed block signalled a trailing footer, fixes the stream
//! position up afterwards.

use vstd::prelude::*;

use vstd::utf8::{decode_utf8, valid_utf8};

use core::marker::PhantomData;

use crate::byte_order::ChunkOrder;
use crate::error::LoftyError;
use crate::stream::ByteStream;
use crate::text::{spec_drop_trailing_nuls, trim_trailing_nuls, utf8_to_string};

verus! {

/// The padding byte after the current chunk: one when the declared size is
/// odd, none when it is even.
pub open spec fn spec_pad(size: u32) -> int {
    if size % 2 == 1 {
        1
    } else {
        0
    }
}

/// A chunk cursor: the identifier and declared size of the chunk most
/// recently read, parameterized by the container's byte order.
pub struct Chunks<B: ChunkOrder> {
    pub fourcc: Vec<u8>,
    pub size: u32,
    pub order: PhantomData<B>,
}

impl<B: ChunkOrder> Chunks<B> {
    /// The identifier always holds exactly four bytes.
    pub open spec fn wf(&self) -> bool {
        self.fourcc@.len() == 4
    }

    /// A cursor that has read nothing yet.
    pub fn new() -> (r: Chunks<B>)
        ensures
            r.wf(),
            r.fourcc@ == seq![0u8, 0u8, 0u8, 0u8],
            r.size == 0,
    {
        let mut fourcc: Vec<u8> = Vec::new();
        fourcc.push(0);
        fourcc.push(0);
        fourcc.push(0);
        fourcc.push(0);
        proof {
            assert(fourcc@ =~= seq![0u8, 0u8, 0u8, 0u8]);
        }
        Chunks { fourcc, size: 0, order: PhantomData }
    }

    /// Reads the next chunk header: four identifier bytes, then a four-byte
    /// size in the container's byte order. Fails with `EndOfStream` on a
    /// short read.
    pub fn next(&mut self, data: &mut ByteStream) -> (r: Result<(), LoftyError>)
        ensures
            final(data).data@ == old(data).data@,
            r is Ok <==> old(data).pos + 8 <= old(data).data@.len(),
            r matches Ok(()) ==> {
                &&& final(self).fourcc@ == old(data).data@.subrange(
                    old(data).pos as int,
                    old(data).pos + 4,
                )
                &&& final(self).size == B::spec_u32(
                    old(data).data@.subrange(old(data).pos + 4, old(data).pos + 8),
                )
                &&& final(self).wf()
                &&& final(data).pos == old(data).pos + 8
            },
            r is Err ==> r == Result::<(), LoftyError>::Err(LoftyError::EndOfStream),
    {
        let fourcc = data.read_exact(4)?;
        let size_bytes = match data.read_exact(4) {
            Ok(b) => b,
            Err(e) => {
                return Err(e);
            },
        };
        self.fourcc = fourcc;
        self.size = B::u32_from_bytes(&size_bytes);
        Ok(())
    }

    /// Reads the chunk's payload verbatim: exactly `size` bytes, with no
    /// padding correction, so a caller may inspect the position before
    /// deciding whether a trailing block follows.
    pub fn content(&mut self, data: &mut ByteStream) -> (r: Result<Vec<u8>, LoftyError>)
        ensures
            final(data).data@ == old(data).data@,
            *final(self) == *old(self),
            r is Ok <==> old(data).pos + old(self).size <= old(data).data@.len(),
            r matches Ok(v) ==> {
                &&& v@ == old(data).data@.subrange(
                    old(data).pos as int,
                    old(data).pos + old(self).size,
                )
                &&& final(data).pos == old(data).pos + old(self).size
            },
            r is Err ==> r == Result::<Vec<u8>, LoftyError>::Err(LoftyError::EndOfStream)
                && final(data).pos == old(data).pos,
    {
        data.read_exact(self.size as usize)
    }

    /// Reads the payload, applies the padding correction, and decodes the
    /// bytes as UTF-8 with every trailing NUL stripped — trailing only,
    /// leading NULs are kept. Fails with `InvalidEncoding` on invalid
    /// bytes.
    pub fn read_cstring(&mut self, data: &mut ByteStream) -> (r: Result<String, LoftyError>)
        ensures
            final(data).data@ == old(data).data@,
            *final(self) == *old(self),
            r is Ok <==> {
                &&& old(data).pos + old(self).size <= old(data).data@.len()
                &&& old(data).pos + old(self).size + spec_pad(old(self).size) <= usize::MAX
                &&& valid_utf8(
                    old(data).data@.subrange(old(data).pos as int, old(data).pos + old(self).size),
                )
            },
            r matches Ok(s) ==> {
                &&& s@ == spec_drop_trailing_nuls(
                    decode_utf8(
                        old(data).data@.subrange(
                            old(data).pos as int,
                            old(data).pos + old(self).size,
                        ),
                    ),
                )
                &&& final(data).pos == old(data).pos + old(self).size + spec_pad(old(self).size)
            },
            r is Err ==> r == Result::<String, LoftyError>::Err(
                if old(data).pos + old(self).size <= old(data).data@.len() && old(data).pos + old(
                    self,
                ).size + spec_pad(old(self).size) <= usize::MAX {
                    LoftyError::InvalidEncoding
                } else {
                    LoftyError::EndOfStream
                },
            ),
    {
        let cont = self.content(data)?;
        let corrected = self.correct_position(data);
        match corrected {
            Ok(()) => {},
            Err(e) => {
                return Err(e);
            },
        }
        match utf8_to_string(cont) {
            Some(s) => Ok(trim_trailing_nuls(s)),
            None => Err(LoftyError::InvalidEncoding),
        }
    }

    /// Reads a length-prefixed string: with an explicit length, exactly
    /// that many bytes, the padding correction driven by the parity of the
    /// explicit length rather than the declared chunk size; without one,
    /// the declared size and its parity. Decodes strictly as UTF-8,
    /// failing with `InvalidEncoding` on invalid bytes.
    pub fn read_pstring(&mut self, data: &mut ByteStream, size: Option<usize>) -> (r: Result<
        String,
        LoftyError,
    >)
        ensures
            final(data).data@ == old(data).data@,
            *final(self) == *old(self),
            ({
                let n = if size is Some {
                    size->0 as int
                } else {
                    old(self).size as int
                };
                let pad = if n % 2 == 1 {
                    1int
                } else {
                    0int
                };
                let bytes = old(data).data@.subrange(old(data).pos as int, old(data).pos + n);
                &&& (r is Ok <==> {
                    &&& old(data).pos + n <= old(data).data@.len()
                    &&& old(data).pos + n + pad <= usize::MAX
                    &&& valid_utf8(bytes)
                })
                &&& (r matches Ok(s) ==> {
                    &&& s@ == decode_utf8(bytes)
                    &&& final(data).pos == old(data).pos + n + pad
                })
                &&& (r is Err ==> r == Result::<String, LoftyError>::Err(
                    if old(data).pos + n <= old(data).data@.len() && old(data).pos + n + pad
                        <= usize::MAX {
                        LoftyError::InvalidEncoding
                    } else {
                        LoftyError::EndOfStream
                    },
                ))
            }),
    {
        let cont = match size {
            Some(sz) => data.read_exact(sz)?,
            None => self.content(data)?,
        };
        if cont.len() % 2 != 0 {
            let seeked = data.seek_forward(1);
            match seeked {
                Ok(()) => {},
                Err(e) => {
                    return Err(e);
                },
            }
        }
        match utf8_to_string(cont) {
            Some(s) => Ok(s),
            None => Err(LoftyError::InvalidEncoding),
        }
    }

    /// After the caller has read the payload with `content` and handed it
    /// to the embedded block parser, fixes the position up: skips the
    /// fixed ten-byte trailing footer region when the parsed block
    /// signalled one, then applies the padding correction.
    pub fn id3_chunk(&mut self, data: &mut ByteStream, embedded_footer: bool) -> (r: Result<
        (),
        LoftyError,
    >)
        ensures
            final(data).data@ == old(data).data@,
            *final(self) == *old(self),
            ({
                let skip = (if embedded_footer {
                    10int
                } else {
                    0int
                }) + spec_pad(old(self).size);
                &&& (r is Ok <==> old(data).pos + skip <= usize::MAX)
                &&& (r is Ok ==> final(data).pos == old(data).pos + skip)
                &&& (r is Err ==> r == Result::<(), LoftyError>::Err(LoftyError::EndOfStream))
            }),
    {
        if embedded_footer {
            data.seek_forward(10)?;
        }
        self.correct_position(data)
    }

    /// Seeks forward over the payload without reading it, then applies the
    /// padding correction.
    pub fn skip(&mut self, data: &mut ByteStream) -> (r: Result<(), LoftyError>)
        ensures
            final(data).data@ == old(data).data@,
            *final(self) == *old(self),
            r is Ok <==> old(data).pos + old(self).size + spec_pad(old(self).size) <= usize::MAX,
            r is Ok ==> final(data).pos == old(data).pos + old(self).size + spec_pad(old(self).size),
            r is Err ==> r == Result::<(), LoftyError>::Err(LoftyError::EndOfStream),
    {
        data.seek_forward(self.size as usize)?;
        self.correct_position(data)
    }

    /// Chunks start on even boundaries: when the declared size is odd,
    /// seeks forward over exactly the one padding byte; otherwise a no-op.
    /// The padding byte is not the NUL terminator of the value and is not
    /// included in the declared size.
    pub fn correct_position(&mut self, data: &mut ByteStream) -> (r: Result<(), LoftyError>)
        ensures
            final(data).data@ == old(data).data@,
            *final(self) == *old(self),
            r is Ok <==> old(data).pos + spec_pad(old(self).size) <= usize::MAX,
            r is Ok ==> final(data).pos == old(data).pos + spec_pad(old(self).size),
            r is Err ==> r == Result::<(), LoftyError>::Err(LoftyError::EndOfStream),
    {
        if self.size % 2 != 0 {
            data.seek_forward(1)
        } else {
            Ok(())
        }
    }
}

} // verus!
