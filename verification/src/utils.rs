//! The primitive reader: little-endian integers, fixed-length text fields and
//! byte arrays over a seekable in-memory byte source.

use vstd::prelude::*;
use vstd::utf8::{decode_utf8, valid_utf8};
use crate::error::SgImageError;

verus! {

/// True when `n` bytes can be read at position `pos` of a source of `len`
/// bytes.
pub open spec fn can_read(pos: int, n: int, len: int) -> bool {
    0 <= pos && pos + n <= len
}

/// The unsigned 16-bit little-endian integer stored at `d[i]`, `d[i + 1]`.
pub open spec fn u16_at(d: Seq<u8>, i: int) -> u16 {
    (d[i] + d[i + 1] * 0x100) as u16
}

/// The unsigned 32-bit little-endian integer stored at `d[i]` .. `d[i + 3]`.
pub open spec fn u32_at(d: Seq<u8>, i: int) -> u32 {
    (d[i] + d[i + 1] * 0x100 + d[i + 2] * 0x10000 + d[i + 3] * 0x1000000) as u32
}

/// The signed 32-bit little-endian integer (two's complement) stored at
/// `d[i]` .. `d[i + 3]`.
pub open spec fn i32_at(d: Seq<u8>, i: int) -> i32 {
    if u32_at(d, i) < 0x8000_0000 {
        u32_at(d, i) as i32
    } else {
        (u32_at(d, i) - 0x1_0000_0000) as i32
    }
}

/// The index of the first NUL byte of `b`, or `b.len()` if there is none.
pub open spec fn first_nul(b: Seq<u8>) -> int
    decreases b.len(),
{
    if b.len() == 0 {
        0
    } else if b[0] == 0 {
        0
    } else {
        1 + first_nul(b.drop_first())
    }
}

/// How an on-disk text field of exactly `b.len()` bytes decodes: `None` when
/// the whole field is not valid UTF-8, otherwise the characters before the
/// first NUL byte (trailing garbage past the terminator is discarded).
pub open spec fn spec_text(b: Seq<u8>) -> Option<Seq<char>> {
    if valid_utf8(b) {
        Some(decode_utf8(b.take(first_nul(b))))
    } else {
        None
    }
}

/// A seekable byte source: a cursor over an in-memory byte string.
///
/// The position may point past the end of the data, as it can for a file
/// descriptor; reads fail there, with the source left unchanged.
pub struct ByteReader {
    data: Vec<u8>,
    pos: u64,
}

/// Reading primitives shared by all record decoders.
///
/// Every method reads at the current position and advances it by exactly the
/// number of bytes read, or fails with [`SgImageError::IoError`] on a short
/// read, leaving the position where it was.
pub trait ReadHelper: Sized {
    /// The whole underlying byte string.
    spec fn bytes(&self) -> Seq<u8>;

    /// The current read position.
    spec fn position(&self) -> int;

    /// Read one byte.
    fn read_u8(&mut self) -> (r: Result<u8, SgImageError>)
        ensures
            final(self).bytes() == old(self).bytes(),
            can_read(old(self).position(), 1, old(self).bytes().len() as int) ==> {
                &&& r == Ok::<u8, SgImageError>(old(self).bytes()[old(self).position()])
                &&& final(self).position() == old(self).position() + 1
            },
            !can_read(old(self).position(), 1, old(self).bytes().len() as int) ==> {
                &&& r == Err::<u8, SgImageError>(SgImageError::IoError)
                &&& final(self).position() == old(self).position()
            },
    ;

    /// Read an unsigned 16-bit little-endian integer.
    fn read_u16_le(&mut self) -> (r: Result<u16, SgImageError>)
        ensures
            final(self).bytes() == old(self).bytes(),
            can_read(old(self).position(), 2, old(self).bytes().len() as int) ==> {
                &&& r == Ok::<u16, SgImageError>(u16_at(old(self).bytes(), old(self).position()))
                &&& final(self).position() == old(self).position() + 2
            },
            !can_read(old(self).position(), 2, old(self).bytes().len() as int) ==> {
                &&& r == Err::<u16, SgImageError>(SgImageError::IoError)
                &&& final(self).position() == old(self).position()
            },
    ;

    /// Read an unsigned 32-bit little-endian integer.
    fn read_u32_le(&mut self) -> (r: Result<u32, SgImageError>)
        ensures
            final(self).bytes() == old(self).bytes(),
            can_read(old(self).position(), 4, old(self).bytes().len() as int) ==> {
                &&& r == Ok::<u32, SgImageError>(u32_at(old(self).bytes(), old(self).position()))
                &&& final(self).position() == old(self).position() + 4
            },
            !can_read(old(self).position(), 4, old(self).bytes().len() as int) ==> {
                &&& r == Err::<u32, SgImageError>(SgImageError::IoError)
                &&& final(self).position() == old(self).position()
            },
    ;

    /// Read a signed 32-bit little-endian integer.
    fn read_i32_le(&mut self) -> (r: Result<i32, SgImageError>)
        ensures
            final(self).bytes() == old(self).bytes(),
            can_read(old(self).position(), 4, old(self).bytes().len() as int) ==> {
                &&& r == Ok::<i32, SgImageError>(i32_at(old(self).bytes(), old(self).position()))
                &&& final(self).position() == old(self).position() + 4
            },
            !can_read(old(self).position(), 4, old(self).bytes().len() as int) ==> {
                &&& r == Err::<i32, SgImageError>(SgImageError::IoError)
                &&& final(self).position() == old(self).position()
            },
    ;

    /// Read a text field stored as exactly `max_length` bytes: the whole field
    /// must be valid UTF-8, and the value is the text before the first NUL.
    fn read_string(&mut self, max_length: usize) -> (r: Result<String, SgImageError>)
        ensures
            final(self).bytes() == old(self).bytes(),
            can_read(old(self).position(), max_length as int, old(self).bytes().len() as int)
                ==> {
                let field = old(self).bytes().subrange(
                    old(self).position(),
                    old(self).position() + max_length,
                );
                match spec_text(field) {
                    Some(t) => {
                        &&& r matches Ok(s) && s@ == t
                        &&& final(self).position() == old(self).position() + max_length
                    },
                    None => {
                        &&& r == Err::<String, SgImageError>(SgImageError::Utf8Error)
                        &&& final(self).position() == old(self).position() + max_length
                    },
                }
            },
            !can_read(old(self).position(), max_length as int, old(self).bytes().len() as int)
                ==> {
                &&& r == Err::<String, SgImageError>(SgImageError::IoError)
                &&& final(self).position() == old(self).position()
            },
    ;

    /// Read exactly `length` raw bytes.
    fn read_bytes(&mut self, length: usize) -> (r: Result<Vec<u8>, SgImageError>)
        ensures
            final(self).bytes() == old(self).bytes(),
            can_read(old(self).position(), length as int, old(self).bytes().len() as int) ==> {
                &&& r matches Ok(v) && v@ == old(self).bytes().subrange(
                    old(self).position(),
                    old(self).position() + length,
                )
                &&& final(self).position() == old(self).position() + length
            },
            !can_read(old(self).position(), length as int, old(self).bytes().len() as int) ==> {
                &&& r == Err::<Vec<u8>, SgImageError>(SgImageError::IoError)
                &&& final(self).position() == old(self).position()
            },
    ;
}

/// Relies on str::from_utf8: it succeeds exactly on valid UTF-8 input and
/// yields the string of the decoded characters.
#[verifier::external_body]
fn utf8_from_bytes(v: &[u8]) -> (r: Option<&str>)
    ensures
        (r is Some) <==> valid_utf8(v@),
        r matches Some(s) ==> s@ == decode_utf8(v@),
{
    match core::str::from_utf8(v) {
        Ok(s) => Some(s),
        Err(_) => None,
    }
}

/// `first_nul(b)` is the unique index `z` with no NUL before it and either a
/// NUL at it or the end of `b`.
proof fn lemma_first_nul_is(b: Seq<u8>, z: int)
    requires
        0 <= z <= b.len(),
        forall|i: int| 0 <= i < z ==> b[i] != 0,
        z < b.len() ==> b[z] == 0,
    ensures
        first_nul(b) == z,
    decreases b.len(),
{
    if b.len() == 0 {
    } else if b[0] == 0 {
    } else {
        lemma_first_nul_is(b.drop_first(), z - 1);
    }
}

impl ByteReader {
    /// The whole underlying byte string.
    pub closed spec fn spec_bytes(&self) -> Seq<u8> {
        self.data@
    }

    /// The current read position.
    pub closed spec fn spec_position(&self) -> int {
        self.pos as int
    }

    /// Wrap an in-memory byte string, positioned at its start.
    pub fn new(data: Vec<u8>) -> (r: ByteReader)
        ensures
            r.spec_bytes() == data@,
            r.spec_position() == 0,
    {
        ByteReader { data, pos: 0 }
    }

    /// How many bytes the source holds in all.
    pub fn len(&self) -> (r: usize)
        ensures
            r == self.spec_bytes().len(),
    {
        self.data.len()
    }

    /// The current read position, as a byte count from the start.
    pub fn stream_position(&self) -> (r: u64)
        ensures
            r == self.spec_position(),
    {
        self.pos
    }

    /// True when `n` more bytes are available at the current position.
    fn has(&self, n: usize) -> (r: bool)
        ensures
            r == can_read(self.spec_position(), n as int, self.spec_bytes().len() as int),
    {
        self.pos <= self.data.len() as u64 && self.data.len() as u64 - self.pos >= n as u64
    }

    /// Move the position by `offset` bytes (possibly backwards, possibly past
    /// the end); fails only when the target would lie before the start.
    pub fn seek_relative(&mut self, offset: i64) -> (r: Result<(), SgImageError>)
        ensures
            final(self).spec_bytes() == old(self).spec_bytes(),
            old(self).spec_position() + offset >= 0 && old(self).spec_position() + offset
                <= u64::MAX ==> {
                &&& r == Ok::<(), SgImageError>(())
                &&& final(self).spec_position() == old(self).spec_position() + offset
            },
            !(old(self).spec_position() + offset >= 0 && old(self).spec_position() + offset
                <= u64::MAX) ==> {
                &&& r == Err::<(), SgImageError>(SgImageError::IoError)
                &&& final(self).spec_position() == old(self).spec_position()
            },
    {
        if offset >= 0 {
            let step = offset as u64;
            if self.pos <= u64::MAX - step {
                self.pos = self.pos + step;
                Ok(())
            } else {
                Err(SgImageError::IoError)
            }
        } else {
            let back = ((-(offset + 1)) as u64) + 1;
            if self.pos >= back {
                self.pos = self.pos - back;
                Ok(())
            } else {
                Err(SgImageError::IoError)
            }
        }
    }

    /// Move the position to the absolute byte offset `target` (possibly past
    /// the end), as a relative seek of `target - position` would.
    pub fn seek_absolute(&mut self, target: u64)
        ensures
            final(self).spec_bytes() == old(self).spec_bytes(),
            final(self).spec_position() == target,
    {
        self.pos = target;
    }

    /// Move the position to the end of the source and return it, as seeking
    /// relative to the end with no offset does.
    pub fn seek_to_end(&mut self) -> (r: u64)
        ensures
            final(self).spec_bytes() == old(self).spec_bytes(),
            final(self).spec_position() == old(self).spec_bytes().len(),
            r == old(self).spec_bytes().len(),
    {
        self.pos = self.data.len() as u64;
        self.pos
    }
}

impl ReadHelper for ByteReader {
    open spec fn bytes(&self) -> Seq<u8> {
        self.spec_bytes()
    }

    open spec fn position(&self) -> int {
        self.spec_position()
    }

    fn read_u8(&mut self) -> (r: Result<u8, SgImageError>) {
        if self.has(1) {
            let l = self.data.len();
            proof {
                assert(self.pos + 1 <= l);
            }
            let b = self.data[self.pos as usize];
            self.pos = self.pos + 1;
            Ok(b)
        } else {
            Err(SgImageError::IoError)
        }
    }

    fn read_u16_le(&mut self) -> (r: Result<u16, SgImageError>) {
        if self.has(2) {
            let l = self.data.len();
            proof {
                assert(self.pos + 2 <= l);
            }
            let i = self.pos as usize;
            let b0 = self.data[i];
            let b1 = self.data[i + 1];
            self.pos = self.pos + 2;
            Ok((b0 as u16) + (b1 as u16) * 0x100)
        } else {
            Err(SgImageError::IoError)
        }
    }

    fn read_u32_le(&mut self) -> (r: Result<u32, SgImageError>) {
        if self.has(4) {
            let l = self.data.len();
            proof {
                assert(self.pos + 4 <= l);
            }
            let i = self.pos as usize;
            let b0 = self.data[i];
            let b1 = self.data[i + 1];
            let b2 = self.data[i + 2];
            let b3 = self.data[i + 3];
            self.pos = self.pos + 4;
            Ok((b0 as u32) + (b1 as u32) * 0x100 + (b2 as u32) * 0x10000 + (b3 as u32)
                * 0x1000000)
        } else {
            Err(SgImageError::IoError)
        }
    }

    fn read_i32_le(&mut self) -> (r: Result<i32, SgImageError>) {
        let v = match self.read_u32_le() {
            Ok(v) => v,
            Err(e) => {
                return Err(e);
            },
        };
        if v <= 0x7fff_ffff {
            Ok(v as i32)
        } else {
            Ok(-((0xffff_ffffu32 - v) as i32) - 1)
        }
    }

    fn read_string(&mut self, max_length: usize) -> (r: Result<String, SgImageError>) {
        let tmp = match self.read_bytes(max_length) {
            Ok(v) => v,
            Err(e) => {
                return Err(e);
            },
        };
        let ghost field = tmp@;
        if utf8_from_bytes(tmp.as_slice()).is_none() {
            return Err(SgImageError::Utf8Error);
        }
        let mut z: usize = 0;
        while z < tmp.len() && tmp[z] != 0
            invariant
                0 <= z <= tmp.len(),
                tmp@ == field,
                forall|i: int| 0 <= i < z ==> field[i] != 0,
            decreases tmp.len() - z,
        {
            z = z + 1;
        }
        proof {
            lemma_first_nul_is(field, z as int);
            assert(field.take(z as int) == field.subrange(0, z as int));
            if z < tmp.len() {
                vstd::utf8::is_char_boundary_iff_not_is_continuation_byte(field, z as int);
            } else {
                vstd::utf8::is_char_boundary_start_end_of_seq(field);
            }
            vstd::utf8::valid_utf8_split(field, z as int);
        }
        let prefix = &tmp.as_slice()[0..z];
        match utf8_from_bytes(prefix) {
            Some(s) => Ok(s.to_owned()),
            None => vstd::pervasive::unreached(),
        }
    }

    fn read_bytes(&mut self, length: usize) -> (r: Result<Vec<u8>, SgImageError>) {
        if self.has(length) {
            let l = self.data.len();
            proof {
                assert(self.pos + length <= l);
            }
            let start = self.pos as usize;
            let mut v: Vec<u8> = Vec::new();
            let mut i: usize = 0;
            while i < length
                invariant
                    0 <= i <= length,
                    start + length <= usize::MAX,
                    start + length <= self.data@.len(),
                    v@ == self.data@.subrange(start as int, start + i),
                decreases length - i,
            {
                v.push(self.data[start + i]);
                proof {
                    assert(v@ == self.data@.subrange(start as int, start + i + 1));
                }
                i = i + 1;
            }
            self.pos = self.pos + length as u64;
            Ok(v)
        } else {
            Err(SgImageError::IoError)
        }
    }
}

} // verus!
