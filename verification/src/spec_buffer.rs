//! A byte buffer that reads and writes big-endian numbers and length-prefixed
//! strings, on top of the outside `ByteBuffer`.

use vstd::prelude::*;
use vstd::utf8::{decode_utf8, encode_utf8, valid_utf8};
use bytebuffer::ByteBuffer;
use crate::byte_buffer::{
    bb_as_bytes, bb_from_bytes, bb_len, bb_new, bb_read_i16, bb_read_i32, bb_read_i64, bb_read_i8,
    bb_read_string, bb_read_u16, bb_read_u32, bb_read_u64, bb_read_u8, bb_write_i16, bb_write_i32,
    bb_write_i64, bb_write_i8, bb_write_string, bb_write_u16, bb_write_u32, bb_write_u64, bb_write_u8,
    byte_buffer_cursors, byte_buffer_data, byte_buffer_settled,
};
use crate::wire::{be_bytes, be_value};

verus! {

/// A byte buffer: the bytes written so far, and a read position into them.
#[derive(Debug, Clone)]
pub struct SpecBuffer {
    buf: ByteBuffer,
}

impl SpecBuffer {
    /// The bytes the buffer holds.
    pub closed spec fn contents(&self) -> Seq<u8> {
        byte_buffer_data(self.buf)
    }

    /// Where the next read starts.
    pub closed spec fn read_pos(&self) -> nat {
        byte_buffer_cursors(self.buf).0 as nat
    }

    /// The buffer reads at its read position, writes at its end, and is big-endian.
    pub closed spec fn wf(&self) -> bool {
        byte_buffer_settled(self.buf, self.read_pos())
    }

    /// The `width` bytes from the read position on.
    pub open spec fn window(&self, width: nat) -> Seq<u8> {
        self.contents().subrange(self.read_pos() as int, (self.read_pos() + width) as int)
    }

    /// The bytes left to read.
    pub open spec fn remaining(&self) -> int {
        self.contents().len() - self.read_pos()
    }

    /// After a read of `width` bytes: the same bytes, the read position `width` further on.
    pub open spec fn read_by(&self, old: SpecBuffer, width: nat) -> bool {
        &&& self.wf()
        &&& self.contents() == old.contents()
        &&& self.read_pos() == old.read_pos() + width
    }

    /// After a write of `bytes`: `bytes` appended, the read position where it was.
    pub open spec fn wrote(&self, old: SpecBuffer, bytes: Seq<u8>) -> bool {
        &&& self.wf()
        &&& self.contents() == old.contents() + bytes
        &&& self.read_pos() == old.read_pos()
    }

    /// The length of the string that starts at the read position (its 4-byte prefix).
    pub open spec fn string_len_at_read(&self) -> nat {
        be_value(self.window(4))
    }

    /// Where a string read at the read position would end fits in `usize`, when its
    /// length is there to be read.
    pub open spec fn string_end_fits(&self) -> bool {
        self.remaining() >= 4 ==> self.read_pos() + 4 + self.string_len_at_read() <= usize::MAX
    }

    /// The UTF-8 bytes of the string that starts at the read position.
    pub open spec fn string_bytes_at_read(&self) -> Seq<u8> {
        self.contents().subrange(
            self.read_pos() + 4int,
            self.read_pos() + 4int + self.string_len_at_read(),
        )
    }

    /// The read position never passes the end of what the buffer holds.
    pub proof fn lemma_read_pos_bound(&self)
        requires
            self.wf(),
        ensures
            self.read_pos() <= self.contents().len(),
            self.contents().len() <= isize::MAX,
    {
    }

    /// An empty buffer.
    pub fn new() -> (r: SpecBuffer)
        ensures
            r.wf(),
            r.contents() == Seq::<u8>::empty(),
            r.read_pos() == 0,
    {
        SpecBuffer { buf: bb_new() }
    }

    /// A buffer holding `data`, read from its start.
    pub fn from_bytes(data: &[u8]) -> (r: SpecBuffer)
        ensures
            r.wf(),
            r.contents() == data@,
            r.read_pos() == 0,
    {
        SpecBuffer { buf: bb_from_bytes(data) }
    }

    /// The number of bytes held, read or not.
    pub fn len(&self) -> (n: usize)
        ensures
            n == self.contents().len(),
    {
        bb_len(&self.buf)
    }

    /// Reads one byte.
    pub fn read_u8(&mut self) -> (v: u8)
        requires
            old(self).wf(),
            old(self).remaining() >= 1,
        ensures
            final(self).read_by(*old(self), 1),
            v == old(self).contents()[old(self).read_pos() as int],
    {
        match bb_read_u8(&mut self.buf) {
            Some(v) => v,
            None => {
                assert(false);
                0
            },
        }
    }

    /// Reads a big-endian `u16`.
    pub fn read_u16(&mut self) -> (v: u16)
        requires
            old(self).wf(),
            old(self).remaining() >= 2,
        ensures
            final(self).read_by(*old(self), 2),
            v == be_value(old(self).window(2)),
    {
        match self.try_read_u16() {
            Some(v) => v,
            None => {
                assert(false);
                0
            },
        }
    }

    /// Reads a big-endian `u16`, or gives `None` and leaves the buffer as it was when
    /// fewer than 2 bytes are left.
    pub fn try_read_u16(&mut self) -> (r: Option<u16>)
        requires
            old(self).wf(),
        ensures
            final(self).wf(),
            old(self).remaining() >= 2 ==> (r matches Some(v) && v == be_value(old(self).window(2))
                && final(self).read_by(*old(self), 2)),
            old(self).remaining() < 2 ==> r is None && *final(self) == *old(self),
    {
        bb_read_u16(&mut self.buf)
    }

    /// Reads a big-endian `u32`.
    pub fn read_u32(&mut self) -> (v: u32)
        requires
            old(self).wf(),
            old(self).remaining() >= 4,
        ensures
            final(self).read_by(*old(self), 4),
            v == be_value(old(self).window(4)),
    {
        match bb_read_u32(&mut self.buf) {
            Some(v) => v,
            None => {
                assert(false);
                0
            },
        }
    }

    /// Reads a big-endian `u64`.
    pub fn read_u64(&mut self) -> (v: u64)
        requires
            old(self).wf(),
            old(self).remaining() >= 8,
        ensures
            final(self).read_by(*old(self), 8),
            v == be_value(old(self).window(8)),
    {
        match bb_read_u64(&mut self.buf) {
            Some(v) => v,
            None => {
                assert(false);
                0
            },
        }
    }

    /// Reads one byte as a signed value.
    pub fn read_i8(&mut self) -> (v: i8)
        requires
            old(self).wf(),
            old(self).remaining() >= 1,
        ensures
            final(self).read_by(*old(self), 1),
            v == old(self).contents()[old(self).read_pos() as int] as i8,
    {
        match bb_read_i8(&mut self.buf) {
            Some(v) => v,
            None => {
                assert(false);
                0
            },
        }
    }

    /// Reads a big-endian `i16` (two's complement).
    pub fn read_i16(&mut self) -> (v: i16)
        requires
            old(self).wf(),
            old(self).remaining() >= 2,
        ensures
            final(self).read_by(*old(self), 2),
            v == (be_value(old(self).window(2)) as u16) as i16,
    {
        match bb_read_i16(&mut self.buf) {
            Some(v) => v,
            None => {
                assert(false);
                0
            },
        }
    }

    /// Reads a big-endian `i32` (two's complement).
    pub fn read_i32(&mut self) -> (v: i32)
        requires
            old(self).wf(),
            old(self).remaining() >= 4,
        ensures
            final(self).read_by(*old(self), 4),
            v == (be_value(old(self).window(4)) as u32) as i32,
    {
        match bb_read_i32(&mut self.buf) {
            Some(v) => v,
            None => {
                assert(false);
                0
            },
        }
    }

    /// Reads a big-endian `i64` (two's complement).
    pub fn read_i64(&mut self) -> (v: i64)
        requires
            old(self).wf(),
            old(self).remaining() >= 8,
        ensures
            final(self).read_by(*old(self), 8),
            v == (be_value(old(self).window(8)) as u64) as i64,
    {
        match bb_read_i64(&mut self.buf) {
            Some(v) => v,
            None => {
                assert(false);
                0
            },
        }
    }

    /// Reads a string: a big-endian `u32` byte length, then that many bytes of UTF-8.
    pub fn read_string(&mut self) -> (s: String)
        requires
            old(self).wf(),
            old(self).remaining() >= 4,
            old(self).string_end_fits(),
            old(self).remaining() >= 4 + old(self).string_len_at_read(),
            valid_utf8(old(self).string_bytes_at_read()),
        ensures
            final(self).read_by(*old(self), 4 + old(self).string_len_at_read()),
            s@ == decode_utf8(old(self).string_bytes_at_read()),
    {
        match self.try_read_string() {
            Some(s) => s,
            None => {
                assert(false);
                String::new()
            },
        }
    }

    /// Reads a string as `read_string` does, or gives `None` when the length is missing,
    /// when fewer bytes follow than it says, or when they are not UTF-8. The read position
    /// then stands past what could be read: nothing, the length, or the length and the bytes.
    pub fn try_read_string(&mut self) -> (r: Option<String>)
        requires
            old(self).wf(),
            old(self).string_end_fits(),
        ensures
            final(self).wf(),
            final(self).contents() == old(self).contents(),
            old(self).remaining() < 4 ==> r is None && final(self).read_pos() == old(self).read_pos(),
            old(self).remaining() >= 4 && old(self).remaining() < 4 + old(self).string_len_at_read()
                ==> r is None && final(self).read_pos() == old(self).read_pos() + 4,
            old(self).remaining() >= 4 + old(self).string_len_at_read() ==> {
                &&& final(self).read_pos() == old(self).read_pos() + 4 + old(self).string_len_at_read()
                &&& (r is Some <==> valid_utf8(old(self).string_bytes_at_read()))
                &&& (r matches Some(s) ==> s@ == decode_utf8(old(self).string_bytes_at_read()))
            },
    {
        bb_read_string(&mut self.buf)
    }

    /// Appends one byte.
    pub fn write_u8(&mut self, val: u8)
        requires
            old(self).wf(),
            old(self).contents().len() + 1 <= isize::MAX,
        ensures
            final(self).wrote(*old(self), be_bytes(val as nat, 1)),
    {
        bb_write_u8(&mut self.buf, val)
    }

    /// Appends the 2 big-endian bytes of `val`.
    pub fn write_u16(&mut self, val: u16)
        requires
            old(self).wf(),
            old(self).contents().len() + 2 <= isize::MAX,
        ensures
            final(self).wrote(*old(self), be_bytes(val as nat, 2)),
    {
        bb_write_u16(&mut self.buf, val)
    }

    /// Appends the 4 big-endian bytes of `val`.
    pub fn write_u32(&mut self, val: u32)
        requires
            old(self).wf(),
            old(self).contents().len() + 4 <= isize::MAX,
        ensures
            final(self).wrote(*old(self), be_bytes(val as nat, 4)),
    {
        bb_write_u32(&mut self.buf, val)
    }

    /// Appends the 8 big-endian bytes of `val`.
    pub fn write_u64(&mut self, val: u64)
        requires
            old(self).wf(),
            old(self).contents().len() + 8 <= isize::MAX,
        ensures
            final(self).wrote(*old(self), be_bytes(val as nat, 8)),
    {
        bb_write_u64(&mut self.buf, val)
    }

    /// Appends the byte of `val` in two's complement.
    pub fn write_i8(&mut self, val: i8)
        requires
            old(self).wf(),
            old(self).contents().len() + 1 <= isize::MAX,
        ensures
            final(self).wrote(*old(self), be_bytes((val as u8) as nat, 1)),
    {
        bb_write_i8(&mut self.buf, val)
    }

    /// Appends the 2 big-endian bytes of `val` in two's complement.
    pub fn write_i16(&mut self, val: i16)
        requires
            old(self).wf(),
            old(self).contents().len() + 2 <= isize::MAX,
        ensures
            final(self).wrote(*old(self), be_bytes((val as u16) as nat, 2)),
    {
        bb_write_i16(&mut self.buf, val)
    }

    /// Appends the 4 big-endian bytes of `val` in two's complement.
    pub fn write_i32(&mut self, val: i32)
        requires
            old(self).wf(),
            old(self).contents().len() + 4 <= isize::MAX,
        ensures
            final(self).wrote(*old(self), be_bytes((val as u32) as nat, 4)),
    {
        bb_write_i32(&mut self.buf, val)
    }

    /// Appends the 8 big-endian bytes of `val` in two's complement.
    pub fn write_i64(&mut self, val: i64)
        requires
            old(self).wf(),
            old(self).contents().len() + 8 <= isize::MAX,
        ensures
            final(self).wrote(*old(self), be_bytes((val as u64) as nat, 8)),
    {
        bb_write_i64(&mut self.buf, val)
    }

    /// Appends a string: its UTF-8 byte length as 4 big-endian bytes (modulo `2^32`), then
    /// its UTF-8 bytes.
    pub fn write_string(&mut self, val: String)
        requires
            old(self).wf(),
            old(self).contents().len() + 4 + encode_utf8(val@).len() <= isize::MAX,
        ensures
            final(self).wrote(
                *old(self),
                be_bytes(encode_utf8(val@).len(), 4) + encode_utf8(val@),
            ),
    {
        let s: &str = val.as_str();
        bb_write_string(&mut self.buf, s);
        proof {
            assert(byte_buffer_data(self.buf) =~= old(self).contents() + (be_bytes(
                encode_utf8(val@).len(),
                4,
            ) + encode_utf8(val@)));
        }
    }

    /// The bytes held, read or not.
    pub fn as_bytes(&mut self) -> (r: &[u8])
        ensures
            r@ == old(self).contents(),
            *final(self) == *old(self),
    {
        bb_as_bytes(&self.buf)
    }
}

impl Default for SpecBuffer {
    /// An empty buffer, as `new` gives.
    fn default() -> (r: SpecBuffer)
        ensures
            r.wf(),
            r.contents() == Seq::<u8>::empty(),
            r.read_pos() == 0,
    {
        SpecBuffer::new()
    }
}

} // verus!
