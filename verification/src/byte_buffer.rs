//! The outside `bytebuffer::ByteBuffer`, seen through what it holds and where
//! its cursors stand. Every item here is trusted: its contract restates what
//! the crate's source (version 2.3) does, and nothing here is proved.

use vstd::prelude::*;
use vstd::string::StringSliceAdditionalSpecFns;
use vstd::utf8::{decode_utf8, valid_utf8};
use bytebuffer::ByteBuffer;
use crate::wire::{be_bytes, be_value};

verus! {

/// The outside byte buffer type, opaque to Verus.
#[verifier::external_type_specification]
#[verifier::external_body]
pub struct ExByteBuffer(bytebuffer::ByteBuffer);

/// The bytes that a `ByteBuffer` holds (its field `data`).
pub uninterp spec fn byte_buffer_data(b: ByteBuffer) -> Seq<u8>;

/// The cursors of a `ByteBuffer`: `(rpos, wpos, rbit, wbit, big_endian)`, that is the read
/// position, the write position, the pending bits of each, and whether it is big-endian.
pub uninterp spec fn byte_buffer_cursors(b: ByteBuffer) -> (usize, usize, usize, usize, bool);

/// `b` reads at `rpos`, writes at its end, has no pending bit and is big-endian;
/// what it holds fits a `Vec<u8>`.
pub open spec fn byte_buffer_settled(b: ByteBuffer, rpos: nat) -> bool {
    &&& byte_buffer_data(b).len() <= isize::MAX
    &&& rpos <= byte_buffer_data(b).len()
    &&& byte_buffer_cursors(b) == (rpos as usize, byte_buffer_data(b).len() as usize, 0usize, 0usize, true)
}

/// `new` holds the bytes of `old` and reads `width` bytes further on.
pub open spec fn byte_buffer_advanced(old: ByteBuffer, new: ByteBuffer, rpos: nat, width: nat) -> bool {
    &&& byte_buffer_data(new) == byte_buffer_data(old)
    &&& byte_buffer_settled(new, rpos + width)
}

/// The `width` bytes of `b` from `rpos` on.
pub open spec fn byte_buffer_window(b: ByteBuffer, rpos: nat, width: nat) -> Seq<u8> {
    byte_buffer_data(b).subrange(rpos as int, (rpos + width) as int)
}

/// `ByteBuffer::clone` (derived): a buffer with the same bytes and the same cursors.
pub assume_specification[ <ByteBuffer as Clone>::clone ](b: &ByteBuffer) -> (r: ByteBuffer)
    ensures
        byte_buffer_data(r) == byte_buffer_data(*b),
        byte_buffer_cursors(r) == byte_buffer_cursors(*b),
;

/// `ByteBuffer::new`: an empty buffer, cursors at zero, big-endian.
#[verifier::external_body]
pub(crate) fn bb_new() -> (b: ByteBuffer)
    ensures
        byte_buffer_data(b) == Seq::<u8>::empty(),
        byte_buffer_settled(b, 0),
{
    ByteBuffer::new()
}

/// `ByteBuffer::from_bytes`: a new buffer into which `bytes` were written; it reads from 0.
#[verifier::external_body]
pub(crate) fn bb_from_bytes(bytes: &[u8]) -> (b: ByteBuffer)
    ensures
        byte_buffer_data(b) == bytes@,
        byte_buffer_settled(b, 0),
{
    ByteBuffer::from_bytes(bytes)
}

/// `ByteBuffer::len`: the number of bytes held.
#[verifier::external_body]
pub(crate) fn bb_len(b: &ByteBuffer) -> (n: usize)
    ensures
        n == byte_buffer_data(*b).len(),
{
    b.len()
}

/// `ByteBuffer::as_bytes`: the bytes held.
#[verifier::external_body]
pub(crate) fn bb_as_bytes(b: &ByteBuffer) -> (r: &[u8])
    ensures
        r@ == byte_buffer_data(*b),
{
    b.as_bytes()
}

/// `ByteBuffer::read_u8`: the byte at the read position, or an error (read as `None`)
/// with the buffer untouched when none is left.
#[verifier::external_body]
pub(crate) fn bb_read_u8(b: &mut ByteBuffer) -> (r: Option<u8>)
    requires
        byte_buffer_settled(*old(b), byte_buffer_cursors(*old(b)).0 as nat),
    ensures
        ({
            let p = byte_buffer_cursors(*old(b)).0 as nat;
            match r {
                Some(v) => p + 1 <= byte_buffer_data(*old(b)).len()
                    && v == byte_buffer_data(*old(b))[p as int]
                    && byte_buffer_advanced(*old(b), *final(b), p, 1),
                None => p + 1 > byte_buffer_data(*old(b)).len() && *final(b) == *old(b),
            }
        }),
{
    b.read_u8().ok()
}

/// `ByteBuffer::read_i8`: as `read_u8`, the byte taken as signed.
#[verifier::external_body]
pub(crate) fn bb_read_i8(b: &mut ByteBuffer) -> (r: Option<i8>)
    requires
        byte_buffer_settled(*old(b), byte_buffer_cursors(*old(b)).0 as nat),
    ensures
        ({
            let p = byte_buffer_cursors(*old(b)).0 as nat;
            match r {
                Some(v) => p + 1 <= byte_buffer_data(*old(b)).len()
                    && v == byte_buffer_data(*old(b))[p as int] as i8
                    && byte_buffer_advanced(*old(b), *final(b), p, 1),
                None => p + 1 > byte_buffer_data(*old(b)).len() && *final(b) == *old(b),
            }
        }),
{
    b.read_i8().ok()
}

/// `ByteBuffer::read_u16`: the big-endian value of the next 2 bytes, or an error (read as
/// `None`) with the buffer untouched when fewer are left.
#[verifier::external_body]
pub(crate) fn bb_read_u16(b: &mut ByteBuffer) -> (r: Option<u16>)
    requires
        byte_buffer_settled(*old(b), byte_buffer_cursors(*old(b)).0 as nat),
    ensures
        ({
            let p = byte_buffer_cursors(*old(b)).0 as nat;
            match r {
                Some(v) => p + 2 <= byte_buffer_data(*old(b)).len()
                    && v == be_value(byte_buffer_window(*old(b), p, 2))
                    && byte_buffer_advanced(*old(b), *final(b), p, 2),
                None => p + 2 > byte_buffer_data(*old(b)).len() && *final(b) == *old(b),
            }
        }),
{
    b.read_u16().ok()
}

/// `ByteBuffer::read_i16`: as `read_u16`, the value taken as signed.
#[verifier::external_body]
pub(crate) fn bb_read_i16(b: &mut ByteBuffer) -> (r: Option<i16>)
    requires
        byte_buffer_settled(*old(b), byte_buffer_cursors(*old(b)).0 as nat),
    ensures
        ({
            let p = byte_buffer_cursors(*old(b)).0 as nat;
            match r {
                Some(v) => p + 2 <= byte_buffer_data(*old(b)).len()
                    && v == (be_value(byte_buffer_window(*old(b), p, 2)) as u16) as i16
                    && byte_buffer_advanced(*old(b), *final(b), p, 2),
                None => p + 2 > byte_buffer_data(*old(b)).len() && *final(b) == *old(b),
            }
        }),
{
    b.read_i16().ok()
}

/// `ByteBuffer::read_u32`: the big-endian value of the next 4 bytes, or an error (read as
/// `None`) with the buffer untouched when fewer are left.
#[verifier::external_body]
pub(crate) fn bb_read_u32(b: &mut ByteBuffer) -> (r: Option<u32>)
    requires
        byte_buffer_settled(*old(b), byte_buffer_cursors(*old(b)).0 as nat),
    ensures
        ({
            let p = byte_buffer_cursors(*old(b)).0 as nat;
            match r {
                Some(v) => p + 4 <= byte_buffer_data(*old(b)).len()
                    && v == be_value(byte_buffer_window(*old(b), p, 4))
                    && byte_buffer_advanced(*old(b), *final(b), p, 4),
                None => p + 4 > byte_buffer_data(*old(b)).len() && *final(b) == *old(b),
            }
        }),
{
    b.read_u32().ok()
}

/// `ByteBuffer::read_i32`: as `read_u32`, the value taken as signed.
#[verifier::external_body]
pub(crate) fn bb_read_i32(b: &mut ByteBuffer) -> (r: Option<i32>)
    requires
        byte_buffer_settled(*old(b), byte_buffer_cursors(*old(b)).0 as nat),
    ensures
        ({
            let p = byte_buffer_cursors(*old(b)).0 as nat;
            match r {
                Some(v) => p + 4 <= byte_buffer_data(*old(b)).len()
                    && v == (be_value(byte_buffer_window(*old(b), p, 4)) as u32) as i32
                    && byte_buffer_advanced(*old(b), *final(b), p, 4),
                None => p + 4 > byte_buffer_data(*old(b)).len() && *final(b) == *old(b),
            }
        }),
{
    b.read_i32().ok()
}

/// `ByteBuffer::read_u64`: the big-endian value of the next 8 bytes, or an error (read as
/// `None`) with the buffer untouched when fewer are left.
#[verifier::external_body]
pub(crate) fn bb_read_u64(b: &mut ByteBuffer) -> (r: Option<u64>)
    requires
        byte_buffer_settled(*old(b), byte_buffer_cursors(*old(b)).0 as nat),
    ensures
        ({
            let p = byte_buffer_cursors(*old(b)).0 as nat;
            match r {
                Some(v) => p + 8 <= byte_buffer_data(*old(b)).len()
                    && v == be_value(byte_buffer_window(*old(b), p, 8))
                    && byte_buffer_advanced(*old(b), *final(b), p, 8),
                None => p + 8 > byte_buffer_data(*old(b)).len() && *final(b) == *old(b),
            }
        }),
{
    b.read_u64().ok()
}

/// `ByteBuffer::read_i64`: as `read_u64`, the value taken as signed.
#[verifier::external_body]
pub(crate) fn bb_read_i64(b: &mut ByteBuffer) -> (r: Option<i64>)
    requires
        byte_buffer_settled(*old(b), byte_buffer_cursors(*old(b)).0 as nat),
    ensures
        ({
            let p = byte_buffer_cursors(*old(b)).0 as nat;
            match r {
                Some(v) => p + 8 <= byte_buffer_data(*old(b)).len()
                    && v == (be_value(byte_buffer_window(*old(b), p, 8)) as u64) as i64
                    && byte_buffer_advanced(*old(b), *final(b), p, 8),
                None => p + 8 > byte_buffer_data(*old(b)).len() && *final(b) == *old(b),
            }
        }),
{
    b.read_i64().ok()
}

/// `ByteBuffer::read_string`: a big-endian `u32` length `n`, then `n` bytes taken as UTF-8.
/// The end of the string, `rpos + 4 + n`, must fit in `usize` (the crate adds it unchecked).
/// It fails (read as `None`) without moving when the length is missing; after the length
/// when fewer than `n` bytes follow; after the `n` bytes when they are not valid UTF-8.
#[verifier::external_body]
pub(crate) fn bb_read_string(b: &mut ByteBuffer) -> (r: Option<String>)
    requires
        byte_buffer_settled(*old(b), byte_buffer_cursors(*old(b)).0 as nat),
        ({
            let p = byte_buffer_cursors(*old(b)).0 as nat;
            p + 4 <= byte_buffer_data(*old(b)).len() ==> p + 4 + be_value(
                byte_buffer_window(*old(b), p, 4),
            ) <= usize::MAX
        }),
    ensures
        ({
            let p = byte_buffer_cursors(*old(b)).0 as nat;
            let len = byte_buffer_data(*old(b)).len();
            let n = be_value(byte_buffer_window(*old(b), p, 4));
            let bytes = byte_buffer_window(*old(b), p + 4, n);
            &&& p + 4 > len ==> r is None && *final(b) == *old(b)
            &&& p + 4 <= len && p + 4 + n > len ==> r is None
                && byte_buffer_advanced(*old(b), *final(b), p, 4)
            &&& p + 4 + n <= len ==> byte_buffer_advanced(*old(b), *final(b), p, 4 + n)
                && (r is Some <==> valid_utf8(bytes))
                && (r matches Some(s) ==> s@ == decode_utf8(bytes))
        }),
{
    b.read_string().ok()
}

/// `ByteBuffer::write_u8`: appends the byte.
#[verifier::external_body]
pub(crate) fn bb_write_u8(b: &mut ByteBuffer, val: u8)
    requires
        byte_buffer_settled(*old(b), byte_buffer_cursors(*old(b)).0 as nat),
        byte_buffer_data(*old(b)).len() + 1 <= isize::MAX,
    ensures
        byte_buffer_data(*final(b)) == byte_buffer_data(*old(b)) + be_bytes(val as nat, 1),
        byte_buffer_settled(*final(b), byte_buffer_cursors(*old(b)).0 as nat),
{
    b.write_u8(val)
}

/// `ByteBuffer::write_i8`: appends the byte of the value's two's complement.
#[verifier::external_body]
pub(crate) fn bb_write_i8(b: &mut ByteBuffer, val: i8)
    requires
        byte_buffer_settled(*old(b), byte_buffer_cursors(*old(b)).0 as nat),
        byte_buffer_data(*old(b)).len() + 1 <= isize::MAX,
    ensures
        byte_buffer_data(*final(b)) == byte_buffer_data(*old(b)) + be_bytes((val as u8) as nat, 1),
        byte_buffer_settled(*final(b), byte_buffer_cursors(*old(b)).0 as nat),
{
    b.write_i8(val)
}

/// `ByteBuffer::write_u16`: appends the 2 big-endian bytes of the value.
#[verifier::external_body]
pub(crate) fn bb_write_u16(b: &mut ByteBuffer, val: u16)
    requires
        byte_buffer_settled(*old(b), byte_buffer_cursors(*old(b)).0 as nat),
        byte_buffer_data(*old(b)).len() + 2 <= isize::MAX,
    ensures
        byte_buffer_data(*final(b)) == byte_buffer_data(*old(b)) + be_bytes(val as nat, 2),
        byte_buffer_settled(*final(b), byte_buffer_cursors(*old(b)).0 as nat),
{
    b.write_u16(val)
}

/// `ByteBuffer::write_i16`: appends the 2 big-endian bytes of the value's two's complement.
#[verifier::external_body]
pub(crate) fn bb_write_i16(b: &mut ByteBuffer, val: i16)
    requires
        byte_buffer_settled(*old(b), byte_buffer_cursors(*old(b)).0 as nat),
        byte_buffer_data(*old(b)).len() + 2 <= isize::MAX,
    ensures
        byte_buffer_data(*final(b)) == byte_buffer_data(*old(b)) + be_bytes((val as u16) as nat, 2),
        byte_buffer_settled(*final(b), byte_buffer_cursors(*old(b)).0 as nat),
{
    b.write_i16(val)
}

/// `ByteBuffer::write_u32`: appends the 4 big-endian bytes of the value.
#[verifier::external_body]
pub(crate) fn bb_write_u32(b: &mut ByteBuffer, val: u32)
    requires
        byte_buffer_settled(*old(b), byte_buffer_cursors(*old(b)).0 as nat),
        byte_buffer_data(*old(b)).len() + 4 <= isize::MAX,
    ensures
        byte_buffer_data(*final(b)) == byte_buffer_data(*old(b)) + be_bytes(val as nat, 4),
        byte_buffer_settled(*final(b), byte_buffer_cursors(*old(b)).0 as nat),
{
    b.write_u32(val)
}

/// `ByteBuffer::write_i32`: appends the 4 big-endian bytes of the value's two's complement.
#[verifier::external_body]
pub(crate) fn bb_write_i32(b: &mut ByteBuffer, val: i32)
    requires
        byte_buffer_settled(*old(b), byte_buffer_cursors(*old(b)).0 as nat),
        byte_buffer_data(*old(b)).len() + 4 <= isize::MAX,
    ensures
        byte_buffer_data(*final(b)) == byte_buffer_data(*old(b)) + be_bytes((val as u32) as nat, 4),
        byte_buffer_settled(*final(b), byte_buffer_cursors(*old(b)).0 as nat),
{
    b.write_i32(val)
}

/// `ByteBuffer::write_u64`: appends the 8 big-endian bytes of the value.
#[verifier::external_body]
pub(crate) fn bb_write_u64(b: &mut ByteBuffer, val: u64)
    requires
        byte_buffer_settled(*old(b), byte_buffer_cursors(*old(b)).0 as nat),
        byte_buffer_data(*old(b)).len() + 8 <= isize::MAX,
    ensures
        byte_buffer_data(*final(b)) == byte_buffer_data(*old(b)) + be_bytes(val as nat, 8),
        byte_buffer_settled(*final(b), byte_buffer_cursors(*old(b)).0 as nat),
{
    b.write_u64(val)
}

/// `ByteBuffer::write_i64`: appends the 8 big-endian bytes of the value's two's complement.
#[verifier::external_body]
pub(crate) fn bb_write_i64(b: &mut ByteBuffer, val: i64)
    requires
        byte_buffer_settled(*old(b), byte_buffer_cursors(*old(b)).0 as nat),
        byte_buffer_data(*old(b)).len() + 8 <= isize::MAX,
    ensures
        byte_buffer_data(*final(b)) == byte_buffer_data(*old(b)) + be_bytes((val as u64) as nat, 8),
        byte_buffer_settled(*final(b), byte_buffer_cursors(*old(b)).0 as nat),
{
    b.write_i64(val)
}

/// `ByteBuffer::write_string`: appends the UTF-8 length of the string as 4 big-endian
/// bytes (the length taken modulo `2^32`, as `as u32` does), then its UTF-8 bytes.
#[verifier::external_body]
pub(crate) fn bb_write_string(b: &mut ByteBuffer, val: &str)
    requires
        byte_buffer_settled(*old(b), byte_buffer_cursors(*old(b)).0 as nat),
        byte_buffer_data(*old(b)).len() + 4 + val.spec_bytes().len() <= isize::MAX,
    ensures
        byte_buffer_data(*final(b)) == byte_buffer_data(*old(b)) + be_bytes(val.spec_bytes().len(), 4)
            + val.spec_bytes(),
        byte_buffer_settled(*final(b), byte_buffer_cursors(*old(b)).0 as nat),
{
    b.write_string(val)
}

} // verus!
