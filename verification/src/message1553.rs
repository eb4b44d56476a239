//! The 1553 message, and its encoding as bytes.
//!
//! A message is encoded as: the command word (2 bytes, big-endian), the address and
//! the sub-address (each a 4-byte big-endian UTF-8 length followed by the UTF-8 bytes),
//! the word count (2 bytes), then each data word (2 bytes).

use vstd::prelude::*;
use vstd::utf8::{decode_utf8, encode_utf8, valid_utf8};
use crate::spec_buffer::SpecBuffer;
use crate::wire::{be_bytes, be_value, lemma_be_bytes_len, lemma_be_roundtrip, lemma_be_value_bound, lemma_be_bytes_of_value};

verus! {

broadcast use vstd::utf8::group_utf8_lib;

/// What a message holds, as mathematical values.
#[verifier::ext_equal]
pub struct MessageView {
    pub command_word: u16,
    pub addr: Seq<char>,
    pub sub_addr: Seq<char>,
    pub size: u16,
    pub data_words: Seq<u16>,
}

/// A message of the bus: a command word, an address and a sub-address, the number of
/// data words, and the data words.
#[derive(Debug)]
pub struct Message1553 {
    command_word: u16,
    addr: String,
    sub_addr: String,
    size: u16,
    data_words: Vec<u16>,
}

impl View for Message1553 {
    type V = MessageView;

    closed spec fn view(&self) -> MessageView {
        MessageView {
            command_word: self.command_word,
            addr: self.addr@,
            sub_addr: self.sub_addr@,
            size: self.size,
            data_words: self.data_words@,
        }
    }
}

/// The bytes of a string field: its UTF-8 length on 4 big-endian bytes (modulo `2^32`),
/// then its UTF-8 bytes.
pub open spec fn string_bytes(s: Seq<char>) -> Seq<u8> {
    be_bytes(encode_utf8(s).len(), 4) + encode_utf8(s)
}

/// The bytes of a run of data words: 2 big-endian bytes each, in order.
pub open spec fn words_bytes(w: Seq<u16>) -> Seq<u8>
    decreases w.len(),
{
    if w.len() == 0 {
        Seq::empty()
    } else {
        words_bytes(w.drop_last()) + be_bytes(w.last() as nat, 2)
    }
}

/// The encoding of a message.
pub open spec fn encode_message(m: MessageView) -> Seq<u8> {
    be_bytes(m.command_word as nat, 2) + string_bytes(m.addr) + string_bytes(m.sub_addr)
        + be_bytes(m.size as nat, 2) + words_bytes(m.data_words)
}

/// The big-endian `u16` at position `p` of `b`.
pub open spec fn u16_at(b: Seq<u8>, p: int) -> u16 {
    be_value(b.subrange(p, p + 2)) as u16
}

/// The string field at position `p` of `b` and the position after it, if its length and
/// bytes are there and the bytes are UTF-8.
pub open spec fn string_at(b: Seq<u8>, p: int) -> Option<(Seq<char>, int)> {
    if p + 4 > b.len() {
        None
    } else {
        let n = be_value(b.subrange(p, p + 4));
        if p + 4 + n > b.len() {
            None
        } else if !valid_utf8(b.subrange(p + 4, p + 4 + n)) {
            None
        } else {
            Some((decode_utf8(b.subrange(p + 4, p + 4 + n)), p + 4 + n))
        }
    }
}

/// The `n` data words from position `p` of `b`, if they are there.
pub open spec fn words_at(b: Seq<u8>, p: int, n: nat) -> Option<Seq<u16>> {
    if p + 2 * n > b.len() {
        None
    } else {
        Some(Seq::new(n, |i: int| u16_at(b, p + 2 * i)))
    }
}

/// The message that the bytes `b` begin with, if they begin with one (bytes after it are
/// not looked at); `None` for fewer than 6 bytes.
pub open spec fn decode_message(b: Seq<u8>) -> Option<MessageView> {
    if b.len() < 6 {
        None
    } else {
        match string_at(b, 2) {
            None => None,
            Some((addr, p1)) => match string_at(b, p1) {
                None => None,
                Some((sub_addr, p2)) => if p2 + 2 > b.len() {
                    None
                } else {
                    let n = u16_at(b, p2);
                    match words_at(b, p2 + 2, n as nat) {
                        None => None,
                        Some(w) => Some(
                            MessageView {
                                command_word: u16_at(b, 0),
                                addr,
                                sub_addr,
                                size: n,
                                data_words: w,
                            },
                        ),
                    }
                },
            },
        }
    }
}

/// `words_bytes(w)` has 2 bytes per word.
pub proof fn lemma_words_bytes_len(w: Seq<u16>)
    ensures
        words_bytes(w).len() == 2 * w.len(),
    decreases w.len(),
{
    if w.len() > 0 {
        lemma_words_bytes_len(w.drop_last());
        lemma_be_bytes_len(w.last() as nat, 2);
    }
}

/// Word `i` stands at bytes `2i` and `2i + 1` of `words_bytes(w)`.
pub proof fn lemma_words_bytes_at(w: Seq<u16>, i: int)
    requires
        0 <= i < w.len(),
    ensures
        words_bytes(w).subrange(2 * i, 2 * i + 2) == be_bytes(w[i] as nat, 2),
    decreases w.len(),
{
    let head = words_bytes(w.drop_last());
    lemma_words_bytes_len(w.drop_last());
    lemma_be_bytes_len(w.last() as nat, 2);
    if i == w.len() - 1 {
        assert(words_bytes(w).subrange(2 * i, 2 * i + 2) =~= be_bytes(w[i] as nat, 2));
    } else {
        lemma_words_bytes_at(w.drop_last(), i);
        assert(words_bytes(w).subrange(2 * i, 2 * i + 2) =~= head.subrange(2 * i, 2 * i + 2));
    }
}

/// Writing the first `i + 1` words is writing the first `i`, then word `i`.
proof fn lemma_words_bytes_take(w: Seq<u16>, i: int)
    requires
        0 <= i < w.len(),
    ensures
        words_bytes(w.take(i + 1)) == words_bytes(w.take(i)) + be_bytes(w[i] as nat, 2),
{
    assert(w.take(i + 1).drop_last() =~= w.take(i));
}

/// Where the decoder's string reads end fits in `usize`: the address's end, when its
/// length is there, and the sub-address's end, when the address was read and the
/// sub-address's length is there. (Always so where `usize` has 64 bits.)
pub open spec fn decode_fits(b: Seq<u8>) -> bool {
    &&& b.len() >= 6 ==> 6 + be_value(b.subrange(2, 6)) <= usize::MAX
    &&& match string_at(b, 2) {
        Some((_, p1)) => p1 + 4 <= b.len() ==> p1 + 4 + be_value(b.subrange(p1, p1 + 4)) <= usize::MAX,
        None => true,
    }
}

/// A message that its encoding describes exactly: the word count is the number of data
/// words, and each address has at most `u32::MAX` bytes of UTF-8.
pub open spec fn well_formed_message(m: MessageView) -> bool {
    &&& m.size == m.data_words.len()
    &&& encode_utf8(m.addr).len() <= u32::MAX
    &&& encode_utf8(m.sub_addr).len() <= u32::MAX
}

/// The data words read back from the bytes of data words.
proof fn lemma_words_roundtrip(w: Seq<u16>, b: Seq<u8>, q: int)
    requires
        0 <= q,
        q + 2 * w.len() <= b.len(),
        b.subrange(q, q + 2 * w.len()) == words_bytes(w),
    ensures
        Seq::new(w.len(), |i: int| u16_at(b, q + 2 * i)) == w,
{
    assert forall|i: int| 0 <= i < w.len() implies u16_at(b, q + 2 * i) == w[i] by {
        lemma_words_bytes_at(w, i);
        lemma_words_bytes_len(w);
        assert(b.subrange(q + 2 * i, q + 2 * i + 2) =~= words_bytes(w).subrange(2 * i, 2 * i + 2));
        crate::wire::lemma_pow256();
        lemma_be_roundtrip(w[i] as nat, 2);
    }
    assert(Seq::new(w.len(), |i: int| u16_at(b, q + 2 * i)) =~= w);
}

/// The bytes of data words written back from the words read at `q`.
proof fn lemma_words_bytes_of_read(b: Seq<u8>, q: int, n: nat)
    requires
        0 <= q,
        q + 2 * n <= b.len(),
    ensures
        words_bytes(Seq::new(n, |i: int| u16_at(b, q + 2 * i))) == b.subrange(q, q + 2 * n),
    decreases n,
{
    let w = Seq::new(n, |i: int| u16_at(b, q + 2 * i));
    if n > 0 {
        let m = (n - 1) as nat;
        lemma_words_bytes_of_read(b, q, m);
        assert(w.drop_last() =~= Seq::new(m, |i: int| u16_at(b, q + 2 * i)));
        let last = b.subrange(q + 2 * m, q + 2 * n);
        assert(last =~= b.subrange(q + 2 * m, q + 2 * m + 2));
        lemma_be_value_bound(last);
        crate::wire::lemma_pow256();
        lemma_be_bytes_of_value(last);
        assert(w.last() as nat == be_value(last));
        assert(b.subrange(q, q + 2 * n) =~= b.subrange(q, q + 2 * m) + last);
    } else {
        assert(b.subrange(q, q) =~= Seq::<u8>::empty());
    }
}

/// A string field read back from its bytes.
proof fn lemma_string_roundtrip(s: Seq<char>, b: Seq<u8>, p: int)
    requires
        0 <= p,
        encode_utf8(s).len() <= u32::MAX,
        p + string_bytes(s).len() <= b.len(),
        b.subrange(p, p + string_bytes(s).len()) == string_bytes(s),
    ensures
        string_bytes(s).len() == 4 + encode_utf8(s).len(),
        string_at(b, p) == Some((s, p + string_bytes(s).len())),
{
    let e = encode_utf8(s);
    crate::wire::lemma_pow256();
    lemma_be_roundtrip(e.len(), 4);
    assert(b.subrange(p, p + 4) =~= string_bytes(s).subrange(0, 4));
    assert(b.subrange(p + 4, p + 4 + e.len()) =~= string_bytes(s).subrange(4, 4 + e.len() as int));
    assert(string_bytes(s).subrange(0, 4) =~= be_bytes(e.len(), 4));
    assert(string_bytes(s).subrange(4, 4 + e.len() as int) =~= e);
}

/// A string field written back from what was read at `p`.
proof fn lemma_string_bytes_of_read(b: Seq<u8>, p: int)
    requires
        0 <= p,
        string_at(b, p) is Some,
    ensures
        ({
            let (s, q) = string_at(b, p).unwrap();
            &&& p < q <= b.len()
            &&& string_bytes(s) == b.subrange(p, q)
            &&& encode_utf8(s).len() <= u32::MAX
        }),
{
    let n = be_value(b.subrange(p, p + 4));
    let bytes = b.subrange(p + 4, p + 4 + n);
    let s = decode_utf8(bytes);
    assert(encode_utf8(s) == bytes);
    lemma_be_bytes_of_value(b.subrange(p, p + 4));
    lemma_be_value_bound(b.subrange(p, p + 4));
    crate::wire::lemma_pow256();
    assert(b.subrange(p, p + 4 + n) =~= b.subrange(p, p + 4) + bytes);
}

/// Decoding the encoding of a well-formed message gives the message back, whatever bytes
/// follow the encoding; and where the encoding's length fits in `usize` (as it does for
/// every encoding that `do_encode` makes), the decoder's string reads fit too.
pub proof fn law_decode_after_encode(m: MessageView, rest: Seq<u8>)
    requires
        well_formed_message(m),
    ensures
        decode_message(encode_message(m) + rest) == Some(m),
        encode_message(m).len() <= usize::MAX ==> decode_fits(encode_message(m) + rest),
{
    let b = encode_message(m) + rest;
    let h0 = be_bytes(m.command_word as nat, 2);
    let h1 = string_bytes(m.addr);
    let h2 = string_bytes(m.sub_addr);
    let h3 = be_bytes(m.size as nat, 2);
    let w = words_bytes(m.data_words);
    crate::wire::lemma_pow256();
    lemma_be_roundtrip(m.command_word as nat, 2);
    lemma_be_roundtrip(m.size as nat, 2);
    lemma_be_bytes_len(encode_utf8(m.addr).len(), 4);
    lemma_be_bytes_len(encode_utf8(m.sub_addr).len(), 4);
    lemma_words_bytes_len(m.data_words);
    let p1: int = 2 + h1.len() as int;
    let p2: int = p1 + h2.len() as int;
    let q: int = p2 + 2;
    assert(b =~= h0 + h1 + h2 + h3 + w + rest);
    assert(b.subrange(0, 2) =~= h0);
    assert(b.subrange(2, p1) =~= h1);
    assert(b.subrange(p1, p2) =~= h2);
    assert(b.subrange(p2, p2 + 2) =~= h3);
    assert(b.subrange(q, q + w.len() as int) =~= w);
    lemma_string_roundtrip(m.addr, b, 2);
    lemma_string_roundtrip(m.sub_addr, b, p1);
    lemma_words_roundtrip(m.data_words, b, q);
}

/// The two big-endian bytes of a 16-bit value: high byte, then low byte.
proof fn lemma_be_bytes_2(v: nat)
    requires
        v < 0x1_0000,
    ensures
        be_bytes(v, 2).len() == 2,
        be_bytes(v, 2)[0] == v / 256,
        be_bytes(v, 2)[1] == v % 256,
{
    reveal_with_fuel(be_bytes, 3);
}

/// The four big-endian bytes of a 32-bit length, most significant first.
proof fn lemma_be_bytes_4(v: nat)
    ensures
        be_bytes(v, 4).len() == 4,
        be_bytes(v, 4)[0] == (v / 256 / 256 / 256) % 256,
        be_bytes(v, 4)[1] == (v / 256 / 256) % 256,
        be_bytes(v, 4)[2] == (v / 256) % 256,
        be_bytes(v, 4)[3] == v % 256,
{
    reveal_with_fuel(be_bytes, 5);
}

/// The byte layout of an encoded message, field by field: byte 0 is the high byte of the
/// command word and byte 1 its low byte; bytes 2 to 5 are the address's UTF-8 length, most
/// significant byte first (modulo `2^32`), followed by the address's UTF-8 bytes; then the
/// sub-address in the same way; then the high and low byte of the word count; then, for each
/// data word in order, its high byte and its low byte. Nothing follows.
pub proof fn law_encode_layout(m: MessageView)
    ensures
        ({
            let e = encode_message(m);
            let a = encode_utf8(m.addr);
            let s = encode_utf8(m.sub_addr);
            let p1: int = 6 + a.len() as int;
            let p2: int = p1 + 4 + s.len() as int;
            let q: int = p2 + 2;
            &&& e.len() == q + 2 * m.data_words.len()
            &&& e[0] == m.command_word / 256
            &&& e[1] == m.command_word % 256
            &&& e[2] == (a.len() / 256 / 256 / 256) % 256
            &&& e[3] == (a.len() / 256 / 256) % 256
            &&& e[4] == (a.len() / 256) % 256
            &&& e[5] == a.len() % 256
            &&& e.subrange(6, p1) == a
            &&& e[p1] == (s.len() / 256 / 256 / 256) % 256
            &&& e[p1 + 1] == (s.len() / 256 / 256) % 256
            &&& e[p1 + 2] == (s.len() / 256) % 256
            &&& e[p1 + 3] == s.len() % 256
            &&& e.subrange(p1 + 4, p2) == s
            &&& e[p2] == m.size / 256
            &&& e[p2 + 1] == m.size % 256
            &&& forall|i: int| 0 <= i < m.data_words.len() ==> e[q + 2 * i] == (
                #[trigger] m.data_words[i]) / 256 && e[q + 2 * i + 1] == m.data_words[i] % 256
        }),
{
    let e = encode_message(m);
    let a = encode_utf8(m.addr);
    let s = encode_utf8(m.sub_addr);
    let w = words_bytes(m.data_words);
    let p1: int = 6 + a.len() as int;
    let p2: int = p1 + 4 + s.len() as int;
    let q: int = p2 + 2;
    lemma_be_bytes_2(m.command_word as nat);
    lemma_be_bytes_2(m.size as nat);
    lemma_be_bytes_4(a.len());
    lemma_be_bytes_4(s.len());
    lemma_words_bytes_len(m.data_words);
    let h0 = be_bytes(m.command_word as nat, 2);
    let h1 = string_bytes(m.addr);
    let h2 = string_bytes(m.sub_addr);
    let h3 = be_bytes(m.size as nat, 2);
    assert(e =~= h0 + h1 + h2 + h3 + w);
    assert(e.subrange(6, p1) =~= a);
    assert(e.subrange(p1 + 4, p2) =~= s);
    assert forall|i: int| 0 <= i < m.data_words.len() implies e[q + 2 * i] == (
        #[trigger] m.data_words[i]) / 256 && e[q + 2 * i + 1] == m.data_words[i] % 256 by {
        lemma_words_bytes_at(m.data_words, i);
        lemma_be_bytes_2(m.data_words[i] as nat);
        assert(e[q + 2 * i] == w[2 * i]);
        assert(e[q + 2 * i + 1] == w[2 * i + 1]);
        assert(w[2 * i] == w.subrange(2 * i, 2 * i + 2)[0]);
        assert(w[2 * i + 1] == w.subrange(2 * i, 2 * i + 2)[1]);
    }
}

/// The fields of a decoded message, read from the bytes: the command word is
/// `256 * b[0] + b[1]`; bytes 2 to 5 give the address's UTF-8 length `n1`, most significant
/// first, and the address is the UTF-8 text of the `n1` bytes after them; the sub-address
/// follows in the same way with length `n2`; then the word count, high byte first; and the
/// data words, as many as the count says, each its high byte times 256 plus its low byte.
pub proof fn law_decode_fields(b: Seq<u8>)
    requires
        decode_message(b) is Some,
    ensures
        ({
            let m = decode_message(b).unwrap();
            let n1 = ((b[2] * 256 + b[3]) * 256 + b[4]) * 256 + b[5];
            let p1 = 6 + n1;
            let n2 = ((b[p1] * 256 + b[p1 + 1]) * 256 + b[p1 + 2]) * 256 + b[p1 + 3];
            let p2 = p1 + 4 + n2;
            let q = p2 + 2;
            &&& q <= b.len()
            &&& m.command_word == b[0] * 256 + b[1]
            &&& valid_utf8(b.subrange(6, p1)) && m.addr == decode_utf8(b.subrange(6, p1))
            &&& valid_utf8(b.subrange(p1 + 4, p2)) && m.sub_addr == decode_utf8(
                b.subrange(p1 + 4, p2),
            )
            &&& m.size == b[p2] * 256 + b[p2 + 1]
            &&& m.data_words.len() == m.size
            &&& q + 2 * m.size <= b.len()
            &&& forall|i: int| 0 <= i < m.size ==> #[trigger] m.data_words[i] == b[q + 2 * i] * 256
                + b[q + 2 * i + 1]
        }),
{
    let (addr, p1) = string_at(b, 2).unwrap();
    let (sub_addr, p2) = string_at(b, p1).unwrap();
    reveal_with_fuel(be_value, 5);
    assert(b.subrange(0, 2).drop_last() =~= b.subrange(0, 1));
    assert(b.subrange(0, 1).drop_last() =~= b.subrange(0, 0));
    let s1 = b.subrange(2, 6);
    assert(s1.drop_last() =~= b.subrange(2, 5));
    assert(b.subrange(2, 5).drop_last() =~= b.subrange(2, 4));
    assert(b.subrange(2, 4).drop_last() =~= b.subrange(2, 3));
    assert(b.subrange(2, 3).drop_last() =~= b.subrange(2, 2));
    assert(be_value(s1) == ((b[2] * 256 + b[3]) * 256 + b[4]) * 256 + b[5]);
    assert(b.subrange(p1, p1 + 4).drop_last() =~= b.subrange(p1, p1 + 3));
    assert(b.subrange(p1, p1 + 3).drop_last() =~= b.subrange(p1, p1 + 2));
    assert(b.subrange(p1, p1 + 2).drop_last() =~= b.subrange(p1, p1 + 1));
    assert(b.subrange(p1, p1 + 1).drop_last() =~= b.subrange(p1, p1));
    assert(be_value(b.subrange(p1, p1 + 4)) == ((b[p1] * 256 + b[p1 + 1]) * 256 + b[p1 + 2]) * 256
        + b[p1 + 3]);
    assert(b.subrange(p2, p2 + 2).drop_last() =~= b.subrange(p2, p2 + 1));
    assert(b.subrange(p2, p2 + 1).drop_last() =~= b.subrange(p2, p2));
    let m = decode_message(b).unwrap();
    let q = p2 + 2;
    assert forall|i: int| 0 <= i < m.size implies #[trigger] m.data_words[i] == b[q + 2 * i] * 256
        + b[q + 2 * i + 1] by {
        let t = b.subrange(q + 2 * i, q + 2 * i + 2);
        assert(t.drop_last() =~= b.subrange(q + 2 * i, q + 2 * i + 1));
        assert(b.subrange(q + 2 * i, q + 2 * i + 1).drop_last() =~= b.subrange(
            q + 2 * i,
            q + 2 * i,
        ));
        assert(be_value(t) == b[q + 2 * i] * 256 + b[q + 2 * i + 1]);
    }
}

/// Encoding a decoded message gives back the bytes it was decoded from (those that the
/// decoding read: a prefix of the input).
pub proof fn law_encode_after_decode(b: Seq<u8>)
    requires
        decode_message(b) is Some,
    ensures
        encode_message(decode_message(b).unwrap()).len() <= b.len(),
        encode_message(decode_message(b).unwrap()) == b.subrange(
            0,
            encode_message(decode_message(b).unwrap()).len() as int,
        ),
{
    let m = decode_message(b).unwrap();
    let (addr, p1) = string_at(b, 2).unwrap();
    let (sub_addr, p2) = string_at(b, p1).unwrap();
    let n = u16_at(b, p2);
    let q = p2 + 2;
    lemma_string_bytes_of_read(b, 2);
    lemma_string_bytes_of_read(b, p1);
    crate::wire::lemma_pow256();
    lemma_be_value_bound(b.subrange(0, 2));
    lemma_be_value_bound(b.subrange(p2, p2 + 2));
    lemma_be_bytes_of_value(b.subrange(0, 2));
    lemma_be_bytes_of_value(b.subrange(p2, p2 + 2));
    lemma_words_bytes_of_read(b, q, n as nat);
    assert(be_bytes(m.command_word as nat, 2) == b.subrange(0, 2));
    assert(be_bytes(m.size as nat, 2) == b.subrange(p2, p2 + 2));
    assert(words_bytes(m.data_words) == b.subrange(q, q + 2 * n));
    assert(b.subrange(0, q + 2 * n) =~= b.subrange(0, 2) + b.subrange(2, p1) + b.subrange(p1, p2)
        + b.subrange(p2, p2 + 2) + b.subrange(q, q + 2 * n));
}

impl Message1553 {
    /// A message with these fields; the word count is the number of data words, as
    /// `as u16` gives it (modulo `2^16`).
    pub fn new(command_word: u16, addr: String, sub_addr: String, data_words: Vec<u16>) -> (r: Self)
        ensures
            r@ == (MessageView {
                command_word,
                addr: addr@,
                sub_addr: sub_addr@,
                size: data_words@.len() as u16,
                data_words: data_words@,
            }),
    {
        let size: u16 = data_words.len() as u16;
        Message1553 { command_word, addr, sub_addr, size, data_words }
    }

    /// A message with all five fields given, the word count as it is (for a message read
    /// from elsewhere, such as a function table).
    pub fn from_parts(
        command_word: u16,
        addr: String,
        sub_addr: String,
        size: u16,
        data_words: Vec<u16>,
    ) -> (r: Self)
        ensures
            r@ == (MessageView {
                command_word,
                addr: addr@,
                sub_addr: sub_addr@,
                size,
                data_words: data_words@,
            }),
    {
        Message1553 { command_word, addr, sub_addr, size, data_words }
    }

    /// The command word.
    pub fn get_command_word(self) -> (r: u16)
        ensures
            r == self@.command_word,
    {
        self.command_word
    }

    /// The address.
    pub fn get_adresse_1553(self) -> (r: String)
        ensures
            r@ == self@.addr,
    {
        self.addr
    }

    /// The sub-address.
    pub fn get_sous_adresse_1553(self) -> (r: String)
        ensures
            r@ == self@.sub_addr,
    {
        self.sub_addr
    }

    /// The word count.
    pub fn get_taille_message(self) -> (r: u16)
        ensures
            r == self@.size,
    {
        self.size
    }

    /// The data words.
    pub fn get_mots_donnees(self) -> (r: Vec<u16>)
        ensures
            r@ == self@.data_words,
    {
        self.data_words
    }

    /// Whether the encoding of the message fits in memory (at most `isize::MAX` bytes),
    /// which `do_encode` needs.
    pub fn encode_fits(&self) -> (r: bool)
        ensures
            r == (encode_message(self@).len() <= isize::MAX),
    {
        let ghost m = self@;
        proof {
            lemma_be_bytes_len(m.command_word as nat, 2);
            lemma_be_bytes_len(encode_utf8(m.addr).len(), 4);
            lemma_be_bytes_len(encode_utf8(m.sub_addr).len(), 4);
            lemma_be_bytes_len(m.size as nat, 2);
            lemma_words_bytes_len(m.data_words);
        }
        let limit: usize = isize::MAX as usize;
        let addr_len: usize = self.addr.as_str().as_bytes().len();
        let sub_len: usize = self.sub_addr.as_str().as_bytes().len();
        let words: usize = self.data_words.len();
        assert(addr_len == encode_utf8(m.addr).len());
        assert(sub_len == encode_utf8(m.sub_addr).len());
        assert(string_bytes(m.addr).len() == 4 + addr_len);
        assert(string_bytes(m.sub_addr).len() == 4 + sub_len);
        if addr_len > limit || sub_len > limit || words > limit / 2 {
            return false;
        }
        let total: u128 = 12u128 + addr_len as u128 + sub_len as u128 + 2 * (words as u128);
        assert(total == encode_message(m).len());
        total <= limit as u128
    }

    /// The bytes of the message: command word, address, sub-address, word count, then
    /// each data word (see `encode_message`).
    pub fn do_encode(&self) -> (r: Vec<u8>)
        requires
            encode_message(self@).len() <= isize::MAX,
        ensures
            r@ == encode_message(self@),
    {
        let ghost m = self@;
        proof {
            lemma_be_bytes_len(m.command_word as nat, 2);
            lemma_be_bytes_len(encode_utf8(m.addr).len(), 4);
            lemma_be_bytes_len(encode_utf8(m.sub_addr).len(), 4);
            lemma_be_bytes_len(m.size as nat, 2);
            lemma_words_bytes_len(m.data_words);
        }
        let ghost head = be_bytes(m.command_word as nat, 2) + string_bytes(m.addr) + string_bytes(
            m.sub_addr,
        ) + be_bytes(m.size as nat, 2);
        let mut byte_buffer = SpecBuffer::new();
        byte_buffer.write_u16(self.command_word);
        byte_buffer.write_string(self.addr.clone());
        byte_buffer.write_string(self.sub_addr.clone());
        byte_buffer.write_u16(self.size);
        assert(byte_buffer.contents() =~= head);
        assert(m.data_words.take(0) =~= Seq::<u16>::empty());
        let mut i: usize = 0;
        while i < self.data_words.len()
            invariant
                m == self@,
                i <= self.data_words@.len(),
                byte_buffer.wf(),
                byte_buffer.contents() == head + words_bytes(m.data_words.take(i as int)),
                head.len() + 2 * m.data_words.len() == encode_message(m).len(),
                encode_message(m).len() <= isize::MAX,
            decreases self.data_words.len() - i,
        {
            proof {
                lemma_words_bytes_len(m.data_words.take(i as int));
                lemma_words_bytes_take(m.data_words, i as int);
            }
            byte_buffer.write_u16(self.data_words[i]);
            i = i + 1;
            assert(byte_buffer.contents() =~= head + words_bytes(m.data_words.take(i as int)));
        }
        assert(m.data_words.take(i as int) =~= m.data_words);
        let bytes: &[u8] = byte_buffer.as_bytes();
        vstd::slice::slice_to_vec(bytes)
    }
}

impl Message1553 {
    /// The message that `array_data` begins with (see `decode_message`), or `None` when
    /// it begins with none: fewer than 6 bytes, a field cut short, or an address that is
    /// not UTF-8.
    pub fn decode(array_data: &[u8]) -> (r: Option<Message1553>)
        requires
            decode_fits(array_data@),
        ensures
            r is Some <==> decode_message(array_data@) is Some,
            r matches Some(m) ==> decode_message(array_data@) == Some(m@),
    {
        let ghost b = array_data@;
        let mut buffer = SpecBuffer::from_bytes(array_data);
        let buffer_size = buffer.len();
        if buffer_size < 6 {
            return None;
        }
        let read_cmd = match buffer.try_read_u16() {
            Some(v) => v,
            None => return None,
        };
        assert(buffer.read_pos() == 2);
        let read_adresse = match buffer.try_read_string() {
            Some(s) => s,
            None => return None,
        };
        let ghost p1: int = buffer.read_pos() as int;
        assert(string_at(b, 2) == Some((read_adresse@, p1)));
        let read_sub_adresse = match buffer.try_read_string() {
            Some(s) => s,
            None => return None,
        };
        let ghost p2: int = buffer.read_pos() as int;
        assert(string_at(b, p1) == Some((read_sub_adresse@, p2)));
        let read_size = match buffer.try_read_u16() {
            Some(v) => v,
            None => return None,
        };
        assert(read_size == u16_at(b, p2));
        let mut data_words: Vec<u16> = Vec::new();
        let mut k: u16 = 0;
        while k < read_size
            invariant
                b == array_data@,
                buffer.wf(),
                buffer.contents() == b,
                b.len() >= 6,
                string_at(b, 2) == Some((read_adresse@, p1)),
                string_at(b, p1) == Some((read_sub_adresse@, p2)),
                p2 + 2 <= b.len(),
                read_size == u16_at(b, p2),
                read_cmd == u16_at(b, 0),
                k <= read_size,
                buffer.read_pos() == p2 + 2 + 2 * k,
                data_words@ =~= Seq::new(k as nat, |i: int| u16_at(b, p2 + 2 + 2 * i)),
            decreases read_size - k,
        {
            let val = match buffer.try_read_u16() {
                Some(v) => v,
                None => return None,
            };
            data_words.push(val);
            k = k + 1;
        }
        proof {
            buffer.lemma_read_pos_bound();
        }
        let msg_decoded = Message1553::new(read_cmd, read_adresse, read_sub_adresse, data_words);
        Some(msg_decoded)
    }

    /// Whether the decoder's string reads on `array_data` end within `usize` (see
    /// `decode_fits`), which `decode` and `do_decode` need.
    pub fn decode_fits_target(array_data: &[u8]) -> (r: bool)
        ensures
            r == decode_fits(array_data@),
    {
        let ghost b = array_data@;
        let len = array_data.len();
        if len < 6 {
            return true;
        }
        let mut lengths = SpecBuffer::from_bytes(array_data);
        let _ = lengths.read_u16();
        let n1: u32 = lengths.read_u32();
        assert(lengths.contents().subrange(2, 6) == b.subrange(2, 6));
        if n1 as usize > usize::MAX - 6 {
            return false;
        }
        let p1: usize = 6 + n1 as usize;
        let mut strings = SpecBuffer::from_bytes(array_data);
        let _ = strings.read_u16();
        match strings.try_read_string() {
            Some(_) => {},
            None => return true,
        }
        proof {
            strings.lemma_read_pos_bound();
        }
        assert(string_at(b, 2) matches Some((_, q)) && q == p1);
        if len - p1 < 4 {
            return true;
        }
        let n2: u32 = strings.read_u32();
        assert(n2 == be_value(b.subrange(p1 as int, p1 + 4)));
        !(n2 as usize > usize::MAX - (p1 + 4))
    }

    /// The message that `array_data` begins with; the bytes must begin with one.
    pub fn do_decode(array_data: &[u8]) -> (r: Message1553)
        requires
            decode_message(array_data@) is Some,
            decode_fits(array_data@),
        ensures
            decode_message(array_data@) == Some(r@),
    {
        match Message1553::decode(array_data) {
            Some(m) => m,
            None => {
                assert(false);
                Message1553::default()
            },
        }
    }
}

/// A message together with the address and port it goes to.
#[derive(Default, Debug, Clone)]
pub struct CoupleMessage {
    pub(crate) msg: Message1553,
    pub(crate) _address: String,
    pub(crate) _port: u32,
}

impl Clone for Message1553 {
    /// A message with the same fields.
    fn clone(&self) -> (r: Self)
        ensures
            r@ == self@,
    {
        let data_words: Vec<u16> = self.data_words.clone();
        assert(data_words@ =~= self.data_words@);
        Message1553 {
            command_word: self.command_word,
            addr: self.addr.clone(),
            sub_addr: self.sub_addr.clone(),
            size: self.size,
            data_words,
        }
    }
}

impl Default for Message1553 {
    /// The message with command word 0, empty addresses and no data word.
    fn default() -> (r: Self)
        ensures
            r@ == (MessageView {
                command_word: 0,
                addr: Seq::empty(),
                sub_addr: Seq::empty(),
                size: 0,
                data_words: Seq::empty(),
            }),
    {
        Message1553 {
            command_word: 0,
            addr: String::new(),
            sub_addr: String::new(),
            size: 0,
            data_words: Vec::new(),
        }
    }
}

} // verus!
