//! Big-endian integers as byte sequences.

use vstd::prelude::*;
use vstd::arithmetic::power::pow;

verus! {

/// The unsigned number that `s` spells in big-endian order (most significant byte first).
pub open spec fn be_value(s: Seq<u8>) -> nat
    decreases s.len(),
{
    if s.len() == 0 {
        0
    } else {
        be_value(s.drop_last()) * 256 + s.last() as nat
    }
}

/// The `n` low-order bytes of `v`, most significant first.
pub open spec fn be_bytes(v: nat, n: nat) -> Seq<u8>
    decreases n,
{
    if n == 0 {
        Seq::empty()
    } else {
        be_bytes(v / 256, (n - 1) as nat).push((v % 256) as u8)
    }
}

/// `be_bytes(v, n)` is `n` bytes long.
pub proof fn lemma_be_bytes_len(v: nat, n: nat)
    ensures
        be_bytes(v, n).len() == n,
    decreases n,
{
    if n > 0 {
        lemma_be_bytes_len(v / 256, (n - 1) as nat);
    }
}

/// Reading back `n` big-endian bytes gives the value modulo `256^n`.
pub proof fn lemma_be_value_of_bytes(v: nat, n: nat)
    ensures
        be_value(be_bytes(v, n)) == v % pow(256, n) as nat,
        pow(256, n) > 0,
    decreases n,
{
    vstd::arithmetic::power::lemma_pow_positive(256, n);
    if n == 0 {
        vstd::arithmetic::power::lemma_pow0(256);
    } else {
        let m = (n - 1) as nat;
        lemma_be_value_of_bytes(v / 256, m);
        lemma_be_bytes_len(v / 256, m);
        let s = be_bytes(v, n);
        assert(s.drop_last() == be_bytes(v / 256, m));
        reveal(pow);
        assert(pow(256, n) == 256 * pow(256, m));
        vstd::arithmetic::div_mod::lemma_mod_breakdown(v as int, 256, pow(256, m));
        assert(be_value(s) == (v / 256) % pow(256, m) as nat * 256 + v % 256);
        assert(v as int % (256 * pow(256, m)) == 256 * ((v as int / 256) % pow(256, m)) + v as int % 256);
    }
}

/// The powers of 256 that the integer widths use.
pub proof fn lemma_pow256()
    ensures
        pow(256, 1) == 256,
        pow(256, 2) == 0x1_0000,
        pow(256, 4) == 0x1_0000_0000,
        pow(256, 8) == 0x1_0000_0000_0000_0000,
{
    reveal_with_fuel(pow, 9);
}

/// The big-endian round trip: `n` bytes hold every value below `256^n` exactly.
pub proof fn lemma_be_roundtrip(v: nat, n: nat)
    requires
        v < pow(256, n),
    ensures
        be_value(be_bytes(v, n)) == v,
        be_bytes(v, n).len() == n,
{
    lemma_be_value_of_bytes(v, n);
    lemma_be_bytes_len(v, n);
    vstd::arithmetic::div_mod::lemma_small_mod(v, pow(256, n) as nat);
}

/// The value of a byte sequence stays below `256^len`.
pub proof fn lemma_be_value_bound(s: Seq<u8>)
    ensures
        be_value(s) < pow(256, s.len()),
    decreases s.len(),
{
    reveal(pow);
    if s.len() > 0 {
        lemma_be_value_bound(s.drop_last());
        assert(pow(256, s.len()) == 256 * pow(256, (s.len() - 1) as nat));
        assert(be_value(s) < 256 * pow(256, (s.len() - 1) as nat)) by (nonlinear_arith)
            requires
                be_value(s) == be_value(s.drop_last()) * 256 + s.last(),
                be_value(s.drop_last()) < pow(256, (s.len() - 1) as nat),
                s.last() < 256,
        ;
    }
}

/// Writing back what was read: the bytes of a value read from `n` bytes are those bytes.
pub proof fn lemma_be_bytes_of_value(s: Seq<u8>)
    ensures
        be_bytes(be_value(s), s.len()) == s,
    decreases s.len(),
{
    if s.len() > 0 {
        let t = s.drop_last();
        lemma_be_bytes_of_value(t);
        let v = be_value(s);
        assert(v / 256 == be_value(t) && v % 256 == s.last()) by {
            vstd::arithmetic::div_mod::lemma_fundamental_div_mod_converse(
                v as int,
                256,
                be_value(t) as int,
                s.last() as int,
            );
        }
        assert(be_bytes(v, s.len()) =~= s);
    }
}

} // verus!
