//! Variable-length integers as QUIC writes them: the two high bits of the
//! first byte give the length (1, 2, 4 or 8 bytes), the rest of the bytes
//! hold the value in network byte order.
use vstd::arithmetic::power2::{lemma2_to64, lemma2_to64_rest, pow2};
use vstd::prelude::*;

verus! {

/// Values below this bound can be written as a variable-length integer.
pub const VARINT_LIMIT: u64 = 0x4000_0000_0000_0000;

/// Number of bytes of the encoding of `v`.
pub open spec fn varint_len_spec(v: nat) -> nat {
    if v < 0x40 {
        1
    } else if v < 0x4000 {
        2
    } else if v < 0x4000_0000 {
        4
    } else {
        8
    }
}

/// The two-bit length tag, placed in the top bits of the first byte.
pub open spec fn varint_tag(v: nat) -> nat {
    if v < 0x40 {
        0
    } else if v < 0x4000 {
        1
    } else if v < 0x4000_0000 {
        2
    } else {
        3
    }
}

/// The `n` low-order bytes of `v`, most significant first.
pub open spec fn be_bytes(v: nat, n: nat) -> Seq<u8>
    decreases n,
{
    if n == 0 {
        Seq::empty()
    } else {
        be_bytes(v / 256, (n - 1) as nat).push((v % 256) as u8)
    }
}

/// The full encoding of `v`: the tag sits above the value in the top two bits.
pub open spec fn varint_bytes(v: nat) -> Seq<u8> {
    let n = varint_len_spec(v);
    be_bytes(v + varint_tag(v) * pow2((8 * n - 2) as nat), n)
}

proof fn lemma_be_bytes_len(v: nat, n: nat)
    ensures
        be_bytes(v, n).len() == n,
    decreases n,
{
    if n > 0 {
        lemma_be_bytes_len(v / 256, (n - 1) as nat);
    }
}

/// The encoding of `v` is exactly `varint_len_spec(v)` bytes long.
pub proof fn lemma_varint_bytes_len(v: nat)
    ensures
        varint_bytes(v).len() == varint_len_spec(v),
{
    lemma_be_bytes_len(v + varint_tag(v) * pow2((8 * varint_len_spec(v) - 2) as nat), varint_len_spec(v));
}

/// Number of bytes needed to encode `v` as a variable-length integer.
pub fn varint_len(v: u64) -> (r: usize)
    requires
        v < VARINT_LIMIT,
    ensures
        r == varint_len_spec(v as nat),
{
    if v < 0x40 {
        1
    } else if v < 0x4000 {
        2
    } else if v < 0x4000_0000 {
        4
    } else {
        8
    }
}

/// Appends the `n` low-order bytes of `w` to `buf`, most significant first.
fn push_be(buf: &mut Vec<u8>, w: u64, n: usize)
    requires
        n <= 8,
    ensures
        final(buf)@ == old(buf)@ + be_bytes(w as nat, n as nat),
    decreases n,
{
    if n > 0 {
        push_be(buf, w / 256, n - 1);
        buf.push((w % 256) as u8);
    }
}

/// Appends the encoding of `v` to `buf`.
pub fn encode_varint_into(buf: &mut Vec<u8>, v: u64)
    requires
        v < VARINT_LIMIT,
    ensures
        final(buf)@ == old(buf)@ + varint_bytes(v as nat),
{
    let n = varint_len(v);
    proof {
        lemma2_to64();
        lemma2_to64_rest();
    }
    let w: u64 = if n == 1 {
        v
    } else if n == 2 {
        assert(varint_tag(v as nat) * pow2(14) == 0x4000);
        v + 0x4000
    } else if n == 4 {
        assert(varint_tag(v as nat) * pow2(30) == 2 * 0x4000_0000);
        v + 2 * 0x4000_0000
    } else {
        assert(varint_tag(v as nat) * pow2(62) == 3 * 0x4000_0000_0000_0000);
        v + 3 * 0x4000_0000_0000_0000
    };
    assert(w as nat == v as nat + varint_tag(v as nat) * pow2((8 * varint_len_spec(v as nat) - 2) as nat));
    push_be(buf, w, n);
}

} // verus!
