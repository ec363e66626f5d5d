use vstd::prelude::*;

verus! {

/// Largest value that the RFC 9000 62-bit variable-length integer can carry.
pub const VARINT62_MAX: u64 = 0x3fffffffffffffff;

/// Number of bytes of the shortest encoding of `v`: 1, 2, 4 or 8.
pub open spec fn varint_len(v: u64) -> nat {
    if v < 0x40 {
        1
    } else if v < 0x4000 {
        2
    } else if v < 0x4000_0000 {
        4
    } else {
        8
    }
}

/// A length that a varint encoding may have.
pub open spec fn is_varint_width(n: nat) -> bool {
    n == 1 || n == 2 || n == 4 || n == 8
}

/// Whether `v` fits in an encoding of `n` bytes.
pub open spec fn fits_width(v: u64, n: nat) -> bool {
    &&& is_varint_width(n)
    &&& v <= VARINT62_MAX
    &&& varint_len(v) <= n
}

/// The encoding of `v` in exactly `n` bytes (`n` one of 1, 2, 4, 8): the two
/// high bits of the first byte give the width, the rest is `v` big-endian.
pub open spec fn encode_varint_width(v: u64, n: nat) -> Seq<u8> {
    if n == 1 {
        seq![(v & 0x3f) as u8]
    } else if n == 2 {
        seq![(((v >> 8u64) & 0x3f) | 0x40) as u8, (v & 0xff) as u8]
    } else if n == 4 {
        seq![
            (((v >> 24u64) & 0x3f) | 0x80) as u8,
            ((v >> 16u64) & 0xff) as u8,
            ((v >> 8u64) & 0xff) as u8,
            (v & 0xff) as u8,
        ]
    } else {
        seq![
            (((v >> 56u64) & 0x3f) | 0xc0) as u8,
            ((v >> 48u64) & 0xff) as u8,
            ((v >> 40u64) & 0xff) as u8,
            ((v >> 32u64) & 0xff) as u8,
            ((v >> 24u64) & 0xff) as u8,
            ((v >> 16u64) & 0xff) as u8,
            ((v >> 8u64) & 0xff) as u8,
            (v & 0xff) as u8,
        ]
    }
}

/// The shortest encoding of `v`, the one the framer writes.
pub open spec fn encode_varint(v: u64) -> Seq<u8> {
    encode_varint_width(v, varint_len(v))
}

/// The width announced by a first byte.
pub open spec fn width_of_first(b: u8) -> nat {
    let tag = b >> 6u8;
    if tag == 0 {
        1
    } else if tag == 1 {
        2
    } else if tag == 2 {
        4
    } else {
        8
    }
}

/// The value carried by the first `n` bytes of `s`, which announce width `n`.
pub open spec fn varint_value(s: Seq<u8>, n: nat) -> u64 {
    if n == 1 {
        (s[0] & 0x3f) as u64
    } else if n == 2 {
        (((s[0] & 0x3f) as u64) << 8u64) | (s[1] as u64)
    } else if n == 4 {
        (((s[0] & 0x3f) as u64) << 24u64) | ((s[1] as u64) << 16u64) | ((s[2] as u64) << 8u64) | (
        s[3] as u64)
    } else {
        (((s[0] & 0x3f) as u64) << 56u64) | ((s[1] as u64) << 48u64) | ((s[2] as u64) << 40u64) | ((
        s[3] as u64) << 32u64) | ((s[4] as u64) << 24u64) | ((s[5] as u64) << 16u64) | ((
        s[6] as u64) << 8u64) | (s[7] as u64)
    }
}

/// Decoding of a varint at the start of `s`: its value and the number of
/// bytes it takes, or `None` when `s` ends before the encoding does.
pub open spec fn decode_varint(s: Seq<u8>) -> Option<(u64, nat)> {
    if s.len() == 0 {
        None
    } else {
        let n = width_of_first(s[0]);
        if s.len() < n {
            None
        } else {
            Some((varint_value(s, n), n))
        }
    }
}

proof fn lemma_width1(v: u64)
    by (bit_vector)
    requires
        v < 0x40,
    ensures
        (((v & 0x3f) as u8) >> 6u8) == 0,
        ((((v & 0x3f) as u8) & 0x3f) as u64) == v,
{
}

proof fn lemma_width2(v: u64)
    by (bit_vector)
    requires
        v < 0x4000,
    ensures
        (((((v >> 8u64) & 0x3f) | 0x40) as u8) >> 6u8) == 1,
        ((((((((v >> 8u64) & 0x3f) | 0x40) as u8) & 0x3f) as u64) << 8u64) | (((v & 0xff) as u8) as u64))
            == v,
{
}

proof fn lemma_width4(v: u64)
    by (bit_vector)
    requires
        v < 0x4000_0000,
    ensures
        (((((v >> 24u64) & 0x3f) | 0x80) as u8) >> 6u8) == 2,
        ((((((((v >> 24u64) & 0x3f) | 0x80) as u8) & 0x3f) as u64) << 24u64) | (((((v >> 16u64)
            & 0xff) as u8) as u64) << 16u64) | (((((v >> 8u64) & 0xff) as u8) as u64) << 8u64) | (((v
            & 0xff) as u8) as u64)) == v,
{
}

proof fn lemma_width8(v: u64)
    by (bit_vector)
    requires
        v <= 0x3fffffffffffffff,
    ensures
        (((((v >> 56u64) & 0x3f) | 0xc0) as u8) >> 6u8) == 3,
        ((((((((v >> 56u64) & 0x3f) | 0xc0) as u8) & 0x3f) as u64) << 56u64) | (((((v >> 48u64)
            & 0xff) as u8) as u64) << 48u64) | (((((v >> 40u64) & 0xff) as u8) as u64) << 40u64) | ((
        (((v >> 32u64) & 0xff) as u8) as u64) << 32u64) | (((((v >> 24u64) & 0xff) as u8) as u64)
            << 24u64) | (((((v >> 16u64) & 0xff) as u8) as u64) << 16u64) | (((((v >> 8u64) & 0xff)
            as u8) as u64) << 8u64) | (((v & 0xff) as u8) as u64)) == v,
{
}

/// An encoding of `v` in any width that fits decodes back to `v`, taking
/// exactly that width.
pub proof fn lemma_decode_encode_width(v: u64, n: nat)
    requires
        fits_width(v, n),
    ensures
        encode_varint_width(v, n).len() == n,
        decode_varint(encode_varint_width(v, n)) == Some((v, n)),
{
    let s = encode_varint_width(v, n);
    if n == 1 {
        lemma_width1(v);
    } else if n == 2 {
        lemma_width2(v);
    } else if n == 4 {
        lemma_width4(v);
    } else {
        lemma_width8(v);
    }
}

/// Decoding reads only the bytes of the encoding: whatever follows is left.
pub proof fn lemma_decode_encode_prefix(v: u64, n: nat, rest: Seq<u8>)
    requires
        fits_width(v, n),
    ensures
        decode_varint(encode_varint_width(v, n) + rest) == Some((v, n)),
{
    lemma_decode_encode_width(v, n);
    let e = encode_varint_width(v, n);
    let s = e + rest;
    assert(s.subrange(0, n as int) == e);
    assert(forall|i: int| 0 <= i < n ==> s[i] == e[i]);
}

/// The shortest encoding decodes back to the value, followed by anything.
pub proof fn lemma_decode_encode(v: u64, rest: Seq<u8>)
    requires
        v <= VARINT62_MAX,
    ensures
        encode_varint(v).len() == varint_len(v),
        decode_varint(encode_varint(v) + rest) == Some((v, varint_len(v))),
{
    lemma_decode_encode_width(v, varint_len(v));
    lemma_decode_encode_prefix(v, varint_len(v), rest);
}

proof fn lemma_bound_values(a: u8, b: u8, c: u8, d: u8, e: u8, f: u8, g: u8, h: u8)
    by (bit_vector)
    ensures
        ((a & 0x3f) as u64) <= 0x3fffffffffffffff,
        ((((a & 0x3f) as u64) << 8u64) | (b as u64)) <= 0x3fffffffffffffff,
        ((((a & 0x3f) as u64) << 24u64) | ((b as u64) << 16u64) | ((c as u64) << 8u64) | (d as u64))
            <= 0x3fffffffffffffff,
        ((((a & 0x3f) as u64) << 56u64) | ((b as u64) << 48u64) | ((c as u64) << 40u64) | ((d as u64)
            << 32u64) | ((e as u64) << 24u64) | ((f as u64) << 16u64) | ((g as u64) << 8u64) | (h as u64))
            <= 0x3fffffffffffffff,
{
}

/// A decoded varint is in the 62-bit range.
pub proof fn lemma_decode_bound(s: Seq<u8>)
    ensures
        decode_varint(s) matches Some((v, n)) ==> v <= VARINT62_MAX && is_varint_width(n),
{
    if let Some((v, n)) = decode_varint(s) {
        if n == 1 {
            lemma_bound_values(s[0], 0, 0, 0, 0, 0, 0, 0);
        } else if n == 2 {
            lemma_bound_values(s[0], s[1], 0, 0, 0, 0, 0, 0);
        } else if n == 4 {
            lemma_bound_values(s[0], s[1], s[2], s[3], 0, 0, 0, 0);
        } else {
            lemma_bound_values(s[0], s[1], s[2], s[3], s[4], s[5], s[6], s[7]);
        }
    }
}

/// Shortest width of `v`: 1, 2, 4 or 8 bytes, or 0 when `v` is out of range.
pub fn get_var_int62_len(v: u64) -> (r: usize)
    ensures
        v <= VARINT62_MAX ==> r == varint_len(v),
        v > VARINT62_MAX ==> r == 0,
{
    if v > VARINT62_MAX {
        0
    } else if v < 0x40 {
        1
    } else if v < 0x4000 {
        2
    } else if v < 0x4000_0000 {
        4
    } else {
        8
    }
}

} // verus!
