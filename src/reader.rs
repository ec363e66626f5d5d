use vstd::prelude::*;
use crate::varint::{
    decode_varint, encode_varint, lemma_decode_encode, varint_len, width_of_first, VARINT62_MAX,
};
use crate::writer::encode_string;

verus! {

/// A forward cursor over a borrowed byte buffer.
pub struct DataReader<'a> {
    data: &'a [u8],
    pos: usize,
}

/// Decoding of a length-prefixed byte string at the start of `s`: the bytes
/// and the number of bytes taken, or `None` when `s` ends too early.
pub open spec fn decode_string(s: Seq<u8>) -> Option<(Seq<u8>, nat)> {
    match decode_varint(s) {
        Some((len, n)) => if n + len <= s.len() {
            Some((s.subrange(n as int, n + len), (n + len) as nat))
        } else {
            None
        },
        None => None,
    }
}

/// A length-prefixed string decodes back, whatever follows it.
pub proof fn lemma_decode_string(b: Seq<u8>, rest: Seq<u8>)
    requires
        b.len() <= VARINT62_MAX,
    ensures
        decode_string(encode_string(b) + rest) == Some((b, encode_string(b).len())),
        encode_string(b).len() == varint_len(b.len() as u64) + b.len(),
{
    let e = encode_varint(b.len() as u64);
    lemma_decode_encode(b.len() as u64, b + rest);
    assert(encode_string(b) + rest =~= e + (b + rest));
    let s = encode_string(b) + rest;
    let n = varint_len(b.len() as u64);
    assert(s.subrange(n as int, (n + b.len()) as int) =~= b);
}

impl<'a> DataReader<'a> {
    /// The whole buffer.
    pub closed spec fn data(&self) -> Seq<u8> {
        self.data@
    }

    /// Bytes consumed so far.
    pub closed spec fn pos(&self) -> nat {
        self.pos as nat
    }

    pub closed spec fn wf(&self) -> bool {
        self.pos <= self.data@.len()
    }

    /// What is left to read.
    pub open spec fn rest(&self) -> Seq<u8> {
        self.data().subrange(self.pos() as int, self.data().len() as int)
    }

    pub fn new(data: &'a [u8]) -> (r: DataReader<'a>)
        ensures
            r.wf(),
            r.data() == data@,
            r.pos() == 0,
            r.rest() == data@,
    {
        let r = DataReader { data, pos: 0 };
        assert(r.rest() =~= data@);
        r
    }

    /// Number of bytes consumed so far.
    pub fn bytes_read(&self) -> (r: usize)
        requires
            self.wf(),
        ensures
            r == self.pos(),
    {
        self.pos
    }

    /// Number of bytes left.
    pub fn remaining(&self) -> (r: usize)
        requires
            self.wf(),
        ensures
            r == self.rest().len(),
            self.pos() + r == self.data().len(),
    {
        self.data.len() - self.pos
    }

    pub fn can_read(&self, n: usize) -> (r: bool)
        requires
            self.wf(),
        ensures
            r == (n <= self.rest().len()),
    {
        n <= self.data.len() - self.pos
    }

    pub fn read_uint8(&mut self) -> (r: Option<u8>)
        requires
            old(self).wf(),
        ensures
            final(self).wf(),
            final(self).data() == old(self).data(),
            old(self).rest().len() == 0 ==> r is None && final(self).pos() == old(self).pos(),
            old(self).rest().len() > 0 ==> r == Some(old(self).rest()[0]) && final(self).pos()
                == old(self).pos() + 1 && final(self).rest() == old(self).rest().subrange(
                1,
                old(self).rest().len() as int,
            ),
    {
        if self.pos >= self.data.len() {
            return None;
        }
        let b = self.data[self.pos];
        let ghost s = self.rest();
        self.pos = self.pos + 1;
        assert(self.rest() =~= s.subrange(1, s.len() as int));
        Some(b)
    }

    /// Width of the varint that starts here, or 0 at the end of the buffer.
    pub fn peek_var_int62_length(&self) -> (r: usize)
        requires
            self.wf(),
        ensures
            self.rest().len() == 0 ==> r == 0,
            self.rest().len() > 0 ==> r == width_of_first(self.rest()[0]),
    {
        if self.pos >= self.data.len() {
            return 0;
        }
        let tag = self.data[self.pos] >> 6u8;
        if tag == 0 {
            1
        } else if tag == 1 {
            2
        } else if tag == 2 {
            4
        } else {
            8
        }
    }

    pub fn read_var_int62(&mut self) -> (r: Option<u64>)
        requires
            old(self).wf(),
        ensures
            final(self).wf(),
            final(self).data() == old(self).data(),
            match decode_varint(old(self).rest()) {
                Some((v, n)) => r == Some(v) && final(self).pos() == old(self).pos() + n
                    && final(self).rest() == old(self).rest().subrange(
                    n as int,
                    old(self).rest().len() as int,
                ),
                None => r is None && final(self).pos() == old(self).pos(),
            },
    {
        let ghost s = self.rest();
        let n = self.peek_var_int62_length();
        if n == 0 || n > self.data.len() - self.pos {
            return None;
        }
        let p = self.pos;
        let d = self.data;
        let b0 = (d[p] & 0x3f) as u64;
        let v = if n == 1 {
            b0
        } else if n == 2 {
            (b0 << 8u64) | (d[p + 1] as u64)
        } else if n == 4 {
            (b0 << 24u64) | ((d[p + 1] as u64) << 16u64) | ((d[p + 2] as u64) << 8u64) | (d[p
                + 3] as u64)
        } else {
            (b0 << 56u64) | ((d[p + 1] as u64) << 48u64) | ((d[p + 2] as u64) << 40u64) | ((d[p
                + 3] as u64) << 32u64) | ((d[p + 4] as u64) << 24u64) | ((d[p + 5] as u64)
                << 16u64) | ((d[p + 6] as u64) << 8u64) | (d[p + 7] as u64)
        };
        self.pos = p + n;
        assert(self.rest() =~= s.subrange(n as int, s.len() as int));
        Some(v)
    }

    /// Reads an unsigned integer of `n` bytes, big-endian.
    pub fn read_uint(&mut self, n: usize) -> (r: Option<u64>)
        requires
            old(self).wf(),
            n <= 8,
        ensures
            final(self).wf(),
            final(self).data() == old(self).data(),
            n <= old(self).rest().len() ==> r == Some(be_value(old(self).rest().subrange(0, n as int)) as u64)
                && final(self).rest() == old(self).rest().subrange(n as int, old(self).rest().len() as int),
            n > old(self).rest().len() ==> r is None && final(self).pos() == old(self).pos(),
    {
        if n > self.data.len() - self.pos {
            return None;
        }
        let ghost s = self.rest();
        let p = self.pos;
        let d = self.data;
        assert(p + n <= d.len());
        let mut v: u64 = 0;
        let mut i: usize = 0;
        while i < n
            invariant
                self.wf(),
                s == self.rest(),
                i <= n,
                n <= 8,
                n <= s.len(),
                p == self.pos,
                d == self.data,
                p + n <= d.len(),
                v as nat == be_value(s.subrange(0, i as int)),
            decreases n - i,
        {
            proof {
                lemma_be_value_bound(s.subrange(0, i as int));
                assert(pow256(i as nat) <= pow256(7)) by {
                    lemma_pow256_mono(i as nat, 7);
                }
                reveal_with_fuel(pow256, 8);
                let t = s.subrange(0, i + 1);
                assert(t.drop_last() =~= s.subrange(0, i as int));
            }
            v = v * 256 + d[p + i] as u64;
            i = i + 1;
        }
        let ghost start_pos = self.pos;
        self.pos = self.pos + n;
        assert(self.rest() =~= s.subrange(n as int, s.len() as int));
        Some(v)
    }

    pub fn read_uint16(&mut self) -> (r: Option<u16>)
        requires
            old(self).wf(),
        ensures
            final(self).wf(),
            final(self).data() == old(self).data(),
            2 <= old(self).rest().len() ==> r == Some(be_value(old(self).rest().subrange(0, 2)) as u16)
                && final(self).rest() == old(self).rest().subrange(2, old(self).rest().len() as int),
            2 > old(self).rest().len() ==> r is None,
    {
        proof {
            if 2 <= old(self).rest().len() {
                lemma_be_value_bound(old(self).rest().subrange(0, 2));
                reveal_with_fuel(pow256, 3);
            }
        }
        match self.read_uint(2) {
            Some(v) => Some(v as u16),
            None => None,
        }
    }

    pub fn read_uint32(&mut self) -> (r: Option<u32>)
        requires
            old(self).wf(),
        ensures
            final(self).wf(),
            final(self).data() == old(self).data(),
            4 <= old(self).rest().len() ==> r == Some(be_value(old(self).rest().subrange(0, 4)) as u32)
                && final(self).rest() == old(self).rest().subrange(4, old(self).rest().len() as int),
            4 > old(self).rest().len() ==> r is None,
    {
        proof {
            if 4 <= old(self).rest().len() {
                lemma_be_value_bound(old(self).rest().subrange(0, 4));
                reveal_with_fuel(pow256, 5);
            }
        }
        match self.read_uint(4) {
            Some(v) => Some(v as u32),
            None => None,
        }
    }

    pub fn read_uint64(&mut self) -> (r: Option<u64>)
        requires
            old(self).wf(),
        ensures
            final(self).wf(),
            final(self).data() == old(self).data(),
            8 <= old(self).rest().len() ==> r == Some(be_value(old(self).rest().subrange(0, 8)) as u64)
                && final(self).rest() == old(self).rest().subrange(8, old(self).rest().len() as int),
            8 > old(self).rest().len() ==> r is None,
    {
        self.read_uint(8)
    }

    /// Reads the next `n` bytes.
    pub fn read_bytes(&mut self, n: u64) -> (r: Option<Vec<u8>>)
        requires
            old(self).wf(),
        ensures
            final(self).wf(),
            final(self).data() == old(self).data(),
            n <= old(self).rest().len() ==> r is Some && r->0@ == old(self).rest().subrange(0, n as int)
                && final(self).pos() == old(self).pos() + n,
            n > old(self).rest().len() ==> r is None && final(self).pos() == old(self).pos(),
    {
        if n > (self.data.len() - self.pos) as u64 {
            return None;
        }
        let n = n as usize;
        let p = self.pos;
        let d = self.data;
        assert(p + n <= d.len());
        let mut out: Vec<u8> = Vec::with_capacity(n);
        let mut i: usize = 0;
        while i < n
            invariant
                self.wf(),
                i <= n,
                n <= self.rest().len(),
                p == self.pos,
                d == self.data,
                p + n <= d.len(),
                out@ == self.rest().subrange(0, i as int),
            decreases n - i,
        {
            out.push(d[p + i]);
            i = i + 1;
            assert(out@ =~= self.rest().subrange(0, i as int));
        }
        self.pos = self.pos + n;
        Some(out)
    }

    /// Reads a byte string prefixed with its length as a varint.
    pub fn read_string_var_int62(&mut self) -> (r: Option<Vec<u8>>)
        requires
            old(self).wf(),
        ensures
            final(self).wf(),
            final(self).data() == old(self).data(),
            match decode_string(old(self).rest()) {
                Some((b, n)) => r is Some && r->0@ == b && final(self).pos() == old(self).pos() + n
                    && final(self).rest() == old(self).rest().subrange(
                    n as int,
                    old(self).rest().len() as int,
                ),
                None => r is None,
            },
    {
        let ghost s = self.rest();
        let len = match self.read_var_int62() {
            Some(len) => len,
            None => return None,
        };
        let ghost mid_pos = self.pos();
        assert(self.rest() =~= s.subrange(mid_pos - old(self).pos(), s.len() as int));
        let r = self.read_bytes(len);
        proof {
            if r is Some {
                assert(self.rest() =~= s.subrange(mid_pos - old(self).pos() + len, s.len() as int));
                assert(r->0@ =~= s.subrange(mid_pos - old(self).pos(), mid_pos - old(self).pos() + len));
            }
        }
        r
    }

    /// Reads everything that is left.
    pub fn read_remaining_payload(&mut self) -> (r: Vec<u8>)
        requires
            old(self).wf(),
        ensures
            final(self).wf(),
            final(self).data() == old(self).data(),
            r@ == old(self).rest(),
            final(self).rest().len() == 0,
    {
        let n = (self.data.len() - self.pos) as u64;
        let r = self.read_bytes(n);
        match r {
            Some(v) => {
                assert(v@ =~= old(self).rest());
                v
            },
            None => Vec::new(),
        }
    }
}

/// The value of `s` read as a big-endian unsigned integer.
pub open spec fn be_value(s: Seq<u8>) -> nat
    decreases s.len(),
{
    if s.len() == 0 {
        0
    } else {
        (be_value(s.drop_last()) * 256 + s.last()) as nat
    }
}

proof fn lemma_be_value_bound(s: Seq<u8>)
    ensures
        be_value(s) < pow256(s.len()),
    decreases s.len(),
{
    if s.len() > 0 {
        lemma_be_value_bound(s.drop_last());
        let a = be_value(s.drop_last());
        let p = pow256((s.len() - 1) as nat);
        assert(a * 256 + s.last() < p * 256) by (nonlinear_arith)
            requires
                a < p,
                s.last() < 256,
        ;
    }
}

proof fn lemma_pow256_mono(a: nat, b: nat)
    requires
        a <= b,
    ensures
        pow256(a) <= pow256(b),
    decreases b,
{
    if a < b {
        lemma_pow256_mono(a, (b - 1) as nat);
    }
}

pub open spec fn pow256(n: nat) -> nat
    decreases n,
{
    if n == 0 {
        1
    } else {
        pow256((n - 1) as nat) * 256
    }
}

} // verus!
