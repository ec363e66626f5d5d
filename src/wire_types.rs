use vstd::prelude::*;
use crate::varint::{encode_varint, get_var_int62_len, VARINT62_MAX};
use crate::writer::{encode_string, DataWriter};

verus! {

/// A value that knows its wire image: how many bytes it takes, and how to
/// write them.
pub trait WireType {
    /// Whether the value can be written at all.
    spec fn wire_ok(&self) -> bool;

    /// The bytes it writes.
    spec fn wire(&self) -> Seq<u8>;

    fn get_length_on_wire(&self) -> (r: u64)
        requires
            self.wire_ok(),
            self.wire().len() <= u64::MAX,
        ensures
            r == self.wire().len(),
    ;

    /// On failure what was written so far stays in `writer`.
    fn serialize_into_writer(&self, writer: &mut DataWriter) -> (r: bool)
        ensures
            r == self.wire_ok(),
            r ==> final(writer)@ == old(writer)@ + self.wire(),
    ;
}

/// An unsigned integer of `n` bytes, big-endian.
pub open spec fn be_bytes(v: u64, n: nat) -> Seq<u8>
    decreases n,
{
    if n == 0 {
        Seq::empty()
    } else {
        be_bytes(v / 256, (n - 1) as nat).push((v % 256) as u8)
    }
}

fn write_be(writer: &mut DataWriter, v: u64, n: usize)
    requires
        n <= 8,
    ensures
        final(writer)@ == old(writer)@ + be_bytes(v, n as nat),
    decreases n,
{
    if n == 0 {
        assert(old(writer)@ + Seq::<u8>::empty() =~= old(writer)@);
        return;
    }
    write_be(writer, v / 256, n - 1);
    let ghost mid = writer@;
    writer.write_uint8((v % 256) as u8);
    assert(writer@ =~= old(writer)@ + be_bytes(v, n as nat));
}

proof fn lemma_be_len(v: u64, n: nat)
    ensures
        be_bytes(v, n).len() == n,
    decreases n,
{
    if n > 0 {
        lemma_be_len(v / 256, (n - 1) as nat);
    }
}

pub struct WireUint8 {
    pub value: u8,
}

pub struct WireUint16 {
    pub value: u16,
}

pub struct WireUint32 {
    pub value: u32,
}

pub struct WireUint64 {
    pub value: u64,
}

impl WireType for WireUint8 {
    open spec fn wire_ok(&self) -> bool {
        true
    }

    open spec fn wire(&self) -> Seq<u8> {
        seq![self.value]
    }

    fn get_length_on_wire(&self) -> (r: u64) {
        1
    }

    fn serialize_into_writer(&self, writer: &mut DataWriter) -> (r: bool) {
        writer.write_uint8(self.value);
        assert(writer@ =~= old(writer)@ + seq![self.value]);
        true
    }
}

impl WireType for WireUint16 {
    open spec fn wire_ok(&self) -> bool {
        true
    }

    open spec fn wire(&self) -> Seq<u8> {
        be_bytes(self.value as u64, 2)
    }

    fn get_length_on_wire(&self) -> (r: u64) {
        proof {
            lemma_be_len(self.value as u64, 2);
        }
        2
    }

    fn serialize_into_writer(&self, writer: &mut DataWriter) -> (r: bool) {
        write_be(writer, self.value as u64, 2);
        true
    }
}

impl WireType for WireUint32 {
    open spec fn wire_ok(&self) -> bool {
        true
    }

    open spec fn wire(&self) -> Seq<u8> {
        be_bytes(self.value as u64, 4)
    }

    fn get_length_on_wire(&self) -> (r: u64) {
        proof {
            lemma_be_len(self.value as u64, 4);
        }
        4
    }

    fn serialize_into_writer(&self, writer: &mut DataWriter) -> (r: bool) {
        write_be(writer, self.value as u64, 4);
        true
    }
}

impl WireType for WireUint64 {
    open spec fn wire_ok(&self) -> bool {
        true
    }

    open spec fn wire(&self) -> Seq<u8> {
        be_bytes(self.value, 8)
    }

    fn get_length_on_wire(&self) -> (r: u64) {
        proof {
            lemma_be_len(self.value, 8);
        }
        8
    }

    fn serialize_into_writer(&self, writer: &mut DataWriter) -> (r: bool) {
        write_be(writer, self.value, 8);
        true
    }
}

/// A varint, written at its shortest width.
pub struct WireVarInt62(pub u64);

impl WireType for WireVarInt62 {
    open spec fn wire_ok(&self) -> bool {
        self.0 <= VARINT62_MAX
    }

    open spec fn wire(&self) -> Seq<u8> {
        encode_varint(self.0)
    }

    fn get_length_on_wire(&self) -> (r: u64) {
        proof {
            crate::varint::lemma_decode_encode(self.0, Seq::empty());
        }
        get_var_int62_len(self.0) as u64
    }

    fn serialize_into_writer(&self, writer: &mut DataWriter) -> (r: bool) {
        writer.write_var_int62(self.0)
    }
}

/// Raw bytes, without a length.
pub struct WireBytes<'a>(pub &'a [u8]);

impl<'a> WireType for WireBytes<'a> {
    open spec fn wire_ok(&self) -> bool {
        true
    }

    open spec fn wire(&self) -> Seq<u8> {
        self.0@
    }

    fn get_length_on_wire(&self) -> (r: u64) {
        self.0.len() as u64
    }

    fn serialize_into_writer(&self, writer: &mut DataWriter) -> (r: bool) {
        writer.write_bytes(self.0);
        true
    }
}

/// Bytes prefixed with their length as a varint.
pub struct WireStringWithVarInt62Length<'a>(pub &'a [u8]);

impl<'a> WireType for WireStringWithVarInt62Length<'a> {
    open spec fn wire_ok(&self) -> bool {
        self.0@.len() <= VARINT62_MAX
    }

    open spec fn wire(&self) -> Seq<u8> {
        encode_string(self.0@)
    }

    fn get_length_on_wire(&self) -> (r: u64) {
        proof {
            crate::varint::lemma_decode_encode(self.0@.len() as u64, Seq::empty());
        }
        let n = self.0.len() as u64;
        get_var_int62_len(n) as u64 + n
    }

    fn serialize_into_writer(&self, writer: &mut DataWriter) -> (r: bool) {
        writer.write_string_piece_var_int62(self.0)
    }
}

/// A value that may be absent; absent, it writes nothing.
pub struct WireOptional<T> {
    pub value: Option<T>,
}

impl<T: WireType> WireType for WireOptional<T> {
    open spec fn wire_ok(&self) -> bool {
        match self.value {
            Some(v) => v.wire_ok(),
            None => true,
        }
    }

    open spec fn wire(&self) -> Seq<u8> {
        match self.value {
            Some(v) => v.wire(),
            None => Seq::empty(),
        }
    }

    fn get_length_on_wire(&self) -> (r: u64) {
        match &self.value {
            Some(v) => v.get_length_on_wire(),
            None => 0,
        }
    }

    fn serialize_into_writer(&self, writer: &mut DataWriter) -> (r: bool) {
        match &self.value {
            Some(v) => v.serialize_into_writer(writer),
            None => {
                assert(old(writer)@ + Seq::<u8>::empty() =~= old(writer)@);
                true
            },
        }
    }
}

/// The wire images of a sequence of values, one after the other.
pub open spec fn span_wire<T: WireType>(s: Seq<T>) -> Seq<u8>
    decreases s.len(),
{
    if s.len() == 0 {
        Seq::empty()
    } else {
        span_wire(s.drop_last()) + s.last().wire()
    }
}

pub open spec fn span_ok<T: WireType>(s: Seq<T>) -> bool {
    forall|i: int| 0 <= i < s.len() ==> (#[trigger] s[i]).wire_ok()
}

/// The values of a slice, each written in turn, with no count.
pub struct WireSpan<'a, T> {
    pub value: &'a [T],
}

impl<'a, T: WireType> WireType for WireSpan<'a, T> {
    open spec fn wire_ok(&self) -> bool {
        span_ok(self.value@)
    }

    open spec fn wire(&self) -> Seq<u8> {
        span_wire(self.value@)
    }

    fn get_length_on_wire(&self) -> (r: u64) {
        let mut total: u64 = 0;
        let mut i: usize = 0;
        proof {
            lemma_span_prefix_len(self.value@, 0);
        }
        while i < self.value.len()
            invariant
                i <= self.value@.len(),
                span_ok(self.value@),
                span_wire(self.value@).len() <= u64::MAX,
                total == span_wire(self.value@.subrange(0, i as int)).len(),
            decreases self.value@.len() - i,
        {
            proof {
                lemma_span_item_len(self.value@, i as int);
            }
            let n = self.value[i].get_length_on_wire();
            proof {
                let s = self.value@.subrange(0, i + 1);
                assert(s.drop_last() =~= self.value@.subrange(0, i as int));
                assert(s.last() == self.value@[i as int]);
                lemma_span_prefix_len(self.value@, i + 1);
                lemma_span_prefix_len(self.value@, i as int);
                lemma_span_item_len(self.value@, i as int);
            }
            total = total + n;
            i = i + 1;
        }
        assert(self.value@.subrange(0, i as int) =~= self.value@);
        total
    }

    fn serialize_into_writer(&self, writer: &mut DataWriter) -> (r: bool) {
        let ghost start = writer@;
        let mut i: usize = 0;
        while i < self.value.len()
            invariant
                i <= self.value@.len(),
                forall|j: int| 0 <= j < i ==> (#[trigger] self.value@[j]).wire_ok(),
                writer@ == start + span_wire(self.value@.subrange(0, i as int)),
            decreases self.value@.len() - i,
        {
            if !self.value[i].serialize_into_writer(writer) {
                return false;
            }
            proof {
                let s = self.value@.subrange(0, i + 1);
                assert(s.drop_last() =~= self.value@.subrange(0, i as int));
                assert(s.last() == self.value@[i as int]);
            }
            i = i + 1;
            assert(writer@ =~= start + span_wire(self.value@.subrange(0, i as int)));
        }
        assert(self.value@.subrange(0, i as int) =~= self.value@);
        true
    }
}

/// One value's image is no longer than the images of the sequence.
proof fn lemma_span_item_len<T: WireType>(s: Seq<T>, k: int)
    requires
        0 <= k < s.len(),
    ensures
        span_wire(s.subrange(0, k)).len() + s[k].wire().len() == span_wire(s.subrange(0, k + 1)).len(),
        s[k].wire().len() <= span_wire(s).len(),
{
    let t = s.subrange(0, k + 1);
    assert(t.drop_last() =~= s.subrange(0, k));
    assert(t.last() == s[k]);
    lemma_span_prefix_len(s, k + 1);
}

/// The images of a prefix are no longer than those of the whole sequence.
proof fn lemma_span_prefix_len<T: WireType>(s: Seq<T>, k: int)
    requires
        0 <= k <= s.len(),
    ensures
        span_wire(s.subrange(0, k)).len() <= span_wire(s).len(),
    decreases s.len(),
{
    if k < s.len() {
        assert(s.drop_last().subrange(0, k) =~= s.subrange(0, k));
        lemma_span_prefix_len(s.drop_last(), k);
    } else {
        assert(s.subrange(0, k) =~= s);
    }
}

/// Writes a value in two passes: the length first, a buffer of exactly that
/// size next, then the bytes; `None` when the value cannot be written.
pub fn serialize_into_buffer<T: WireType>(value: &T) -> (r: Option<Vec<u8>>)
    ensures
        r is Some == value.wire_ok(),
        r matches Some(b) ==> b@ == value.wire(),
{
    let mut writer = DataWriter::new();
    if !value.serialize_into_writer(&mut writer) {
        return None;
    }
    let written = writer.length();
    let size = value.get_length_on_wire();
    assert(written as u64 == size);
    Some(writer.into_bytes())
}

} // verus!
