use vstd::prelude::*;
use crate::varint::{
    encode_varint, encode_varint_width, fits_width, get_var_int62_len, VARINT62_MAX,
};

verus! {

/// A length-prefixed byte string: its length as a varint, then the bytes.
pub open spec fn encode_string(b: Seq<u8>) -> Seq<u8> {
    encode_varint(b.len() as u64) + b
}

/// An append-only byte sink: every write adds its bytes at the end.
pub struct DataWriter {
    buffer: Vec<u8>,
}

impl View for DataWriter {
    type V = Seq<u8>;

    closed spec fn view(&self) -> Seq<u8> {
        self.buffer@
    }
}

impl DataWriter {
    pub fn new() -> (r: DataWriter)
        ensures
            r@ == Seq::<u8>::empty(),
    {
        DataWriter { buffer: Vec::new() }
    }

    /// Starts with room reserved for `capacity` bytes.
    pub fn with_capacity(capacity: usize) -> (r: DataWriter)
        ensures
            r@ == Seq::<u8>::empty(),
    {
        DataWriter { buffer: Vec::with_capacity(capacity) }
    }

    /// Number of bytes written so far.
    pub fn length(&self) -> (r: usize)
        ensures
            r == self@.len(),
    {
        self.buffer.len()
    }

    /// Hands out what was written.
    pub fn into_bytes(self) -> (r: Vec<u8>)
        ensures
            r@ == self@,
    {
        self.buffer
    }

    pub fn write_uint8(&mut self, value: u8)
        ensures
            final(self)@ == old(self)@.push(value),
    {
        self.buffer.push(value);
    }

    pub fn write_bytes(&mut self, data: &[u8])
        ensures
            final(self)@ == old(self)@ + data@,
    {
        let ghost start = self.buffer@;
        let mut i: usize = 0;
        while i < data.len()
            invariant
                i <= data@.len(),
                self.buffer@ == start + data@.subrange(0, i as int),
            decreases data@.len() - i,
        {
            self.buffer.push(data[i]);
            i = i + 1;
            assert(self.buffer@ =~= start + data@.subrange(0, i as int));
        }
        assert(data@.subrange(0, i as int) =~= data@);
    }

    /// Writes `value` in `width` bytes; fails, writing nothing, when the
    /// width is not 1, 2, 4 or 8 or the value does not fit in it.
    pub fn write_var_int62_with_forced_length(&mut self, value: u64, width: usize) -> (r: bool)
        ensures
            r == fits_width(value, width as nat),
            r ==> final(self)@ == old(self)@ + encode_varint_width(value, width as nat),
            !r ==> final(self)@ == old(self)@,
    {
        let min_len = get_var_int62_len(value);
        if min_len == 0 || width < min_len || !(width == 1 || width == 2 || width == 4
            || width == 8) {
            return false;
        }
        let ghost start = self.buffer@;
        if width == 1 {
            self.buffer.push((value & 0x3f) as u8);
        } else if width == 2 {
            self.buffer.push((((value >> 8u64) & 0x3f) | 0x40) as u8);
            self.buffer.push((value & 0xff) as u8);
        } else if width == 4 {
            self.buffer.push((((value >> 24u64) & 0x3f) | 0x80) as u8);
            self.buffer.push(((value >> 16u64) & 0xff) as u8);
            self.buffer.push(((value >> 8u64) & 0xff) as u8);
            self.buffer.push((value & 0xff) as u8);
        } else {
            self.buffer.push((((value >> 56u64) & 0x3f) | 0xc0) as u8);
            self.buffer.push(((value >> 48u64) & 0xff) as u8);
            self.buffer.push(((value >> 40u64) & 0xff) as u8);
            self.buffer.push(((value >> 32u64) & 0xff) as u8);
            self.buffer.push(((value >> 24u64) & 0xff) as u8);
            self.buffer.push(((value >> 16u64) & 0xff) as u8);
            self.buffer.push(((value >> 8u64) & 0xff) as u8);
            self.buffer.push((value & 0xff) as u8);
        }
        assert(self.buffer@ =~= start + encode_varint_width(value, width as nat));
        true
    }

    /// Writes the shortest encoding of `value`; fails, writing nothing, when
    /// `value` exceeds the 62-bit range.
    pub fn write_var_int62(&mut self, value: u64) -> (r: bool)
        ensures
            r == (value <= VARINT62_MAX),
            r ==> final(self)@ == old(self)@ + encode_varint(value),
            !r ==> final(self)@ == old(self)@,
    {
        let width = get_var_int62_len(value);
        if width == 0 {
            return false;
        }
        self.write_var_int62_with_forced_length(value, width)
    }

    /// Writes a varint that is known to be in range.
    pub fn put_var_int62(&mut self, value: u64)
        requires
            value <= VARINT62_MAX,
        ensures
            final(self)@ == old(self)@ + encode_varint(value),
    {
        let _ = self.write_var_int62(value);
    }

    /// Writes `data` prefixed by its length as a varint.
    pub fn write_string_piece_var_int62(&mut self, data: &[u8]) -> (r: bool)
        ensures
            r == (data@.len() <= VARINT62_MAX),
            r ==> final(self)@ == old(self)@ + encode_string(data@),
            !r ==> final(self)@ == old(self)@,
    {
        let ghost start = self@;
        if !self.write_var_int62(data.len() as u64) {
            return false;
        }
        self.write_bytes(data);
        assert(self@ =~= start + encode_string(data@));
        true
    }
}

} // verus!
