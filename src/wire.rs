use vstd::prelude::*;
use crate::varint::{encode_varint, varint_len, VARINT62_MAX};
use crate::writer::encode_string;

verus! {

/// Whether `v` can be written as a varint.
pub open spec fn vi_ok(v: u64) -> bool {
    v <= VARINT62_MAX
}

/// Whether `b` can be written as a length-prefixed string.
pub open spec fn str_ok(b: Seq<u8>) -> bool {
    b.len() <= VARINT62_MAX
}

/// The strings of `t`, each length-prefixed, one after the other.
pub open spec fn encode_strings(t: Seq<Seq<u8>>) -> Seq<u8>
    decreases t.len(),
{
    if t.len() == 0 {
        Seq::empty()
    } else {
        encode_strings(t.drop_last()) + encode_string(t.last())
    }
}

/// Whether every string of `t` can be written.
pub open spec fn strings_ok(t: Seq<Seq<u8>>) -> bool {
    forall|i: int| 0 <= i < t.len() ==> str_ok(#[trigger] t[i])
}

/// A name tuple on the wire: `count`, then every element. A full track name
/// counts only its namespace, its last element being the track name.
pub open spec fn encode_tuple(t: Seq<Seq<u8>>, count: nat) -> Seq<u8> {
    encode_varint(count as u64) + encode_strings(t)
}

/// An integer parameter: key, the width of the value, the value.
pub open spec fn encode_int_param(key: u64, v: u64) -> Seq<u8> {
    encode_varint(key) + encode_varint(varint_len(v) as u64) + encode_varint(v)
}

/// A byte-string parameter: key, then the length-prefixed value.
pub open spec fn encode_string_param(key: u64, b: Seq<u8>) -> Seq<u8> {
    encode_varint(key) + encode_string(b)
}

/// An optional integer parameter: nothing when absent.
pub open spec fn encode_opt_int_param(key: u64, v: Option<u64>) -> Seq<u8> {
    match v {
        Some(x) => encode_int_param(key, x),
        None => Seq::empty(),
    }
}

pub open spec fn opt_count<T>(v: Option<T>) -> nat {
    if v is Some {
        1
    } else {
        0
    }
}

pub open spec fn opt_vi_ok(v: Option<u64>) -> bool {
    match v {
        Some(x) => vi_ok(x),
        None => true,
    }
}

/// The group-order byte: 0 for the publisher's choice, 1 ascending, 2 descending.
pub open spec fn delivery_order_byte(o: Option<crate::priority::MoqtDeliveryOrder>) -> u8 {
    match o {
        None => 0,
        Some(crate::priority::MoqtDeliveryOrder::kAscending) => 1,
        Some(crate::priority::MoqtDeliveryOrder::kDescending) => 2,
    }
}

/// A control message on the wire: type, payload length, payload.
pub open spec fn control_frame(tag: u64, payload: Seq<u8>) -> Seq<u8> {
    encode_varint(tag) + encode_varint(payload.len() as u64) + payload
}

/// An optional end value shifted by one: 0 for none, `n + 1` for `n`.
pub open spec fn shifted(v: Option<u64>) -> u64 {
    match v {
        Some(x) => (x + 1) as u64,
        None => 0,
    }
}

pub open spec fn shifted_ok(v: Option<u64>) -> bool {
    match v {
        Some(x) => x < VARINT62_MAX,
        None => true,
    }
}

/// The signed-varint form: the magnitude shifted up, the sign in the low bit.
pub open spec fn signed_form(v: i64) -> int {
    if v < 0 {
        -2 * v + 1
    } else {
        2 * v
    }
}

} // verus!
