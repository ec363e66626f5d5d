//! Media over QUIC Transport codec: variable-length integers, the framer
//! and parsers of control messages and object streams, and the send-order
//! keys of streams, each with its contract proved.

use vstd::prelude::*;

pub mod varint;
pub mod writer;
pub mod reader;
pub mod priority;
pub mod messages;
pub mod wire;
pub mod wire_types;
pub mod control;
pub mod framer;
pub mod fields;
pub mod decode;
pub mod parser;
pub mod data_parser;
pub mod laws;

verus! {

} // verus!
