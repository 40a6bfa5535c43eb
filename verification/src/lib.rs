//! Wire-format layer of an MQTT 3.1.1 implementation: the packet model, a
//! byte-exact encoder and decoder, and the control requests handed to a
//! protocol handler.

pub mod buffer;
pub mod control;
pub mod decode;
pub mod encode;
pub mod flags;
pub mod packet_type;
pub mod parse;
pub mod roundtrip;
pub mod types;
pub mod varlen;
pub mod wire;
