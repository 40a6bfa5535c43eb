//! First byte of the fixed header, per packet kind: the kind in the upper
//! four bits, the flags the protocol fixes for it in the lower four.

use vstd::prelude::*;

verus! {

pub const CONNECT: u8 = 0x10;
pub const CONNACK: u8 = 0x20;
pub const PUBLISH_START: u8 = 0x30;
pub const PUBLISH_END: u8 = 0x3f;
pub const PUBACK: u8 = 0x40;
pub const PUBREC: u8 = 0x50;
pub const PUBREL: u8 = 0x62;
pub const PUBCOMP: u8 = 0x70;
pub const SUBSCRIBE: u8 = 0x82;
pub const SUBACK: u8 = 0x90;
pub const UNSUBSCRIBE: u8 = 0xa2;
pub const UNSUBACK: u8 = 0xb0;
pub const PINGREQ: u8 = 0xc0;
pub const PINGRESP: u8 = 0xd0;
pub const DISCONNECT: u8 = 0xe0;

} // verus!
