//! The two packed bytes of the format: the connect-flags byte and the first
//! byte of a publication. Each has a pack and an unpack function, and
//! unpacking what was packed gives the fields back.

use vstd::prelude::*;
use crate::types::DecodeError;
use crate::types::QoS;

verus! {

/// The fields of the connect-flags byte.
///
/// Bit 7 says a user name follows, bit 6 a password, bit 5 that the will is
/// retained, bits 4 and 3 hold the will's level, bit 2 says a will follows,
/// bit 1 asks for a clean session, and bit 0 is reserved and zero.
#[derive(Clone, Copy, Debug, PartialEq, Eq, Structural)]
pub struct ConnectFlags {
    pub username: bool,
    pub password: bool,
    pub will_retain: bool,
    pub will_qos: QoS,
    pub will: bool,
    pub clean_session: bool,
}

impl ConnectFlags {
    /// Without a will, the will's two fields are at rest.
    pub open spec fn wf(self) -> bool {
        !self.will ==> !self.will_retain && self.will_qos == QoS::AtMostOnce
    }

    /// The byte that holds these fields.
    pub open spec fn spec_bits(self) -> u8 {
        ((if self.username { 128int } else { 0 }) + (if self.password { 64int } else { 0 })
            + (if self.will_retain { 32int } else { 0 }) + 8 * self.will_qos.value()
            + (if self.will { 4int } else { 0 })
            + (if self.clean_session { 2int } else { 0 })) as u8
    }

    /// The fields that a byte holds; none when the reserved bit is set, the
    /// will's level is 3, or a field of the will is set without a will.
    pub open spec fn spec_from_bits(b: u8) -> Option<ConnectFlags> {
        match QoS::of(b / 8 % 4) {
            Some(qos) => {
                let flags = ConnectFlags {
                    username: b / 128 == 1,
                    password: b / 64 % 2 == 1,
                    will_retain: b / 32 % 2 == 1,
                    will_qos: qos,
                    will: b / 4 % 2 == 1,
                    clean_session: b / 2 % 2 == 1,
                };
                if b % 2 == 0 && flags.wf() {
                    Some(flags)
                } else {
                    None
                }
            },
            None => None,
        }
    }

    /// Packs the fields into their byte.
    pub fn bits(self) -> (b: u8)
        ensures
            b == self.spec_bits(),
    {
        let mut b: u8 = 8 * self.will_qos.to_u8();
        if self.username {
            b = b + 128;
        }
        if self.password {
            b = b + 64;
        }
        if self.will_retain {
            b = b + 32;
        }
        if self.will {
            b = b + 4;
        }
        if self.clean_session {
            b = b + 2;
        }
        b
    }

    /// Unpacks a byte into its fields.
    pub fn from_bits(b: u8) -> (r: Option<ConnectFlags>)
        ensures
            r == ConnectFlags::spec_from_bits(b),
    {
        match QoS::from_u8(b / 8 % 4) {
            Some(qos) => {
                let flags = ConnectFlags {
                    username: b / 128 == 1,
                    password: b / 64 % 2 == 1,
                    will_retain: b / 32 % 2 == 1,
                    will_qos: qos,
                    will: b / 4 % 2 == 1,
                    clean_session: b / 2 % 2 == 1,
                };
                if b % 2 == 0 && (flags.will || (!flags.will_retain && b / 8 % 4 == 0)) {
                    Some(flags)
                } else {
                    None
                }
            },
            None => None,
        }
    }

    /// Unpacking a packed byte gives the fields back.
    pub proof fn lemma_round_trip(self)
        requires
            self.wf(),
        ensures
            ConnectFlags::spec_from_bits(self.spec_bits()) == Some(self),
    {
    }
}

/// First byte of a publication: packet type three in the upper half, then the
/// duplicate flag, the level in two bits, and the retain flag.
pub open spec fn publish_first_byte(dup: bool, qos: QoS, retain: bool) -> u8 {
    (48 + (if dup { 8int } else { 0 }) + 2 * qos.value() + (if retain { 1int } else { 0 })) as u8
}

/// The flags in the lower half of a publication's first byte; an error for
/// level 3, and for a duplicate at level 0.
pub open spec fn publish_flags_of(first_byte: u8) -> Result<(bool, QoS, bool), DecodeError> {
    let dup = first_byte / 8 % 2 == 1;
    match QoS::of(first_byte / 2 % 4) {
        Some(qos) => if dup && qos == QoS::AtMostOnce {
            Err(DecodeError::MalformedPacket)
        } else {
            Ok((dup, qos, first_byte % 2 == 1))
        },
        None => Err(DecodeError::MalformedPacket),
    }
}

/// Packs the first byte of a publication.
pub fn pack_publish_first_byte(dup: bool, qos: QoS, retain: bool) -> (b: u8)
    ensures
        b == publish_first_byte(dup, qos, retain),
        0x30 <= b <= 0x3f,
{
    let mut b: u8 = 48 + 2 * qos.to_u8();
    if dup {
        b = b + 8;
    }
    if retain {
        b = b + 1;
    }
    b
}

/// Unpacks the flags of a publication's first byte.
pub fn unpack_publish_flags(first_byte: u8) -> (r: Result<(bool, QoS, bool), DecodeError>)
    ensures
        r == publish_flags_of(first_byte),
{
    let dup: bool = first_byte / 8 % 2 == 1;
    match QoS::from_u8(first_byte / 2 % 4) {
        Some(qos) => {
            if dup && first_byte / 2 % 4 == 0 {
                Err(DecodeError::MalformedPacket)
            } else {
                Ok((dup, qos, first_byte % 2 == 1))
            }
        },
        None => Err(DecodeError::MalformedPacket),
    }
}

/// Unpacking a packed first byte gives the flags back, unless they mark a
/// duplicate at level 0.
pub proof fn lemma_publish_flags_round_trip(dup: bool, qos: QoS, retain: bool)
    requires
        !(dup && qos == QoS::AtMostOnce),
    ensures
        publish_flags_of(publish_first_byte(dup, qos, retain)) == Ok::<_, DecodeError>(
            (dup, qos, retain),
        ),
{
}

} // verus!
