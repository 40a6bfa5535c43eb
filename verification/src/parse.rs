//! Reading the wire format, stated over plain values: which packet a
//! sequence of bytes stands for, and why it stands for none.

use vstd::prelude::*;
use vstd::utf8::valid_utf8;
use crate::flags::publish_flags_of;
use crate::flags::ConnectFlags;
use crate::types::ConnectAckReason;
use crate::types::ConnectModel;
use crate::types::DecodeError;
use crate::types::LastWillModel;
use crate::types::PacketModel;
use crate::types::PublishModel;
use crate::types::QoS;
use crate::types::SubscribeReturnCode;
use crate::types::MQTT_LEVEL;
use crate::varlen::var_len_parse;
use crate::wire::field;
use crate::wire::protocol_name;

verus! {

/// The 16-bit integer whose two bytes, most significant first, stand at
/// `pos`.
pub open spec fn u16_at(s: Seq<u8>, pos: int) -> u16 {
    (s[pos] * 256 + s[pos + 1]) as u16
}

/// The length-prefixed field that starts at `pos`, and the place after it;
/// none when the prefix or the announced bytes run past the end.
pub open spec fn parse_field(s: Seq<u8>, pos: int) -> Option<(Seq<u8>, int)> {
    if 0 <= pos && pos + 2 <= s.len() && pos + 2 + u16_at(s, pos) <= s.len() {
        Some((s.subrange(pos + 2, pos + 2 + u16_at(s, pos)), pos + 2 + u16_at(s, pos)))
    } else {
        None
    }
}

/// Whether `s` is the UTF-8 encoding of a string.
#[verifier::opaque]
pub open spec fn is_utf8(s: Seq<u8>) -> bool {
    valid_utf8(s)
}

/// The length-prefixed string that starts at `pos`, and the place after
/// it; none when the field is cut short or is not valid UTF-8.
pub open spec fn parse_text(s: Seq<u8>, pos: int) -> Option<(Seq<u8>, int)> {
    match parse_field(s, pos) {
        Some((f, next)) => if is_utf8(f) {
            Some((f, next))
        } else {
            None
        },
        None => None,
    }
}

/// The packet identifier at `pos`; none when it is cut short or zero.
pub open spec fn parse_packet_id(s: Seq<u8>, pos: int) -> Option<u16> {
    if 0 <= pos && pos + 2 <= s.len() && u16_at(s, pos) != 0 {
        Some(u16_at(s, pos))
    } else {
        None
    }
}

/// The subscription requests that fill `s` from `pos` to its end; none
/// when a request is cut short, its filter is not valid UTF-8, or its
/// level is not one of the three.
pub open spec fn parse_filters(s: Seq<u8>, pos: int) -> Option<Seq<(Seq<u8>, QoS)>>
    decreases s.len() - pos,
{
    if pos >= s.len() {
        Some(Seq::empty())
    } else {
        match parse_text(s, pos) {
            Some((t, next)) => if next < s.len() {
                match (QoS::of(s[next]), parse_filters(s, next + 1)) {
                    (Some(q), Some(rest)) => Some(seq![(t, q)] + rest),
                    _ => None,
                }
            } else {
                None
            },
            None => None,
        }
    }
}

/// The topic filters that fill `s` from `pos` to its end; none when a
/// filter is cut short or is not valid UTF-8.
pub open spec fn parse_topics(s: Seq<u8>, pos: int) -> Option<Seq<Seq<u8>>>
    decreases s.len() - pos,
{
    if pos >= s.len() {
        Some(Seq::empty())
    } else {
        match parse_text(s, pos) {
            Some((t, next)) => match parse_topics(s, next) {
                Some(rest) => Some(seq![t] + rest),
                None => None,
            },
            None => None,
        }
    }
}

/// Whether every byte of `s` from `pos` on is a subscription status.
pub open spec fn all_status(s: Seq<u8>, pos: int) -> bool {
    forall|i: int| pos <= i < s.len() ==> SubscribeReturnCode::of(#[trigger] s[i]) is Some
}

/// The subscription outcomes that the bytes of `s` from `pos` on stand for.
pub open spec fn status_at(s: Seq<u8>, pos: int) -> Seq<SubscribeReturnCode> {
    Seq::new((s.len() - pos) as nat, |i: int| SubscribeReturnCode::of(s[pos + i]).unwrap())
}

/// The optional string at `pos`: absent, and nothing read, unless
/// `present`.
pub open spec fn parse_opt_text(s: Seq<u8>, pos: int, present: bool) -> Option<
    (Option<Seq<u8>>, int),
> {
    if present {
        match parse_text(s, pos) {
            Some((t, next)) => Some((Some(t), next)),
            None => None,
        }
    } else {
        Some((None, pos))
    }
}

/// The optional buffer at `pos`: absent, and nothing read, unless
/// `present`.
pub open spec fn parse_opt_field(s: Seq<u8>, pos: int, present: bool) -> Option<
    (Option<Seq<u8>>, int),
> {
    if present {
        match parse_field(s, pos) {
            Some((t, next)) => Some((Some(t), next)),
            None => None,
        }
    } else {
        Some((None, pos))
    }
}

/// The will at `pos`, topic then message: absent, and nothing read, unless
/// the flags announce one.
pub open spec fn parse_will(s: Seq<u8>, pos: int, flags: ConnectFlags) -> Option<
    (Option<LastWillModel>, int),
> {
    if flags.will {
        match parse_text(s, pos) {
            Some((topic, next)) => match parse_field(s, next) {
                Some((message, after)) => Some(
                    (
                        Some(
                            LastWillModel {
                                qos: flags.will_qos,
                                retain: flags.will_retain,
                                topic,
                                message,
                            },
                        ),
                        after,
                    ),
                ),
                None => None,
            },
            None => None,
        }
    } else {
        Some((None, pos))
    }
}

/// What follows the flags of a connection request, from the keep-alive at
/// place 8 to the end of the body.
pub open spec fn parse_connect_fields(s: Seq<u8>, flags: ConnectFlags) -> Option<ConnectModel> {
    match parse_text(s, 10) {
        Some((client_id, p1)) => match parse_will(s, p1, flags) {
            Some((last_will, p2)) => match parse_opt_text(s, p2, flags.username) {
                Some((username, p3)) => match parse_opt_field(s, p3, flags.password) {
                    Some((password, p4)) => if p4 == s.len() {
                        Some(
                            ConnectModel {
                                clean_session: flags.clean_session,
                                keep_alive: u16_at(s, 8),
                                last_will,
                                client_id,
                                username,
                                password,
                            },
                        )
                    } else {
                        None
                    },
                    None => None,
                },
                None => None,
            },
            None => None,
        },
        None => None,
    }
}

/// The connection request that a body stands for.
///
/// A body that does not start with the protocol name is refused as another
/// protocol, one with another level than 4 as an unsupported level, and
/// anything else that does not fit as malformed.
pub open spec fn decode_connect(s: Seq<u8>) -> Result<ConnectModel, DecodeError> {
    if s.len() < 10 {
        Err(DecodeError::MalformedPacket)
    } else if s.subrange(0, 6) != field(protocol_name()) {
        Err(DecodeError::InvalidProtocolName)
    } else if s[6] != MQTT_LEVEL {
        Err(DecodeError::UnsupportedProtocolLevel)
    } else {
        match ConnectFlags::spec_from_bits(s[7]) {
            Some(flags) => match parse_connect_fields(s, flags) {
                Some(c) => Ok(c),
                None => Err(DecodeError::MalformedPacket),
            },
            None => Err(DecodeError::MalformedPacket),
        }
    }
}

/// The publication that a first byte and a body stand for.
pub open spec fn decode_publish(first_byte: u8, s: Seq<u8>) -> Result<PublishModel, DecodeError> {
    match publish_flags_of(first_byte) {
        Ok((dup, qos, retain)) => match parse_text(s, 0) {
            Some((topic, next)) => if qos == QoS::AtMostOnce {
                Ok(
                    PublishModel {
                        dup,
                        retain,
                        qos,
                        topic,
                        packet_id: None,
                        payload: s.subrange(next, s.len() as int),
                    },
                )
            } else {
                match parse_packet_id(s, next) {
                    Some(id) => Ok(
                        PublishModel {
                            dup,
                            retain,
                            qos,
                            topic,
                            packet_id: Some(id),
                            payload: s.subrange(next + 2, s.len() as int),
                        },
                    ),
                    None => Err(DecodeError::MalformedPacket),
                }
            },
            None => Err(DecodeError::MalformedPacket),
        },
        Err(e) => Err(e),
    }
}

/// The identifier of a body made of an identifier and nothing else.
pub open spec fn decode_only_id(s: Seq<u8>) -> Option<u16> {
    if s.len() == 2 {
        parse_packet_id(s, 0)
    } else {
        None
    }
}

/// The packet that a first byte and a body stand for.
///
/// The first byte must be that of a packet kind, flags included. The body
/// must hold the packet and nothing after it. Identifiers are not zero,
/// strings are valid UTF-8, and a request to subscribe or unsubscribe names
/// at least one filter.
pub open spec fn decode_body(first_byte: u8, s: Seq<u8>) -> Result<PacketModel, DecodeError> {
    if first_byte == 0x10 {
        match decode_connect(s) {
            Ok(c) => Ok(PacketModel::Connect(c)),
            Err(e) => Err(e),
        }
    } else if first_byte == 0x20 {
        if s.len() == 2 && s[0] <= 1 {
            Ok(
                PacketModel::ConnectAck {
                    session_present: s[0] == 1,
                    return_code: ConnectAckReason::of(s[1]),
                },
            )
        } else {
            Err(DecodeError::MalformedPacket)
        }
    } else if 0x30 <= first_byte <= 0x3f {
        match decode_publish(first_byte, s) {
            Ok(p) => Ok(PacketModel::Publish(p)),
            Err(e) => Err(e),
        }
    } else if first_byte == 0x40 {
        match decode_only_id(s) {
            Some(packet_id) => Ok(PacketModel::PublishAck { packet_id }),
            None => Err(DecodeError::MalformedPacket),
        }
    } else if first_byte == 0x50 {
        match decode_only_id(s) {
            Some(packet_id) => Ok(PacketModel::PublishReceived { packet_id }),
            None => Err(DecodeError::MalformedPacket),
        }
    } else if first_byte == 0x62 {
        match decode_only_id(s) {
            Some(packet_id) => Ok(PacketModel::PublishRelease { packet_id }),
            None => Err(DecodeError::MalformedPacket),
        }
    } else if first_byte == 0x70 {
        match decode_only_id(s) {
            Some(packet_id) => Ok(PacketModel::PublishComplete { packet_id }),
            None => Err(DecodeError::MalformedPacket),
        }
    } else if first_byte == 0x82 {
        match (parse_packet_id(s, 0), parse_filters(s, 2)) {
            (Some(packet_id), Some(topic_filters)) => if topic_filters.len() > 0 {
                Ok(PacketModel::Subscribe { packet_id, topic_filters })
            } else {
                Err(DecodeError::MalformedPacket)
            },
            _ => Err(DecodeError::MalformedPacket),
        }
    } else if first_byte == 0x90 {
        match parse_packet_id(s, 0) {
            Some(packet_id) => if all_status(s, 2) {
                Ok(PacketModel::SubscribeAck { packet_id, status: status_at(s, 2) })
            } else {
                Err(DecodeError::MalformedPacket)
            },
            None => Err(DecodeError::MalformedPacket),
        }
    } else if first_byte == 0xa2 {
        match (parse_packet_id(s, 0), parse_topics(s, 2)) {
            (Some(packet_id), Some(topic_filters)) => if topic_filters.len() > 0 {
                Ok(PacketModel::Unsubscribe { packet_id, topic_filters })
            } else {
                Err(DecodeError::MalformedPacket)
            },
            _ => Err(DecodeError::MalformedPacket),
        }
    } else if first_byte == 0xb0 {
        match decode_only_id(s) {
            Some(packet_id) => Ok(PacketModel::UnsubscribeAck { packet_id }),
            None => Err(DecodeError::MalformedPacket),
        }
    } else if first_byte == 0xc0 && s.len() == 0 {
        Ok(PacketModel::PingRequest)
    } else if first_byte == 0xd0 && s.len() == 0 {
        Ok(PacketModel::PingResponse)
    } else if first_byte == 0xe0 && s.len() == 0 {
        Ok(PacketModel::Disconnect)
    } else {
        Err(DecodeError::MalformedPacket)
    }
}

/// The packet at the start of `s`, and the number of bytes it takes.
///
/// `Ok(None)` says that `s` ends before the packet does: the length field
/// is not complete, or fewer bytes follow it than it announces.
pub open spec fn decode_frame(s: Seq<u8>) -> Result<Option<(PacketModel, nat)>, DecodeError> {
    if s.len() == 0 {
        Ok(None)
    } else {
        match var_len_parse(s.subrange(1, s.len() as int)) {
            Ok(Some((n, used))) => if s.len() < 1 + used + n {
                Ok(None)
            } else {
                match decode_body(s[0], s.subrange(1 + used as int, 1 + used as int + n as int)) {
                    Ok(m) => Ok(Some((m, 1 + used + n))),
                    Err(e) => Err(e),
                }
            },
            Ok(None) => Ok(None),
            Err(e) => Err(e),
        }
    }
}

} // verus!
