//! The decoder: a packet from the bytes of its body, and from a buffer
//! that starts with a whole frame.

use vstd::prelude::*;
use bytes::Bytes;
use crate::buffer::bytes_as_slice;
use crate::buffer::bytes_len;
use crate::buffer::bytes_slice;
use crate::buffer::bytes_view;
use crate::buffer::text_bytes;
use crate::buffer::text_from_bytes;
use crate::buffer::ByteStr;
use crate::flags::unpack_publish_flags;
use crate::flags::ConnectFlags;
use crate::packet_type;
use crate::parse::all_status;
use crate::parse::decode_body;
use crate::parse::decode_connect;
use crate::parse::decode_frame;
use crate::parse::decode_only_id;
use crate::parse::decode_publish;
use crate::parse::is_utf8;
use crate::parse::parse_connect_fields;
use crate::parse::parse_field;
use crate::parse::parse_filters;
use crate::parse::parse_opt_field;
use crate::parse::parse_opt_text;
use crate::parse::parse_packet_id;
use crate::parse::parse_text;
use crate::parse::parse_topics;
use crate::parse::parse_will;
use crate::parse::status_at;
use crate::parse::u16_at;
use crate::types::filters_view;
use crate::types::opt_bytes_view;
use crate::types::opt_text_bytes;
use crate::types::topics_view;
use crate::types::Connect;
use crate::types::ConnectAckReason;
use crate::types::DecodeError;
use crate::types::LastWill;
use crate::types::Packet;
use crate::types::PacketId;
use crate::types::Publish;
use crate::types::QoS;
use crate::types::SubscribeReturnCode;
use crate::types::MQTT_LEVEL;
use crate::varlen::decode_variable_length;
use crate::wire::field;
use crate::wire::protocol_name;

verus! {

/// Reads the 16-bit integer at `pos`, most significant byte first.
fn read_u16(s: &[u8], pos: usize) -> (v: u16)
    requires
        pos + 2 <= s@.len(),
    ensures
        v == u16_at(s@, pos as int),
{
    let high: u16 = s[pos] as u16;
    let low: u16 = s[pos + 1] as u16;
    high * 256 + low
}

/// Reads the length-prefixed buffer at `pos` of `src`, sharing its storage,
/// and tells the place after it.
pub fn decode_bytes(src: &Bytes, pos: usize) -> (r: Option<(Bytes, usize)>)
    ensures
        match parse_field(bytes_view(*src), pos as int) {
            Some((f, next)) => r matches Some((b, n)) && bytes_view(b) == f && n == next,
            None => r is None,
        },
{
    let s = bytes_as_slice(src);
    let len: usize = s.len();
    if pos > len || len - pos < 2 {
        return None;
    }
    let n: usize = read_u16(s, pos) as usize;
    if len - pos - 2 < n {
        return None;
    }
    let b = bytes_slice(src, pos + 2, pos + 2 + n);
    Some((b, pos + 2 + n))
}

/// Reads the length-prefixed string at `pos` of `src`, sharing its
/// storage, and tells the place after it.
pub fn decode_text(src: &Bytes, pos: usize) -> (r: Option<(ByteStr, usize)>)
    ensures
        match parse_text(bytes_view(*src), pos as int) {
            Some((f, next)) => r matches Some((t, n)) && text_bytes(t) == f && n == next,
            None => r is None,
        },
{
    proof {
        reveal(is_utf8);
    }
    match decode_bytes(src, pos) {
        Some((b, next)) => match text_from_bytes(b) {
            Some(t) => Some((t, next)),
            None => None,
        },
        None => None,
    }
}

/// Reads the packet identifier at `pos` of `src`.
pub fn decode_packet_id(src: &Bytes, pos: usize) -> (r: Option<PacketId>)
    ensures
        match parse_packet_id(bytes_view(*src), pos as int) {
            Some(v) => r matches Some(id) && id@ == v,
            None => r is None,
        },
{
    let s = bytes_as_slice(src);
    let len: usize = s.len();
    if pos > len || len - pos < 2 {
        return None;
    }
    PacketId::new(read_u16(s, pos))
}

/// Reads subscription requests from `start` to the end of `src`.
fn decode_filters(src: &Bytes, start: usize) -> (r: Option<Vec<(ByteStr, QoS)>>)
    ensures
        match parse_filters(bytes_view(*src), start as int) {
            Some(fs) => r matches Some(v) && filters_view(v@) == fs,
            None => r is None,
        },
{
    let s = bytes_as_slice(src);
    let len: usize = s.len();
    let mut out: Vec<(ByteStr, QoS)> = Vec::new();
    let mut pos: usize = start;
    assert(filters_view(out@) =~= Seq::empty());
    assert(parse_filters(s@, pos as int) matches Some(rest) ==> filters_view(out@) + rest
        =~= rest);
    while pos < len
        invariant
            s@ == bytes_view(*src),
            len == s@.len(),
            parse_filters(s@, start as int) == match parse_filters(s@, pos as int) {
                Some(rest) => Some(filters_view(out@) + rest),
                None => None,
            },
        decreases len - pos,
    {
        match decode_text(src, pos) {
            Some((t, next)) => {
                if next >= len {
                    return None;
                }
                match QoS::from_u8(s[next]) {
                    Some(q) => {
                        let ghost before = filters_view(out@);
                        let ghost item = (text_bytes(t), q);
                        out.push((t, q));
                        proof {
                            assert(filters_view(out@) =~= before.push(item));
                            assert(parse_filters(s@, next + 1) matches Some(rest) ==> before + (
                            seq![item] + rest) =~= filters_view(out@) + rest);
                        }
                        pos = next + 1;
                    },
                    None => {
                        return None;
                    },
                }
            },
            None => {
                return None;
            },
        }
    }
    assert(filters_view(out@) + Seq::empty() =~= filters_view(out@));
    Some(out)
}

/// Reads topic filters from `start` to the end of `src`.
fn decode_topics(src: &Bytes, start: usize) -> (r: Option<Vec<ByteStr>>)
    ensures
        match parse_topics(bytes_view(*src), start as int) {
            Some(ts) => r matches Some(v) && topics_view(v@) == ts,
            None => r is None,
        },
{
    let len: usize = bytes_len(src);
    let ghost s = bytes_view(*src);
    let mut out: Vec<ByteStr> = Vec::new();
    let mut pos: usize = start;
    assert(topics_view(out@) =~= Seq::empty());
    assert(parse_topics(s, pos as int) matches Some(rest) ==> topics_view(out@) + rest =~= rest);
    while pos < len
        invariant
            s == bytes_view(*src),
            len == s.len(),
            parse_topics(s, start as int) == match parse_topics(s, pos as int) {
                Some(rest) => Some(topics_view(out@) + rest),
                None => None,
            },
        decreases len - pos,
    {
        match decode_text(src, pos) {
            Some((t, next)) => {
                let ghost before = topics_view(out@);
                let ghost item = text_bytes(t);
                out.push(t);
                proof {
                    assert(topics_view(out@) =~= before.push(item));
                    assert(parse_topics(s, next as int) matches Some(rest) ==> before + (
                    seq![item] + rest) =~= topics_view(out@) + rest);
                }
                pos = next;
            },
            None => {
                return None;
            },
        }
    }
    assert(topics_view(out@) + Seq::empty() =~= topics_view(out@));
    Some(out)
}

/// Reads subscription outcomes from `start` to the end of `src`.
fn decode_status(src: &Bytes, start: usize) -> (r: Option<Vec<SubscribeReturnCode>>)
    requires
        start <= bytes_view(*src).len(),
    ensures
        match r {
            Some(v) => all_status(bytes_view(*src), start as int) && v@ == status_at(
                bytes_view(*src),
                start as int,
            ),
            None => !all_status(bytes_view(*src), start as int),
        },
{
    let s = bytes_as_slice(src);
    let len: usize = s.len();
    let mut out: Vec<SubscribeReturnCode> = Vec::with_capacity(len - start);
    let mut pos: usize = start;
    while pos < len
        invariant
            start <= pos <= len,
            s@ == bytes_view(*src),
            len == s@.len(),
            out@.len() == pos - start,
            forall|i: int| start <= i < pos ==> SubscribeReturnCode::of(#[trigger] s@[i]) is Some,
            forall|i: int|
                0 <= i < out@.len() ==> out@[i] == SubscribeReturnCode::of(
                    s@[start + i],
                ).unwrap(),
        decreases len - pos,
    {
        match SubscribeReturnCode::from_u8(s[pos]) {
            Some(code) => {
                out.push(code);
            },
            None => {
                assert(SubscribeReturnCode::of(s@[pos as int]) is None);
                return None;
            },
        }
        pos = pos + 1;
    }
    assert(out@ =~= status_at(s@, start as int));
    Some(out)
}

/// Reads the will of a connection request at `pos`, where the flags
/// announce one.
fn decode_will(src: &Bytes, pos: usize, flags: ConnectFlags) -> (r: Option<
    (Option<LastWill>, usize),
>)
    ensures
        match parse_will(bytes_view(*src), pos as int, flags) {
            Some((w, next)) => r matches Some((will, n)) && n == next && match w {
                Some(m) => will matches Some(x) && x@ == m,
                None => will is None,
            },
            None => r is None,
        },
{
    if !flags.will {
        return Some((None, pos));
    }
    match decode_text(src, pos) {
        Some((topic, next)) => match decode_bytes(src, next) {
            Some((message, after)) => Some(
                (
                    Some(
                        LastWill { qos: flags.will_qos, retain: flags.will_retain, topic, message },
                    ),
                    after,
                ),
            ),
            None => None,
        },
        None => None,
    }
}

/// Reads an optional string at `pos`: nothing unless `present`.
fn decode_opt_text(src: &Bytes, pos: usize, present: bool) -> (r: Option<
    (Option<ByteStr>, usize),
>)
    ensures
        match parse_opt_text(bytes_view(*src), pos as int, present) {
            Some((t, next)) => r matches Some((x, n)) && n == next && opt_text_bytes(x) == t,
            None => r is None,
        },
{
    if !present {
        return Some((None, pos));
    }
    match decode_text(src, pos) {
        Some((t, next)) => Some((Some(t), next)),
        None => None,
    }
}

/// Reads an optional buffer at `pos`: nothing unless `present`.
fn decode_opt_bytes(src: &Bytes, pos: usize, present: bool) -> (r: Option<
    (Option<Bytes>, usize),
>)
    ensures
        match parse_opt_field(bytes_view(*src), pos as int, present) {
            Some((t, next)) => r matches Some((x, n)) && n == next && opt_bytes_view(x) == t,
            None => r is None,
        },
{
    if !present {
        return Some((None, pos));
    }
    match decode_bytes(src, pos) {
        Some((t, next)) => Some((Some(t), next)),
        None => None,
    }
}

/// Reads what follows the flags of a connection request.
fn decode_connect_fields(src: &Bytes, flags: ConnectFlags) -> (r: Option<Connect>)
    requires
        bytes_view(*src).len() >= 10,
    ensures
        match parse_connect_fields(bytes_view(*src), flags) {
            Some(m) => r matches Some(c) && c@ == m,
            None => r is None,
        },
{
    let s = bytes_as_slice(src);
    let keep_alive: u16 = read_u16(s, 8);
    let (client_id, p1) = match decode_text(src, 10) {
        Some(x) => x,
        None => {
            return None;
        },
    };
    let (last_will, p2) = match decode_will(src, p1, flags) {
        Some(x) => x,
        None => {
            return None;
        },
    };
    let (username, p3) = match decode_opt_text(src, p2, flags.username) {
        Some(x) => x,
        None => {
            return None;
        },
    };
    let (password, p4) = match decode_opt_bytes(src, p3, flags.password) {
        Some(x) => x,
        None => {
            return None;
        },
    };
    if p4 != s.len() {
        return None;
    }
    Some(
        Connect {
            clean_session: flags.clean_session,
            keep_alive,
            last_will,
            client_id,
            username,
            password,
        },
    )
}

/// Reads a connection request from the bytes of its body.
pub fn decode_connect_packet(src: &Bytes) -> (r: Result<Connect, DecodeError>)
    ensures
        match decode_connect(bytes_view(*src)) {
            Ok(m) => r matches Ok(c) && c@ == m,
            Err(e) => r matches Err(x) && x == e,
        },
{
    let s = bytes_as_slice(src);
    if s.len() < 10 {
        return Err(DecodeError::MalformedPacket);
    }
    let named: bool = s[0] == 0 && s[1] == 4 && s[2] == 0x4d && s[3] == 0x51 && s[4] == 0x54
        && s[5] == 0x54;
    proof {
        let head = s@.subrange(0, 6);
        let name = field(protocol_name());
        if named {
            assert(head =~= name);
        } else {
            assert(head[0] == s@[0] && head[1] == s@[1] && head[2] == s@[2] && head[3] == s@[3]
                && head[4] == s@[4] && head[5] == s@[5]);
            assert(name[0] == 0 && name[1] == 4 && name[2] == 0x4d && name[3] == 0x51 && name[4]
                == 0x54 && name[5] == 0x54);
        }
    }
    if !named {
        return Err(DecodeError::InvalidProtocolName);
    }
    if s[6] != MQTT_LEVEL {
        return Err(DecodeError::UnsupportedProtocolLevel);
    }
    match ConnectFlags::from_bits(s[7]) {
        Some(flags) => match decode_connect_fields(src, flags) {
            Some(c) => Ok(c),
            None => Err(DecodeError::MalformedPacket),
        },
        None => Err(DecodeError::MalformedPacket),
    }
}

/// Reads a publication from its first byte and the bytes of its body.
pub fn decode_publish_packet(src: &Bytes, first_byte: u8) -> (r: Result<Publish, DecodeError>)
    ensures
        match decode_publish(first_byte, bytes_view(*src)) {
            Ok(m) => r matches Ok(p) && p@ == m,
            Err(e) => r matches Err(x) && x == e,
        },
{
    let (dup, qos, retain) = match unpack_publish_flags(first_byte) {
        Ok(x) => x,
        Err(e) => {
            return Err(e);
        },
    };
    let len: usize = bytes_len(src);
    let (topic, next) = match decode_text(src, 0) {
        Some(x) => x,
        None => {
            return Err(DecodeError::MalformedPacket);
        },
    };
    if qos == QoS::AtMostOnce {
        let payload = bytes_slice(src, next, len);
        Ok(Publish { dup, retain, qos, topic, packet_id: None, payload })
    } else {
        match decode_packet_id(src, next) {
            Some(id) => {
                let payload = bytes_slice(src, next + 2, len);
                Ok(Publish { dup, retain, qos, topic, packet_id: Some(id), payload })
            },
            None => Err(DecodeError::MalformedPacket),
        }
    }
}

/// Reads the identifier of a body that holds nothing else.
fn decode_ack_id(src: &Bytes) -> (r: Option<PacketId>)
    ensures
        match decode_only_id(bytes_view(*src)) {
            Some(v) => r matches Some(id) && id@ == v,
            None => r is None,
        },
{
    if bytes_len(src) != 2 {
        return None;
    }
    decode_packet_id(src, 0)
}

/// Reads a packet from its first byte and the bytes of its body. `src`
/// holds the body and nothing else; strings and buffers of the packet share
/// its storage.
pub fn decode_packet(src: &Bytes, first_byte: u8) -> (r: Result<Packet, DecodeError>)
    ensures
        match decode_body(first_byte, bytes_view(*src)) {
            Ok(m) => r matches Ok(p) && p@ == m,
            Err(e) => r matches Err(x) && x == e,
        },
{
    if first_byte == packet_type::CONNECT {
        match decode_connect_packet(src) {
            Ok(c) => Ok(Packet::Connect(c)),
            Err(e) => Err(e),
        }
    } else if first_byte == packet_type::CONNACK {
        let s = bytes_as_slice(src);
        if s.len() == 2 && s[0] <= 1 {
            Ok(
                Packet::ConnectAck {
                    session_present: s[0] == 1,
                    return_code: ConnectAckReason::from_u8(s[1]),
                },
            )
        } else {
            Err(DecodeError::MalformedPacket)
        }
    } else if packet_type::PUBLISH_START <= first_byte && first_byte <= packet_type::PUBLISH_END {
        match decode_publish_packet(src, first_byte) {
            Ok(p) => Ok(Packet::Publish(p)),
            Err(e) => Err(e),
        }
    } else if first_byte == packet_type::PUBACK {
        match decode_ack_id(src) {
            Some(packet_id) => Ok(Packet::PublishAck { packet_id }),
            None => Err(DecodeError::MalformedPacket),
        }
    } else if first_byte == packet_type::PUBREC {
        match decode_ack_id(src) {
            Some(packet_id) => Ok(Packet::PublishReceived { packet_id }),
            None => Err(DecodeError::MalformedPacket),
        }
    } else if first_byte == packet_type::PUBREL {
        match decode_ack_id(src) {
            Some(packet_id) => Ok(Packet::PublishRelease { packet_id }),
            None => Err(DecodeError::MalformedPacket),
        }
    } else if first_byte == packet_type::PUBCOMP {
        match decode_ack_id(src) {
            Some(packet_id) => Ok(Packet::PublishComplete { packet_id }),
            None => Err(DecodeError::MalformedPacket),
        }
    } else if first_byte == packet_type::SUBSCRIBE {
        let packet_id = match decode_packet_id(src, 0) {
            Some(id) => id,
            None => {
                return Err(DecodeError::MalformedPacket);
            },
        };
        match decode_filters(src, 2) {
            Some(topic_filters) => {
                if topic_filters.len() > 0 {
                    Ok(Packet::Subscribe { packet_id, topic_filters })
                } else {
                    Err(DecodeError::MalformedPacket)
                }
            },
            None => Err(DecodeError::MalformedPacket),
        }
    } else if first_byte == packet_type::SUBACK {
        let packet_id = match decode_packet_id(src, 0) {
            Some(id) => id,
            None => {
                return Err(DecodeError::MalformedPacket);
            },
        };
        match decode_status(src, 2) {
            Some(status) => Ok(Packet::SubscribeAck { packet_id, status }),
            None => Err(DecodeError::MalformedPacket),
        }
    } else if first_byte == packet_type::UNSUBSCRIBE {
        let packet_id = match decode_packet_id(src, 0) {
            Some(id) => id,
            None => {
                return Err(DecodeError::MalformedPacket);
            },
        };
        match decode_topics(src, 2) {
            Some(topic_filters) => {
                if topic_filters.len() > 0 {
                    Ok(Packet::Unsubscribe { packet_id, topic_filters })
                } else {
                    Err(DecodeError::MalformedPacket)
                }
            },
            None => Err(DecodeError::MalformedPacket),
        }
    } else if first_byte == packet_type::UNSUBACK {
        match decode_ack_id(src) {
            Some(packet_id) => Ok(Packet::UnsubscribeAck { packet_id }),
            None => Err(DecodeError::MalformedPacket),
        }
    } else if first_byte == packet_type::PINGREQ && bytes_len(src) == 0 {
        Ok(Packet::PingRequest)
    } else if first_byte == packet_type::PINGRESP && bytes_len(src) == 0 {
        Ok(Packet::PingResponse)
    } else if first_byte == packet_type::DISCONNECT && bytes_len(src) == 0 {
        Ok(Packet::Disconnect)
    } else {
        Err(DecodeError::MalformedPacket)
    }
}

/// Reads the packet at the start of `src` and tells how many bytes it
/// took. `Ok(None)` says that `src` ends before the packet does, and that
/// the caller should come back with more bytes.
pub fn decode(src: &Bytes) -> (r: Result<Option<(Packet, usize)>, DecodeError>)
    ensures
        match decode_frame(bytes_view(*src)) {
            Ok(Some((m, used))) => r matches Ok(Some((p, n))) && p@ == m && n == used,
            Ok(None) => r matches Ok(None),
            Err(e) => r matches Err(x) && x == e,
        },
{
    let s = bytes_as_slice(src);
    let len: usize = s.len();
    if len == 0 {
        return Ok(None);
    }
    let first_byte: u8 = s[0];
    let rest = vstd::slice::slice_subrange(s, 1, len);
    match decode_variable_length(rest) {
        Ok(Some((n, used))) => {
            if len - 1 - used < n {
                return Ok(None);
            }
            let body = bytes_slice(src, 1 + used, 1 + used + n);
            match decode_packet(&body, first_byte) {
                Ok(packet) => Ok(Some((packet, 1 + used + n))),
                Err(e) => Err(e),
            }
        },
        Ok(None) => Ok(None),
        Err(e) => Err(e),
    }
}

} // verus!
