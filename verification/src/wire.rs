//! The wire format, stated over plain values: which bytes stand for a
//! packet, when a packet has no encoding, and how long its body is.

use vstd::prelude::*;
use crate::buffer::be16;
use crate::flags::publish_first_byte;
use crate::flags::ConnectFlags;
use crate::types::ConnectModel;
use crate::types::EncodeError;
use crate::types::PacketModel;
use crate::types::PublishModel;
use crate::types::QoS;
use crate::types::SubscribeReturnCode;
use crate::types::MQTT_LEVEL;
use crate::varlen::var_len_bytes;

verus! {

/// Longest string or buffer that a 16-bit length prefix can announce.
pub const MAX_FIELD_LENGTH: usize = 65535;

/// The protocol name of a connection request: the letters `MQTT`.
pub open spec fn protocol_name() -> Seq<u8> {
    seq![0x4du8, 0x51u8, 0x54u8, 0x54u8]
}

/// A length-prefixed field: the length in two bytes, then the bytes.
pub open spec fn field(s: Seq<u8>) -> Seq<u8> {
    be16(s.len() as u16) + s
}

/// A length-prefixed field that may be absent.
pub open spec fn opt_field(s: Option<Seq<u8>>) -> Seq<u8> {
    match s {
        Some(t) => field(t),
        None => Seq::empty(),
    }
}

/// Whether an optional field is present and too long for its prefix.
pub open spec fn opt_too_long(s: Option<Seq<u8>>) -> bool {
    match s {
        Some(t) => t.len() > MAX_FIELD_LENGTH,
        None => false,
    }
}

/// The connect-flags of a connection request.
pub open spec fn connect_flags(c: ConnectModel) -> ConnectFlags {
    ConnectFlags {
        username: c.username is Some,
        password: c.password is Some,
        will_retain: match c.last_will {
            Some(w) => w.retain,
            None => false,
        },
        will_qos: match c.last_will {
            Some(w) => w.qos,
            None => QoS::AtMostOnce,
        },
        will: c.last_will is Some,
        clean_session: c.clean_session,
    }
}

/// Whether a field of a connection request is too long for its prefix.
pub open spec fn connect_too_long(c: ConnectModel) -> bool {
    ||| c.client_id.len() > MAX_FIELD_LENGTH
    ||| match c.last_will {
        Some(w) => w.topic.len() > MAX_FIELD_LENGTH || w.message.len() > MAX_FIELD_LENGTH,
        None => false,
    }
    ||| opt_too_long(c.username)
    ||| opt_too_long(c.password)
}

/// Body of a connection request: protocol name, level, flags, keep-alive,
/// client identifier, then will, user name and password where present.
pub open spec fn connect_body(c: ConnectModel) -> Seq<u8> {
    field(protocol_name()) + seq![MQTT_LEVEL, connect_flags(c).spec_bits()] + be16(c.keep_alive)
        + field(c.client_id) + (match c.last_will {
        Some(w) => field(w.topic) + field(w.message),
        None => Seq::empty(),
    }) + opt_field(c.username) + opt_field(c.password)
}

/// Body of a publication: topic, the identifier where there is one, then
/// the payload as it is.
pub open spec fn publish_body(p: PublishModel) -> Seq<u8> {
    field(p.topic) + (match p.packet_id {
        Some(id) => be16(id),
        None => Seq::empty(),
    }) + p.payload
}

/// Subscription requests in a row: each filter as a field, then its level.
pub open spec fn filters_bytes(fs: Seq<(Seq<u8>, QoS)>) -> Seq<u8>
    decreases fs.len(),
{
    if fs.len() == 0 {
        Seq::empty()
    } else {
        filters_bytes(fs.drop_last()) + field(fs.last().0) + seq![fs.last().1.value()]
    }
}

/// Topic filters in a row, each as a field.
pub open spec fn topics_bytes(ts: Seq<Seq<u8>>) -> Seq<u8>
    decreases ts.len(),
{
    if ts.len() == 0 {
        Seq::empty()
    } else {
        topics_bytes(ts.drop_last()) + field(ts.last())
    }
}

/// Subscription outcomes in a row, one status byte each.
pub open spec fn status_bytes(st: Seq<SubscribeReturnCode>) -> Seq<u8> {
    Seq::new(st.len(), |i: int| st[i].value())
}

/// Sum of the lengths that subscription requests take on the wire.
pub open spec fn filters_size(fs: Seq<(Seq<u8>, QoS)>) -> nat
    decreases fs.len(),
{
    if fs.len() == 0 {
        0
    } else {
        filters_size(fs.drop_last()) + 2 + fs.last().0.len() + 1
    }
}

/// Sum of the lengths that topic filters take on the wire.
pub open spec fn topics_size(ts: Seq<Seq<u8>>) -> nat
    decreases ts.len(),
{
    if ts.len() == 0 {
        0
    } else {
        topics_size(ts.drop_last()) + 2 + ts.last().len()
    }
}

/// Number of bytes an optional field takes on the wire.
pub open spec fn opt_field_size(s: Option<Seq<u8>>) -> nat {
    match s {
        Some(t) => 2 + t.len(),
        None => 0,
    }
}

/// Number of bytes that follow the fixed header of a packet.
pub open spec fn body_size(m: PacketModel) -> nat {
    match m {
        PacketModel::Connect(c) => 10 + 2 + c.client_id.len() + (match c.last_will {
            Some(w) => 2 + w.topic.len() + 2 + w.message.len(),
            None => 0,
        }) + opt_field_size(c.username) + opt_field_size(c.password),
        PacketModel::Publish(p) => if p.qos == QoS::AtMostOnce {
            2 + p.topic.len() + p.payload.len()
        } else {
            4 + p.topic.len() + p.payload.len()
        },
        PacketModel::ConnectAck { .. } => 2,
        PacketModel::PublishAck { .. } => 2,
        PacketModel::PublishReceived { .. } => 2,
        PacketModel::PublishRelease { .. } => 2,
        PacketModel::PublishComplete { .. } => 2,
        PacketModel::UnsubscribeAck { .. } => 2,
        PacketModel::Subscribe { topic_filters, .. } => 2 + filters_size(topic_filters),
        PacketModel::SubscribeAck { status, .. } => 2 + status.len(),
        PacketModel::Unsubscribe { topic_filters, .. } => 2 + topics_size(topic_filters),
        PacketModel::PingRequest => 0,
        PacketModel::PingResponse => 0,
        PacketModel::Disconnect => 0,
    }
}

/// Whether the filter of every subscription request fits its length prefix.
pub open spec fn filters_fit(fs: Seq<(Seq<u8>, QoS)>) -> bool {
    forall|i: int| 0 <= i < fs.len() ==> (#[trigger] fs[i]).0.len() <= MAX_FIELD_LENGTH
}

/// Whether every topic filter fits its length prefix.
pub open spec fn topics_fit(ts: Seq<Seq<u8>>) -> bool {
    forall|i: int| 0 <= i < ts.len() ==> (#[trigger] ts[i]).len() <= MAX_FIELD_LENGTH
}

/// A size as a `usize`: itself where it fits, the largest `usize` where it
/// does not.
pub open spec fn clamp_len(n: nat) -> usize {
    if n <= usize::MAX {
        n as usize
    } else {
        usize::MAX
    }
}

/// Why a packet has no encoding, if it has none.
///
/// A field too long for its prefix comes first. A publication at level 0
/// must carry no identifier, and one above it must carry one.
pub open spec fn encode_error(m: PacketModel) -> Option<EncodeError> {
    match m {
        PacketModel::Connect(c) => if connect_too_long(c) {
            Some(EncodeError::InvalidLength)
        } else {
            None
        },
        PacketModel::Publish(p) => if p.topic.len() > MAX_FIELD_LENGTH {
            Some(EncodeError::InvalidLength)
        } else if p.qos == QoS::AtMostOnce {
            if p.packet_id is Some {
                Some(EncodeError::MalformedPacket)
            } else {
                None
            }
        } else if p.packet_id is None {
            Some(EncodeError::PacketIdRequired)
        } else {
            None
        },
        PacketModel::Subscribe { topic_filters, .. } => if filters_fit(topic_filters) {
            None
        } else {
            Some(EncodeError::InvalidLength)
        },
        PacketModel::Unsubscribe { topic_filters, .. } => if topics_fit(topic_filters) {
            None
        } else {
            Some(EncodeError::InvalidLength)
        },
        _ => None,
    }
}

/// First byte of a packet's fixed header.
pub open spec fn first_byte(m: PacketModel) -> u8 {
    match m {
        PacketModel::Connect(_) => 0x10,
        PacketModel::ConnectAck { .. } => 0x20,
        PacketModel::Publish(p) => publish_first_byte(p.dup, p.qos, p.retain),
        PacketModel::PublishAck { .. } => 0x40,
        PacketModel::PublishReceived { .. } => 0x50,
        PacketModel::PublishRelease { .. } => 0x62,
        PacketModel::PublishComplete { .. } => 0x70,
        PacketModel::Subscribe { .. } => 0x82,
        PacketModel::SubscribeAck { .. } => 0x90,
        PacketModel::Unsubscribe { .. } => 0xa2,
        PacketModel::UnsubscribeAck { .. } => 0xb0,
        PacketModel::PingRequest => 0xc0,
        PacketModel::PingResponse => 0xd0,
        PacketModel::Disconnect => 0xe0,
    }
}

/// The bytes that follow the fixed header of a packet.
pub open spec fn body(m: PacketModel) -> Seq<u8> {
    match m {
        PacketModel::Connect(c) => connect_body(c),
        PacketModel::ConnectAck { session_present, return_code } => seq![
            if session_present { 1u8 } else { 0u8 },
            return_code.value(),
        ],
        PacketModel::Publish(p) => publish_body(p),
        PacketModel::PublishAck { packet_id } => be16(packet_id),
        PacketModel::PublishReceived { packet_id } => be16(packet_id),
        PacketModel::PublishRelease { packet_id } => be16(packet_id),
        PacketModel::PublishComplete { packet_id } => be16(packet_id),
        PacketModel::Subscribe { packet_id, topic_filters } => be16(packet_id) + filters_bytes(
            topic_filters,
        ),
        PacketModel::SubscribeAck { packet_id, status } => be16(packet_id) + status_bytes(status),
        PacketModel::Unsubscribe { packet_id, topic_filters } => be16(packet_id) + topics_bytes(
            topic_filters,
        ),
        PacketModel::UnsubscribeAck { packet_id } => be16(packet_id),
        PacketModel::PingRequest => Seq::empty(),
        PacketModel::PingResponse => Seq::empty(),
        PacketModel::Disconnect => Seq::empty(),
    }
}

/// Whether a packet is one of the three that have no body.
pub open spec fn is_bare(m: PacketModel) -> bool {
    m is PingRequest || m is PingResponse || m is Disconnect
}

/// A whole packet on the wire: first byte, the announced length of the
/// body, then the body. The three packets without a body announce zero,
/// whatever `content_size` says.
pub open spec fn frame(m: PacketModel, content_size: nat) -> Seq<u8> {
    if is_bare(m) {
        seq![first_byte(m), 0u8]
    } else {
        seq![first_byte(m)] + var_len_bytes(content_size) + body(m)
    }
}

/// Subscription requests take as many bytes as their sizes sum to.
pub proof fn lemma_filters_len(fs: Seq<(Seq<u8>, QoS)>)
    ensures
        filters_bytes(fs).len() == filters_size(fs),
    decreases fs.len(),
{
    if fs.len() > 0 {
        lemma_filters_len(fs.drop_last());
    }
}

/// Topic filters take as many bytes as their sizes sum to.
pub proof fn lemma_topics_len(ts: Seq<Seq<u8>>)
    ensures
        topics_bytes(ts).len() == topics_size(ts),
    decreases ts.len(),
{
    if ts.len() > 0 {
        lemma_topics_len(ts.drop_last());
    }
}

/// The body of a packet that can be encoded is exactly as long as its
/// computed size.
pub proof fn lemma_body_len(m: PacketModel)
    requires
        encode_error(m) is None,
    ensures
        body(m).len() == body_size(m),
{
    match m {
        PacketModel::Subscribe { topic_filters, .. } => {
            lemma_filters_len(topic_filters);
        },
        PacketModel::Unsubscribe { topic_filters, .. } => {
            lemma_topics_len(topic_filters);
        },
        _ => {},
    }
}

} // verus!
