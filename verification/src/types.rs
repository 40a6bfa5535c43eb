//! The packet model: one variant per MQTT control packet, and the small
//! types its fields are made of.

use vstd::prelude::*;
use bytes::Bytes;
use crate::buffer::ByteStr;
use crate::buffer::text_bytes;
use crate::buffer::bytes_view;

verus! {

/// Protocol level byte of MQTT 3.1.1.
pub const MQTT_LEVEL: u8 = 4;

/// Largest value the remaining-length field can carry.
pub const MAX_VARIABLE_LENGTH: usize = 268_435_455;

/// Delivery guarantee of a publication or subscription.
#[derive(Clone, Copy, Debug, PartialEq, Eq, Structural)]
pub enum QoS {
    AtMostOnce,
    AtLeastOnce,
    ExactlyOnce,
}

impl QoS {
    /// The number the wire format uses for this level.
    pub open spec fn value(self) -> u8 {
        match self {
            QoS::AtMostOnce => 0,
            QoS::AtLeastOnce => 1,
            QoS::ExactlyOnce => 2,
        }
    }

    /// The level a number stands for; none for 3 and above.
    pub open spec fn of(v: u8) -> Option<QoS> {
        if v == 0 {
            Some(QoS::AtMostOnce)
        } else if v == 1 {
            Some(QoS::AtLeastOnce)
        } else if v == 2 {
            Some(QoS::ExactlyOnce)
        } else {
            None
        }
    }

    /// The number the wire format uses for this level.
    pub fn to_u8(self) -> (v: u8)
        ensures
            v == self.value(),
            v <= 2,
    {
        match self {
            QoS::AtMostOnce => 0,
            QoS::AtLeastOnce => 1,
            QoS::ExactlyOnce => 2,
        }
    }

    /// The level a number stands for; none for 3 and above.
    pub fn from_u8(v: u8) -> (r: Option<QoS>)
        ensures
            r == QoS::of(v),
    {
        if v == 0 {
            Some(QoS::AtMostOnce)
        } else if v == 1 {
            Some(QoS::AtLeastOnce)
        } else if v == 2 {
            Some(QoS::ExactlyOnce)
        } else {
            None
        }
    }
}

/// A packet identifier: a 16-bit integer that is never zero.
#[derive(Clone, Copy, Debug, PartialEq, Eq)]
pub struct PacketId {
    value: u16,
}

impl PacketId {
    #[verifier::type_invariant]
    spec fn nonzero(self) -> bool {
        self.value != 0
    }

    /// The identifier as an integer.
    pub closed spec fn view(self) -> u16 {
        self.value
    }

    /// An identifier with the given value, unless that is zero.
    pub fn new(v: u16) -> (r: Option<PacketId>)
        ensures
            r.is_some() == (v != 0),
            r matches Some(id) ==> id@ == v,
    {
        if v == 0 {
            None
        } else {
            Some(PacketId { value: v })
        }
    }

    /// The identifier as an integer.
    pub fn get(&self) -> (v: u16)
        ensures
            v == self@,
            v != 0,
    {
        proof {
            use_type_invariant(self);
        }
        self.value
    }
}

/// Return code of a connection acknowledgment.
#[derive(Clone, Copy, Debug, PartialEq, Eq, Structural)]
pub enum ConnectAckReason {
    ConnectionAccepted,
    UnacceptableProtocolVersion,
    IdentifierRejected,
    ServiceUnavailable,
    BadUserNameOrPassword,
    NotAuthorized,
    Reserved,
}

impl ConnectAckReason {
    /// The number the wire format uses for this code.
    pub open spec fn value(self) -> u8 {
        match self {
            ConnectAckReason::ConnectionAccepted => 0,
            ConnectAckReason::UnacceptableProtocolVersion => 1,
            ConnectAckReason::IdentifierRejected => 2,
            ConnectAckReason::ServiceUnavailable => 3,
            ConnectAckReason::BadUserNameOrPassword => 4,
            ConnectAckReason::NotAuthorized => 5,
            ConnectAckReason::Reserved => 6,
        }
    }

    /// The code a number stands for; every number the protocol leaves
    /// undefined is `Reserved`.
    pub open spec fn of(v: u8) -> ConnectAckReason {
        if v == 0 {
            ConnectAckReason::ConnectionAccepted
        } else if v == 1 {
            ConnectAckReason::UnacceptableProtocolVersion
        } else if v == 2 {
            ConnectAckReason::IdentifierRejected
        } else if v == 3 {
            ConnectAckReason::ServiceUnavailable
        } else if v == 4 {
            ConnectAckReason::BadUserNameOrPassword
        } else if v == 5 {
            ConnectAckReason::NotAuthorized
        } else {
            ConnectAckReason::Reserved
        }
    }

    /// The number the wire format uses for this code.
    pub fn to_u8(self) -> (v: u8)
        ensures
            v == self.value(),
    {
        match self {
            ConnectAckReason::ConnectionAccepted => 0,
            ConnectAckReason::UnacceptableProtocolVersion => 1,
            ConnectAckReason::IdentifierRejected => 2,
            ConnectAckReason::ServiceUnavailable => 3,
            ConnectAckReason::BadUserNameOrPassword => 4,
            ConnectAckReason::NotAuthorized => 5,
            ConnectAckReason::Reserved => 6,
        }
    }

    /// The code a number stands for.
    pub fn from_u8(v: u8) -> (r: ConnectAckReason)
        ensures
            r == ConnectAckReason::of(v),
    {
        if v == 0 {
            ConnectAckReason::ConnectionAccepted
        } else if v == 1 {
            ConnectAckReason::UnacceptableProtocolVersion
        } else if v == 2 {
            ConnectAckReason::IdentifierRejected
        } else if v == 3 {
            ConnectAckReason::ServiceUnavailable
        } else if v == 4 {
            ConnectAckReason::BadUserNameOrPassword
        } else if v == 5 {
            ConnectAckReason::NotAuthorized
        } else {
            ConnectAckReason::Reserved
        }
    }
}

/// Outcome of one requested subscription.
#[derive(Clone, Copy, Debug, PartialEq, Eq, Structural)]
pub enum SubscribeReturnCode {
    Success(QoS),
    Failure,
}

impl SubscribeReturnCode {
    /// The status byte of an acknowledgment: the granted level, or `0x80`.
    pub open spec fn value(self) -> u8 {
        match self {
            SubscribeReturnCode::Success(qos) => qos.value(),
            SubscribeReturnCode::Failure => 0x80,
        }
    }

    /// The outcome a status byte stands for, if any.
    pub open spec fn of(v: u8) -> Option<SubscribeReturnCode> {
        if v == 0x80 {
            Some(SubscribeReturnCode::Failure)
        } else {
            match QoS::of(v) {
                Some(qos) => Some(SubscribeReturnCode::Success(qos)),
                None => None,
            }
        }
    }

    /// The status byte of this outcome.
    pub fn to_u8(self) -> (v: u8)
        ensures
            v == self.value(),
    {
        match self {
            SubscribeReturnCode::Success(qos) => qos.to_u8(),
            SubscribeReturnCode::Failure => 0x80,
        }
    }

    /// The outcome a status byte stands for, if any.
    pub fn from_u8(v: u8) -> (r: Option<SubscribeReturnCode>)
        ensures
            r == SubscribeReturnCode::of(v),
    {
        if v == 0x80 {
            Some(SubscribeReturnCode::Failure)
        } else {
            match QoS::from_u8(v) {
                Some(qos) => Some(SubscribeReturnCode::Success(qos)),
                None => None,
            }
        }
    }
}

/// Why a packet could not be encoded.
#[derive(Clone, Copy, Debug, PartialEq, Eq, Structural)]
pub enum EncodeError {
    /// A string or byte field is longer than its 16-bit length prefix allows.
    InvalidLength,
    /// The packet breaks a structural rule of the protocol.
    MalformedPacket,
    /// A publication above `AtMostOnce` carries no packet identifier.
    PacketIdRequired,
}

/// Why received bytes are not a packet.
#[derive(Clone, Copy, Debug, PartialEq, Eq, Structural)]
pub enum DecodeError {
    /// The bytes break a structural or semantic rule of the protocol.
    MalformedPacket,
    /// A connection request names a protocol other than `MQTT`.
    InvalidProtocolName,
    /// A connection request asks for a protocol level other than 4.
    UnsupportedProtocolLevel,
}

/// Message a broker publishes for a client whose connection is lost.
#[derive(Clone, Debug, PartialEq, Eq)]
pub struct LastWill {
    pub qos: QoS,
    pub retain: bool,
    pub topic: ByteStr,
    pub message: Bytes,
}

/// Connection request.
#[derive(Clone, Debug, PartialEq, Eq)]
pub struct Connect {
    pub clean_session: bool,
    pub keep_alive: u16,
    pub last_will: Option<LastWill>,
    pub client_id: ByteStr,
    pub username: Option<ByteStr>,
    pub password: Option<Bytes>,
}

/// Application message.
#[derive(Clone, Debug, PartialEq, Eq)]
pub struct Publish {
    pub dup: bool,
    pub retain: bool,
    pub qos: QoS,
    pub topic: ByteStr,
    pub packet_id: Option<PacketId>,
    pub payload: Bytes,
}

/// An MQTT control packet.
#[allow(inconsistent_fields)]
#[derive(Clone, Debug, PartialEq, Eq)]
pub enum Packet {
    Connect(Connect),
    ConnectAck { session_present: bool, return_code: ConnectAckReason },
    Publish(Publish),
    PublishAck { packet_id: PacketId },
    PublishReceived { packet_id: PacketId },
    PublishRelease { packet_id: PacketId },
    PublishComplete { packet_id: PacketId },
    Subscribe { packet_id: PacketId, topic_filters: Vec<(ByteStr, QoS)> },
    SubscribeAck { packet_id: PacketId, status: Vec<SubscribeReturnCode> },
    Unsubscribe { packet_id: PacketId, topic_filters: Vec<ByteStr> },
    UnsubscribeAck { packet_id: PacketId },
    PingRequest,
    PingResponse,
    Disconnect,
}

/// What a `LastWill` holds, as plain values.
pub struct LastWillModel {
    pub qos: QoS,
    pub retain: bool,
    pub topic: Seq<u8>,
    pub message: Seq<u8>,
}

/// What a `Connect` holds, as plain values.
pub struct ConnectModel {
    pub clean_session: bool,
    pub keep_alive: u16,
    pub last_will: Option<LastWillModel>,
    pub client_id: Seq<u8>,
    pub username: Option<Seq<u8>>,
    pub password: Option<Seq<u8>>,
}

/// What a `Publish` holds, as plain values.
pub struct PublishModel {
    pub dup: bool,
    pub retain: bool,
    pub qos: QoS,
    pub topic: Seq<u8>,
    pub packet_id: Option<u16>,
    pub payload: Seq<u8>,
}

/// What a `Packet` holds, as plain values: strings and buffers by their
/// bytes, identifiers by their number.
#[allow(inconsistent_fields)]
pub enum PacketModel {
    Connect(ConnectModel),
    ConnectAck { session_present: bool, return_code: ConnectAckReason },
    Publish(PublishModel),
    PublishAck { packet_id: u16 },
    PublishReceived { packet_id: u16 },
    PublishRelease { packet_id: u16 },
    PublishComplete { packet_id: u16 },
    Subscribe { packet_id: u16, topic_filters: Seq<(Seq<u8>, QoS)> },
    SubscribeAck { packet_id: u16, status: Seq<SubscribeReturnCode> },
    Unsubscribe { packet_id: u16, topic_filters: Seq<Seq<u8>> },
    UnsubscribeAck { packet_id: u16 },
    PingRequest,
    PingResponse,
    Disconnect,
}

/// The bytes of an optional string.
pub open spec fn opt_text_bytes(s: Option<ByteStr>) -> Option<Seq<u8>> {
    match s {
        Some(t) => Some(text_bytes(t)),
        None => None,
    }
}

/// The bytes of an optional buffer.
pub open spec fn opt_bytes_view(b: Option<Bytes>) -> Option<Seq<u8>> {
    match b {
        Some(t) => Some(bytes_view(t)),
        None => None,
    }
}

/// The number of an optional identifier.
pub open spec fn opt_id_view(id: Option<PacketId>) -> Option<u16> {
    match id {
        Some(i) => Some(i@),
        None => None,
    }
}

/// Subscription requests as plain values, in order.
pub open spec fn filters_view(v: Seq<(ByteStr, QoS)>) -> Seq<(Seq<u8>, QoS)> {
    Seq::new(v.len(), |i: int| (text_bytes(v[i].0), v[i].1))
}

/// Topic filters as plain values, in order.
pub open spec fn topics_view(v: Seq<ByteStr>) -> Seq<Seq<u8>> {
    Seq::new(v.len(), |i: int| text_bytes(v[i]))
}

impl View for LastWill {
    type V = LastWillModel;

    open spec fn view(&self) -> LastWillModel {
        LastWillModel {
            qos: self.qos,
            retain: self.retain,
            topic: text_bytes(self.topic),
            message: bytes_view(self.message),
        }
    }
}

impl View for Connect {
    type V = ConnectModel;

    open spec fn view(&self) -> ConnectModel {
        ConnectModel {
            clean_session: self.clean_session,
            keep_alive: self.keep_alive,
            last_will: match self.last_will {
                Some(w) => Some(w@),
                None => None,
            },
            client_id: text_bytes(self.client_id),
            username: opt_text_bytes(self.username),
            password: opt_bytes_view(self.password),
        }
    }
}

impl View for Publish {
    type V = PublishModel;

    open spec fn view(&self) -> PublishModel {
        PublishModel {
            dup: self.dup,
            retain: self.retain,
            qos: self.qos,
            topic: text_bytes(self.topic),
            packet_id: opt_id_view(self.packet_id),
            payload: bytes_view(self.payload),
        }
    }
}

impl View for Packet {
    type V = PacketModel;

    open spec fn view(&self) -> PacketModel {
        match *self {
            Packet::Connect(c) => PacketModel::Connect(c@),
            Packet::ConnectAck { session_present, return_code } => PacketModel::ConnectAck {
                session_present,
                return_code,
            },
            Packet::Publish(p) => PacketModel::Publish(p@),
            Packet::PublishAck { packet_id } => PacketModel::PublishAck { packet_id: packet_id@ },
            Packet::PublishReceived { packet_id } => PacketModel::PublishReceived {
                packet_id: packet_id@,
            },
            Packet::PublishRelease { packet_id } => PacketModel::PublishRelease {
                packet_id: packet_id@,
            },
            Packet::PublishComplete { packet_id } => PacketModel::PublishComplete {
                packet_id: packet_id@,
            },
            Packet::Subscribe { packet_id, topic_filters } => PacketModel::Subscribe {
                packet_id: packet_id@,
                topic_filters: filters_view(topic_filters@),
            },
            Packet::SubscribeAck { packet_id, status } => PacketModel::SubscribeAck {
                packet_id: packet_id@,
                status: status@,
            },
            Packet::Unsubscribe { packet_id, topic_filters } => PacketModel::Unsubscribe {
                packet_id: packet_id@,
                topic_filters: topics_view(topic_filters@),
            },
            Packet::UnsubscribeAck { packet_id } => PacketModel::UnsubscribeAck {
                packet_id: packet_id@,
            },
            Packet::PingRequest => PacketModel::PingRequest,
            Packet::PingResponse => PacketModel::PingResponse,
            Packet::Disconnect => PacketModel::Disconnect,
        }
    }
}

} // verus!
