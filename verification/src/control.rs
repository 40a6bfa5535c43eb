//! Control requests handed to a protocol handler, and what acknowledging
//! each of them yields.

use vstd::prelude::*;
use crate::buffer::text_bytes;
use crate::buffer::ByteStr;
use crate::types::filters_view;
use crate::types::topics_view;
use crate::types::Packet;
use crate::types::PacketId;
use crate::types::PacketModel;
use crate::types::QoS;
use crate::types::SubscribeReturnCode;

verus! {

/// Outcomes of an acknowledged subscription request.
pub struct SubscribeResult {
    pub codes: Vec<SubscribeReturnCode>,
    pub packet_id: PacketId,
}

/// What an acknowledged unsubscription request yields.
pub struct UnsubscribeResult {
    pub packet_id: PacketId,
}

/// What acknowledging a control request yields, by kind of request.
pub enum ControlResultKind {
    Ping,
    Disconnect,
    Subscribe(SubscribeResult),
    Unsubscribe(UnsubscribeResult),
    Closed,
}

/// What acknowledging a control request yields.
pub struct ControlResult {
    pub result: ControlResultKind,
}

impl SubscribeResult {
    /// The acknowledgment to send: the request's identifier, and the
    /// outcomes in the order of the requests.
    pub fn into_packet(self) -> (p: Packet)
        ensures
            p@ == (PacketModel::SubscribeAck { packet_id: self.packet_id@, status: self.codes@ }),
    {
        Packet::SubscribeAck { packet_id: self.packet_id, status: self.codes }
    }
}

impl UnsubscribeResult {
    /// The acknowledgment to send: the request's identifier.
    pub fn into_packet(self) -> (p: Packet)
        ensures
            p@ == (PacketModel::UnsubscribeAck { packet_id: self.packet_id@ }),
    {
        Packet::UnsubscribeAck { packet_id: self.packet_id }
    }
}

impl ControlResult {
    /// The packet that answers the request, where the protocol has one:
    /// a ping is answered by a ping response, a request to subscribe or
    /// unsubscribe by its acknowledgment, and nothing else is answered.
    pub fn into_packet(self) -> (p: Option<Packet>)
        ensures
            match self.result {
                ControlResultKind::Ping => p matches Some(x) && x@ == PacketModel::PingResponse,
                ControlResultKind::Subscribe(res) => p matches Some(x) && x@ == (
                PacketModel::SubscribeAck { packet_id: res.packet_id@, status: res.codes@ }),
                ControlResultKind::Unsubscribe(res) => p matches Some(x) && x@ == (
                PacketModel::UnsubscribeAck { packet_id: res.packet_id@ }),
                ControlResultKind::Disconnect => p is None,
                ControlResultKind::Closed => p is None,
            },
    {
        match self.result {
            ControlResultKind::Ping => Some(Packet::PingResponse),
            ControlResultKind::Subscribe(res) => Some(res.into_packet()),
            ControlResultKind::Unsubscribe(res) => Some(res.into_packet()),
            ControlResultKind::Disconnect => None,
            ControlResultKind::Closed => None,
        }
    }
}

/// Ping request.
pub struct Ping;

impl Ping {
    /// Acknowledges the ping.
    pub fn ack(self) -> (r: ControlResult)
        ensures
            r.result is Ping,
    {
        ControlResult { result: ControlResultKind::Ping }
    }
}

/// Disconnect request.
pub struct Disconnect;

impl Disconnect {
    /// Acknowledges the disconnect.
    pub fn ack(self) -> (r: ControlResult)
        ensures
            r.result is Disconnect,
    {
        ControlResult { result: ControlResultKind::Disconnect }
    }
}

/// Notice that the connection is gone.
pub struct Closed {
    is_error: bool,
}

impl Closed {
    /// Whether the connection ended in an error, as a plain value.
    pub closed spec fn view(self) -> bool {
        self.is_error
    }

    /// A notice for a connection that ended, in an error or not.
    pub fn new(is_error: bool) -> (c: Closed)
        ensures
            c@ == is_error,
    {
        Closed { is_error }
    }

    /// Whether the connection ended in an error.
    pub fn is_error(&self) -> (e: bool)
        ensures
            e == self@,
    {
        self.is_error
    }

    /// Acknowledges the notice.
    pub fn ack(self) -> (r: ControlResult)
        ensures
            r.result is Closed,
    {
        ControlResult { result: ControlResultKind::Closed }
    }
}

/// Subscription request: the filters asked for, and one outcome per filter.
pub struct Subscribe {
    packet_id: PacketId,
    topics: Vec<(ByteStr, QoS)>,
    codes: Vec<SubscribeReturnCode>,
}

/// One requested filter together with its outcome slot.
pub struct Subscription<'a> {
    pub topic: &'a ByteStr,
    pub qos: QoS,
    pub code: &'a mut SubscribeReturnCode,
}

/// Traversal of the requested filters of a subscription request.
pub struct SubscribeIter<'a> {
    pub subs: &'a mut Subscribe,
    pub entry: usize,
}

impl Subscribe {
    #[verifier::type_invariant]
    spec fn one_outcome_each(self) -> bool {
        self.topics@.len() == self.codes@.len()
    }

    /// Identifier of the request.
    pub closed spec fn id(self) -> u16 {
        self.packet_id@
    }

    /// The filters asked for, each with the level requested, in order.
    pub closed spec fn requests(self) -> Seq<(Seq<u8>, QoS)> {
        filters_view(self.topics@)
    }

    /// The outcome of each request so far, in the order of the requests.
    pub closed spec fn outcomes(self) -> Seq<SubscribeReturnCode> {
        self.codes@
    }

    /// A request in which every filter has failed so far.
    pub fn new(packet_id: PacketId, topics: Vec<(ByteStr, QoS)>) -> (s: Subscribe)
        ensures
            s.id() == packet_id@,
            s.requests() == filters_view(topics@),
            s.outcomes() == Seq::new(topics@.len(), |i: int| SubscribeReturnCode::Failure),
    {
        let mut codes: Vec<SubscribeReturnCode> = Vec::with_capacity(topics.len());
        let mut i: usize = 0;
        while i < topics.len()
            invariant
                i <= topics@.len(),
                codes@.len() == i,
                forall|j: int| 0 <= j < i ==> codes@[j] == SubscribeReturnCode::Failure,
            decreases topics@.len() - i,
        {
            codes.push(SubscribeReturnCode::Failure);
            i = i + 1;
        }
        assert(codes@ =~= Seq::new(topics@.len(), |i: int| SubscribeReturnCode::Failure));
        Subscribe { packet_id, topics, codes }
    }

    /// Number of filters asked for.
    pub fn len(&self) -> (n: usize)
        ensures
            n == self.requests().len(),
            n == self.outcomes().len(),
    {
        proof {
            use_type_invariant(self);
        }
        self.topics.len()
    }

    /// A traversal of the requests, from the first.
    pub fn iter_mut(&mut self) -> (it: SubscribeIter<'_>)
        ensures
            *it.subs == *old(self),
            it.entry == 0,
            *final(it.subs) == *final(self),
    {
        SubscribeIter { subs: self, entry: 0 }
    }

    /// The outcomes as they stand, for the acknowledgment.
    pub fn ack(self) -> (r: ControlResult)
        ensures
            r.result matches ControlResultKind::Subscribe(res) && res.codes@ == self.outcomes()
                && res.packet_id@ == self.id() && res.codes@.len() == self.requests().len(),
    {
        proof {
            use_type_invariant(&self);
        }
        ControlResult {
            result: ControlResultKind::Subscribe(
                SubscribeResult { codes: self.codes, packet_id: self.packet_id },
            ),
        }
    }
}

impl<'a> SubscribeIter<'a> {
    /// The next entry, if any is left: its filter and level are those of
    /// the request at the traversal's place, and what the entry's slot holds
    /// in the end is that request's outcome.
    pub fn next(&mut self) -> (r: Option<Subscription<'_>>)
        ensures
            old(self).subs.requests().len() == old(self).subs.outcomes().len(),
            (r is Some) == (old(self).entry < old(self).subs.requests().len()),
            r matches Some(s) ==> {
                &&& old(self).entry < old(self).subs.outcomes().len()
                &&& text_bytes(*s.topic) == old(self).subs.requests()[old(self).entry as int].0
                &&& s.qos == old(self).subs.requests()[old(self).entry as int].1
                &&& *s.code == old(self).subs.outcomes()[old(self).entry as int]
                &&& final(self).entry == old(self).entry + 1
                &&& final(self).subs.id() == old(self).subs.id()
                &&& final(self).subs.requests() == old(self).subs.requests()
                &&& final(self).subs.outcomes() == old(self).subs.outcomes().update(
                    old(self).entry as int,
                    *final(s.code),
                )
                &&& *final(final(self).subs) == *final(old(self).subs)
            },
            r is None ==> *final(self) == *old(self),
    {
        proof {
            use_type_invariant(&*self.subs);
        }
        if self.entry < self.subs.topics.len() {
            let i: usize = self.entry;
            self.entry = i + 1;
            Some(
                Subscription {
                    topic: &self.subs.topics[i].0,
                    qos: self.subs.topics[i].1,
                    code: &mut self.subs.codes[i],
                },
            )
        } else {
            None
        }
    }
}

impl<'a> Subscription<'a> {
    /// The filter asked for.
    pub fn topic(&self) -> (t: &'a ByteStr)
        ensures
            t == self.topic,
    {
        self.topic
    }

    /// The level asked for.
    pub fn qos(&self) -> (q: QoS)
        ensures
            q == self.qos,
    {
        self.qos
    }

    /// Records that the filter was refused.
    pub fn fail(&mut self)
        ensures
            *final(self).code == SubscribeReturnCode::Failure,
            final(self).topic == old(self).topic,
            final(self).qos == old(self).qos,
            *final(final(self).code) == *final(old(self).code),
    {
        *self.code = SubscribeReturnCode::Failure;
    }

    /// Records that the filter was granted at level `qos`.
    pub fn subscribe(&mut self, qos: QoS)
        ensures
            *final(self).code == SubscribeReturnCode::Success(qos),
            final(self).topic == old(self).topic,
            final(self).qos == old(self).qos,
            *final(final(self).code) == *final(old(self).code),
    {
        *self.code = SubscribeReturnCode::Success(qos);
    }
}

/// Unsubscription request: the filters to drop.
pub struct Unsubscribe {
    packet_id: PacketId,
    topics: Vec<ByteStr>,
}

impl Unsubscribe {
    /// Identifier of the request.
    pub closed spec fn id(self) -> u16 {
        self.packet_id@
    }

    /// The filters to drop, in order.
    pub closed spec fn filters(self) -> Seq<Seq<u8>> {
        topics_view(self.topics@)
    }

    /// A request to drop the given filters.
    pub fn new(packet_id: PacketId, topics: Vec<ByteStr>) -> (u: Unsubscribe)
        ensures
            u.id() == packet_id@,
            u.filters() == topics_view(topics@),
    {
        Unsubscribe { packet_id, topics }
    }

    /// The filters to drop, in order.
    pub fn iter(&self) -> (ts: &Vec<ByteStr>)
        ensures
            topics_view(ts@) == self.filters(),
    {
        &self.topics
    }

    /// The identifier of the request, for the acknowledgment.
    pub fn ack(self) -> (r: ControlResult)
        ensures
            r.result matches ControlResultKind::Unsubscribe(res) && res.packet_id@ == self.id(),
    {
        ControlResult {
            result: ControlResultKind::Unsubscribe(UnsubscribeResult { packet_id: self.packet_id }),
        }
    }
}

/// A control request, as a handler receives it.
pub enum ControlPacket {
    /// Ping request.
    Ping(Ping),
    /// Disconnect request.
    Disconnect(Disconnect),
    /// Subscription request.
    Subscribe(Subscribe),
    /// Unsubscription request.
    Unsubscribe(Unsubscribe),
    /// The connection is gone.
    Closed(Closed),
}

impl ControlPacket {
    /// A ping request.
    pub fn ping() -> (p: ControlPacket)
        ensures
            p is Ping,
    {
        ControlPacket::Ping(Ping)
    }

    /// A disconnect request.
    pub fn disconnect() -> (p: ControlPacket)
        ensures
            p is Disconnect,
    {
        ControlPacket::Disconnect(Disconnect)
    }

    /// A notice that the connection is gone.
    pub fn closed(is_error: bool) -> (p: ControlPacket)
        ensures
            p matches ControlPacket::Closed(c) && c@ == is_error,
    {
        ControlPacket::Closed(Closed::new(is_error))
    }

    /// The control request that a received packet stands for. A request to
    /// subscribe starts with every filter failed. A packet of another kind
    /// is handed back.
    pub fn from_packet(packet: Packet) -> (r: Result<ControlPacket, Packet>)
        ensures
            match packet@ {
                PacketModel::PingRequest => r matches Ok(ControlPacket::Ping(_)),
                PacketModel::Disconnect => r matches Ok(ControlPacket::Disconnect(_)),
                PacketModel::Subscribe { packet_id, topic_filters } => r matches Ok(
                    ControlPacket::Subscribe(s),
                ) && s.id() == packet_id && s.requests() == topic_filters && s.outcomes()
                    == Seq::new(topic_filters.len(), |i: int| SubscribeReturnCode::Failure),
                PacketModel::Unsubscribe { packet_id, topic_filters } => r matches Ok(
                    ControlPacket::Unsubscribe(u),
                ) && u.id() == packet_id && u.filters() == topic_filters,
                _ => r matches Err(p) && p == packet,
            },
    {
        match packet {
            Packet::PingRequest => Ok(ControlPacket::Ping(Ping)),
            Packet::Disconnect => Ok(ControlPacket::Disconnect(Disconnect)),
            Packet::Subscribe { packet_id, topic_filters } => Ok(
                ControlPacket::Subscribe(Subscribe::new(packet_id, topic_filters)),
            ),
            Packet::Unsubscribe { packet_id, topic_filters } => Ok(
                ControlPacket::Unsubscribe(Unsubscribe::new(packet_id, topic_filters)),
            ),
            other => Err(other),
        }
    }
}

} // verus!
