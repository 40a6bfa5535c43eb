//! The encoder: the size of a packet's body, and the packet as bytes.

use vstd::prelude::*;
use bytes::Bytes;
use bytes::BytesMut;
use crate::buffer::be16;
use crate::buffer::buf_bytes;
use crate::buffer::bytes_as_slice;
use crate::buffer::bytes_len;
use crate::buffer::bytes_view;
use crate::buffer::extend_from_slice;
use crate::buffer::put_slice;
use crate::buffer::put_u16;
use crate::buffer::put_u8;
use crate::buffer::text_bytes;
use crate::buffer::ByteStr;
use crate::flags::pack_publish_first_byte;
use crate::flags::ConnectFlags;
use crate::packet_type;
use crate::types::filters_view;
use crate::types::topics_view;
use crate::types::Connect;
use crate::types::EncodeError;
use crate::types::Packet;
use crate::types::PacketId;
use crate::types::QoS;
use crate::types::SubscribeReturnCode;
use crate::types::MQTT_LEVEL;
use crate::varlen::var_len_bytes;
use crate::varlen::write_variable_length;
use crate::wire::body;
use crate::wire::body_size;
use crate::wire::clamp_len;
use crate::wire::connect_body;
use crate::wire::connect_flags;
use crate::wire::connect_too_long;
use crate::wire::encode_error;
use crate::wire::field;
use crate::wire::filters_bytes;
use crate::wire::filters_fit;
use crate::wire::filters_size;
use crate::wire::frame;
use crate::wire::protocol_name;
use crate::wire::status_bytes;
use crate::wire::topics_bytes;
use crate::wire::topics_fit;
use crate::wire::topics_size;
use crate::wire::MAX_FIELD_LENGTH;

verus! {

/// The sizes of the first requests sum to no more than those of all.
proof fn lemma_filters_size_take(fs: Seq<(Seq<u8>, QoS)>, i: int)
    requires
        0 <= i <= fs.len(),
    ensures
        filters_size(fs.take(i)) <= filters_size(fs),
        i < fs.len() ==> filters_size(fs.take(i + 1)) == filters_size(fs.take(i)) + 2
            + fs[i].0.len() + 1,
    decreases fs.len(),
{
    if i < fs.len() {
        assert(fs.take(i + 1).drop_last() =~= fs.take(i));
        assert(fs.drop_last().take(i) =~= fs.take(i));
        lemma_filters_size_take(fs.drop_last(), i);
    } else {
        assert(fs.take(i) =~= fs);
    }
}

/// The sizes of the first filters sum to no more than those of all.
proof fn lemma_topics_size_take(ts: Seq<Seq<u8>>, i: int)
    requires
        0 <= i <= ts.len(),
    ensures
        topics_size(ts.take(i)) <= topics_size(ts),
        i < ts.len() ==> topics_size(ts.take(i + 1)) == topics_size(ts.take(i)) + 2
            + ts[i].len(),
    decreases ts.len(),
{
    if i < ts.len() {
        assert(ts.take(i + 1).drop_last() =~= ts.take(i));
        assert(ts.drop_last().take(i) =~= ts.take(i));
        lemma_topics_size_take(ts.drop_last(), i);
    } else {
        assert(ts.take(i) =~= ts);
    }
}

/// The sum of two lengths, or the largest `usize` where the sum is larger.
fn add_len(a: usize, b: usize) -> (r: usize)
    ensures
        r == clamp_len(a as nat + b as nat),
{
    a.saturating_add(b)
}

/// Number of bytes that the body of `packet` takes on the wire: all that
/// follows the length field of the fixed header. A size that no `usize`
/// holds is given as the largest `usize`.
pub fn get_encoded_size(packet: &Packet) -> (n: usize)
    ensures
        n == clamp_len(body_size(packet@)),
{
    match packet {
        Packet::Connect(connect) => {
            let mut n: usize = 2 + 4 + 1 + 1 + 2;
            n = add_len(add_len(n, 2), connect.client_id.len());
            if let Some(will) = &connect.last_will {
                n = add_len(add_len(n, 2), will.topic.len());
                n = add_len(add_len(n, 2), bytes_len(&will.message));
            }
            if let Some(s) = &connect.username {
                n = add_len(add_len(n, 2), s.len());
            }
            if let Some(s) = &connect.password {
                n = add_len(add_len(n, 2), bytes_len(s));
            }
            n
        },
        Packet::Publish(publish) => {
            let fixed: usize = if publish.qos == QoS::AtLeastOnce || publish.qos
                == QoS::ExactlyOnce {
                4
            } else {
                2
            };
            add_len(add_len(fixed, publish.topic.len()), bytes_len(&publish.payload))
        },
        Packet::ConnectAck { .. }
        | Packet::PublishAck { .. }
        | Packet::PublishReceived { .. }
        | Packet::PublishRelease { .. }
        | Packet::PublishComplete { .. }
        | Packet::UnsubscribeAck { .. } => 2,
        Packet::Subscribe { topic_filters, .. } => {
            let ghost fs = filters_view(topic_filters@);
            let mut acc: usize = 2;
            let mut i: usize = 0;
            while i < topic_filters.len()
                invariant
                    i <= topic_filters@.len(),
                    fs == filters_view(topic_filters@),
                    acc == clamp_len(2 + filters_size(fs.take(i as int))),
                decreases topic_filters@.len() - i,
            {
                proof {
                    lemma_filters_size_take(fs, i as int);
                }
                acc = add_len(add_len(acc, 3), topic_filters[i].0.len());
                i = i + 1;
            }
            assert(fs.take(i as int) =~= fs);
            acc
        },
        Packet::SubscribeAck { status, .. } => add_len(2, status.len()),
        Packet::Unsubscribe { topic_filters, .. } => {
            let ghost ts = topics_view(topic_filters@);
            let mut acc: usize = 2;
            let mut i: usize = 0;
            while i < topic_filters.len()
                invariant
                    i <= topic_filters@.len(),
                    ts == topics_view(topic_filters@),
                    acc == clamp_len(2 + topics_size(ts.take(i as int))),
                decreases topic_filters@.len() - i,
            {
                proof {
                    lemma_topics_size_take(ts, i as int);
                }
                acc = add_len(add_len(acc, 2), topic_filters[i].len());
                i = i + 1;
            }
            assert(ts.take(i as int) =~= ts);
            acc
        },
        Packet::PingRequest | Packet::PingResponse | Packet::Disconnect => 0,
    }
}

/// Appends a packet identifier: two bytes, most significant first.
pub fn encode_packet_id(id: PacketId, dst: &mut BytesMut)
    ensures
        buf_bytes(*final(dst)) == buf_bytes(*old(dst)) + be16(id@),
{
    put_u16(dst, id.get());
}

/// Appends a length-prefixed field holding `src`, or refuses a slice that
/// is too long for the prefix and leaves `dst` as it is.
pub fn encode_slice(src: &[u8], dst: &mut BytesMut) -> (r: Result<(), EncodeError>)
    ensures
        src@.len() > MAX_FIELD_LENGTH ==> r == Err::<(), _>(EncodeError::InvalidLength)
            && buf_bytes(*final(dst)) == buf_bytes(*old(dst)),
        src@.len() <= MAX_FIELD_LENGTH ==> r is Ok && buf_bytes(*final(dst)) == buf_bytes(
            *old(dst),
        ) + field(src@),
{
    if src.len() > MAX_FIELD_LENGTH {
        return Err(EncodeError::InvalidLength);
    }
    put_u16(dst, src.len() as u16);
    extend_from_slice(dst, src);
    assert(buf_bytes(*dst) =~= buf_bytes(*old(dst)) + field(src@));
    Ok(())
}

/// Appends a buffer as a length-prefixed field, or refuses one that is too
/// long for the prefix and leaves `dst` as it is.
pub fn encode_bytes(src: &Bytes, dst: &mut BytesMut) -> (r: Result<(), EncodeError>)
    ensures
        bytes_view(*src).len() > MAX_FIELD_LENGTH ==> r == Err::<(), _>(
            EncodeError::InvalidLength,
        ) && buf_bytes(*final(dst)) == buf_bytes(*old(dst)),
        bytes_view(*src).len() <= MAX_FIELD_LENGTH ==> r is Ok && buf_bytes(*final(dst))
            == buf_bytes(*old(dst)) + field(bytes_view(*src)),
{
    encode_slice(bytes_as_slice(src), dst)
}

/// Appends a string as a length-prefixed field, or refuses one that is too
/// long for the prefix and leaves `dst` as it is.
pub fn encode_text(src: &ByteStr, dst: &mut BytesMut) -> (r: Result<(), EncodeError>)
    ensures
        text_bytes(*src).len() > MAX_FIELD_LENGTH ==> r == Err::<(), _>(
            EncodeError::InvalidLength,
        ) && buf_bytes(*final(dst)) == buf_bytes(*old(dst)),
        text_bytes(*src).len() <= MAX_FIELD_LENGTH ==> r is Ok && buf_bytes(*final(dst))
            == buf_bytes(*old(dst)) + field(text_bytes(*src)),
{
    encode_bytes(src.as_bytes(), dst)
}

/// The connect-flags byte fields of a connection request.
pub fn flags_of_connect(connect: &Connect) -> (f: ConnectFlags)
    ensures
        f == connect_flags(connect@),
        f.wf(),
{
    let mut flags = ConnectFlags {
        username: connect.username.is_some(),
        password: connect.password.is_some(),
        will_retain: false,
        will_qos: QoS::AtMostOnce,
        will: false,
        clean_session: connect.clean_session,
    };
    if let Some(will) = &connect.last_will {
        flags.will = true;
        flags.will_retain = will.retain;
        flags.will_qos = will.qos;
    }
    flags
}

/// Whether every field of a connection request fits its length prefix.
fn connect_fits(connect: &Connect) -> (ok: bool)
    ensures
        ok == !connect_too_long(connect@),
{
    if connect.client_id.len() > MAX_FIELD_LENGTH {
        return false;
    }
    if let Some(will) = &connect.last_will {
        if will.topic.len() > MAX_FIELD_LENGTH || bytes_len(&will.message) > MAX_FIELD_LENGTH {
            return false;
        }
    }
    if let Some(s) = &connect.username {
        if s.len() > MAX_FIELD_LENGTH {
            return false;
        }
    }
    if let Some(s) = &connect.password {
        if bytes_len(s) > MAX_FIELD_LENGTH {
            return false;
        }
    }
    true
}

/// Appends the body of a connection request, or refuses one with a field
/// too long for its length prefix and leaves `dst` as it is.
pub fn encode_connect(connect: &Connect, dst: &mut BytesMut) -> (r: Result<(), EncodeError>)
    ensures
        connect_too_long(connect@) ==> r == Err::<(), _>(EncodeError::InvalidLength)
            && buf_bytes(*final(dst)) == buf_bytes(*old(dst)),
        !connect_too_long(connect@) ==> r is Ok && buf_bytes(*final(dst)) == buf_bytes(
            *old(dst),
        ) + connect_body(connect@),
{
    if !connect_fits(connect) {
        return Err(EncodeError::InvalidLength);
    }
    let ghost start = buf_bytes(*dst);
    let name: [u8; 4] = [0x4d, 0x51, 0x54, 0x54];
    assert(name@ =~= protocol_name());
    encode_slice(name.as_slice(), dst)?;
    let flags = flags_of_connect(connect);
    let fixed: [u8; 2] = [MQTT_LEVEL, flags.bits()];
    assert(fixed@ =~= seq![MQTT_LEVEL, connect_flags(connect@).spec_bits()]);
    put_slice(dst, fixed.as_slice());
    put_u16(dst, connect.keep_alive);
    encode_text(&connect.client_id, dst)?;
    let ghost head = start + field(protocol_name()) + seq![
        MQTT_LEVEL,
        connect_flags(connect@).spec_bits(),
    ] + be16(connect.keep_alive) + field(text_bytes(connect.client_id));
    assert(buf_bytes(*dst) == head);
    if let Some(will) = &connect.last_will {
        encode_text(&will.topic, dst)?;
        encode_bytes(&will.message, dst)?;
        assert(buf_bytes(*dst) =~= head + (field(text_bytes(will.topic)) + field(
            bytes_view(will.message),
        )));
    } else {
        assert(buf_bytes(*dst) =~= head + Seq::<u8>::empty());
    }
    let ghost with_will = buf_bytes(*dst);
    if let Some(s) = &connect.username {
        encode_text(s, dst)?;
    } else {
        assert(buf_bytes(*dst) =~= with_will + Seq::<u8>::empty());
    }
    let ghost with_name = buf_bytes(*dst);
    if let Some(s) = &connect.password {
        encode_bytes(s, dst)?;
    } else {
        assert(buf_bytes(*dst) =~= with_name + Seq::<u8>::empty());
    }
    assert(buf_bytes(*dst) =~= start + connect_body(connect@));
    Ok(())
}

/// Whether the filter of every subscription request fits its length prefix.
fn all_filters_fit(filters: &Vec<(ByteStr, QoS)>) -> (ok: bool)
    ensures
        ok == filters_fit(filters_view(filters@)),
{
    let ghost fs = filters_view(filters@);
    let mut i: usize = 0;
    while i < filters.len()
        invariant
            i <= filters@.len(),
            fs == filters_view(filters@),
            forall|j: int| 0 <= j < i ==> (#[trigger] fs[j]).0.len() <= MAX_FIELD_LENGTH,
        decreases filters@.len() - i,
    {
        if filters[i].0.len() > MAX_FIELD_LENGTH {
            assert(fs[i as int].0.len() > MAX_FIELD_LENGTH);
            return false;
        }
        i = i + 1;
    }
    true
}

/// Whether every topic filter fits its length prefix.
fn all_topics_fit(topics: &Vec<ByteStr>) -> (ok: bool)
    ensures
        ok == topics_fit(topics_view(topics@)),
{
    let ghost ts = topics_view(topics@);
    let mut i: usize = 0;
    while i < topics.len()
        invariant
            i <= topics@.len(),
            ts == topics_view(topics@),
            forall|j: int| 0 <= j < i ==> (#[trigger] ts[j]).len() <= MAX_FIELD_LENGTH,
        decreases topics@.len() - i,
    {
        if topics[i].len() > MAX_FIELD_LENGTH {
            assert(ts[i as int].len() > MAX_FIELD_LENGTH);
            return false;
        }
        i = i + 1;
    }
    true
}

/// Whether a packet has an encoding, and the reason where it has none.
pub fn validate(packet: &Packet) -> (r: Result<(), EncodeError>)
    ensures
        r == match encode_error(packet@) {
            Some(e) => Err::<(), _>(e),
            None => Ok::<_, EncodeError>(()),
        },
{
    match packet {
        Packet::Connect(connect) => {
            if connect_fits(connect) {
                Ok(())
            } else {
                Err(EncodeError::InvalidLength)
            }
        },
        Packet::Publish(publish) => {
            if publish.topic.len() > MAX_FIELD_LENGTH {
                Err(EncodeError::InvalidLength)
            } else if publish.qos == QoS::AtMostOnce {
                if publish.packet_id.is_some() {
                    Err(EncodeError::MalformedPacket)
                } else {
                    Ok(())
                }
            } else if publish.packet_id.is_none() {
                Err(EncodeError::PacketIdRequired)
            } else {
                Ok(())
            }
        },
        Packet::Subscribe { topic_filters, .. } => {
            if all_filters_fit(topic_filters) {
                Ok(())
            } else {
                Err(EncodeError::InvalidLength)
            }
        },
        Packet::Unsubscribe { topic_filters, .. } => {
            if all_topics_fit(topic_filters) {
                Ok(())
            } else {
                Err(EncodeError::InvalidLength)
            }
        },
        _ => Ok(()),
    }
}

/// Appends subscription requests, each filter as a field and then its
/// level.
fn encode_filters(filters: &Vec<(ByteStr, QoS)>, dst: &mut BytesMut)
    requires
        filters_fit(filters_view(filters@)),
    ensures
        buf_bytes(*final(dst)) == buf_bytes(*old(dst)) + filters_bytes(filters_view(filters@)),
{
    let ghost start = buf_bytes(*dst);
    let ghost fs = filters_view(filters@);
    let mut i: usize = 0;
    assert(buf_bytes(*dst) =~= start + filters_bytes(fs.take(0)));
    while i < filters.len()
        invariant
            i <= filters@.len(),
            fs == filters_view(filters@),
            filters_fit(fs),
            buf_bytes(*dst) == start + filters_bytes(fs.take(i as int)),
        decreases filters@.len() - i,
    {
        assert(fs[i as int].0.len() <= MAX_FIELD_LENGTH);
        let sent = encode_text(&filters[i].0, dst);
        assert(sent is Ok);
        put_u8(dst, filters[i].1.to_u8());
        proof {
            let next = fs.take(i + 1);
            assert(next.drop_last() =~= fs.take(i as int));
            assert(next.last() == fs[i as int]);
            assert(buf_bytes(*dst) =~= start + filters_bytes(next));
        }
        i = i + 1;
    }
    assert(fs.take(i as int) =~= fs);
}

/// Appends topic filters, each as a field.
fn encode_topics(topics: &Vec<ByteStr>, dst: &mut BytesMut)
    requires
        topics_fit(topics_view(topics@)),
    ensures
        buf_bytes(*final(dst)) == buf_bytes(*old(dst)) + topics_bytes(topics_view(topics@)),
{
    let ghost start = buf_bytes(*dst);
    let ghost ts = topics_view(topics@);
    let mut i: usize = 0;
    assert(buf_bytes(*dst) =~= start + topics_bytes(ts.take(0)));
    while i < topics.len()
        invariant
            i <= topics@.len(),
            ts == topics_view(topics@),
            topics_fit(ts),
            buf_bytes(*dst) == start + topics_bytes(ts.take(i as int)),
        decreases topics@.len() - i,
    {
        assert(ts[i as int].len() <= MAX_FIELD_LENGTH);
        let sent = encode_text(&topics[i], dst);
        assert(sent is Ok);
        proof {
            let next = ts.take(i + 1);
            assert(next.drop_last() =~= ts.take(i as int));
            assert(next.last() == ts[i as int]);
            assert(buf_bytes(*dst) =~= start + topics_bytes(next));
        }
        i = i + 1;
    }
    assert(ts.take(i as int) =~= ts);
}

/// Appends subscription outcomes, one status byte each.
fn encode_status(status: &Vec<SubscribeReturnCode>, dst: &mut BytesMut)
    ensures
        buf_bytes(*final(dst)) == buf_bytes(*old(dst)) + status_bytes(status@),
{
    let mut buf: Vec<u8> = Vec::with_capacity(status.len());
    let mut i: usize = 0;
    while i < status.len()
        invariant
            i <= status@.len(),
            buf@.len() == i,
            forall|j: int| 0 <= j < i ==> buf@[j] == status@[j].value(),
        decreases status@.len() - i,
    {
        buf.push(status[i].to_u8());
        i = i + 1;
    }
    assert(buf@ =~= status_bytes(status@));
    put_slice(dst, buf.as_slice());
}

/// Appends the first byte and the announced length of a packet.
fn encode_header(first: u8, content_size: usize, dst: &mut BytesMut)
    ensures
        buf_bytes(*final(dst)) == buf_bytes(*old(dst)) + (seq![first] + var_len_bytes(
            content_size as nat,
        )),
{
    put_u8(dst, first);
    write_variable_length(content_size, dst);
    assert(buf_bytes(*dst) =~= buf_bytes(*old(dst)) + (seq![first] + var_len_bytes(
        content_size as nat,
    )));
}

/// Appends `packet` to `dst` as it goes over the wire: the first byte, the
/// length `content_size` as a variable-length integer, then the body.
///
/// A packet that has no encoding is refused before anything is written, so
/// `dst` then stays as it was. `content_size` is written as given; for a
/// well-formed frame it is `get_encoded_size(packet)`. The three packets
/// without a body are written as their first byte and a zero.
pub fn encode(packet: &Packet, dst: &mut BytesMut, content_size: usize) -> (r: Result<
    (),
    EncodeError,
>)
    ensures
        match encode_error(packet@) {
            Some(e) => r == Err::<(), _>(e) && buf_bytes(*final(dst)) == buf_bytes(*old(dst)),
            None => r is Ok && buf_bytes(*final(dst)) == buf_bytes(*old(dst)) + frame(
                packet@,
                content_size as nat,
            ),
        },
{
    validate(packet)?;
    let ghost start = buf_bytes(*dst);
    match packet {
        Packet::Connect(connect) => {
            encode_header(packet_type::CONNECT, content_size, dst);
            encode_connect(connect, dst)?;
        },
        Packet::ConnectAck { session_present, return_code } => {
            encode_header(packet_type::CONNACK, content_size, dst);
            let flags_byte: u8 = if *session_present { 0x01 } else { 0x00 };
            let code: u8 = return_code.to_u8();
            let pair: [u8; 2] = [flags_byte, code];
            assert(pair@ =~= body(packet@));
            put_slice(dst, pair.as_slice());
        },
        Packet::Publish(publish) => {
            let first: u8 = pack_publish_first_byte(publish.dup, publish.qos, publish.retain);
            encode_header(first, content_size, dst);
            encode_text(&publish.topic, dst)?;
            if let Some(id) = publish.packet_id {
                encode_packet_id(id, dst);
            }
            put_slice(dst, bytes_as_slice(&publish.payload));
        },
        Packet::PublishAck { packet_id } => {
            encode_header(packet_type::PUBACK, content_size, dst);
            encode_packet_id(*packet_id, dst);
        },
        Packet::PublishReceived { packet_id } => {
            encode_header(packet_type::PUBREC, content_size, dst);
            encode_packet_id(*packet_id, dst);
        },
        Packet::PublishRelease { packet_id } => {
            encode_header(packet_type::PUBREL, content_size, dst);
            encode_packet_id(*packet_id, dst);
        },
        Packet::PublishComplete { packet_id } => {
            encode_header(packet_type::PUBCOMP, content_size, dst);
            encode_packet_id(*packet_id, dst);
        },
        Packet::Subscribe { packet_id, topic_filters } => {
            encode_header(packet_type::SUBSCRIBE, content_size, dst);
            encode_packet_id(*packet_id, dst);
            encode_filters(topic_filters, dst);
        },
        Packet::SubscribeAck { packet_id, status } => {
            encode_header(packet_type::SUBACK, content_size, dst);
            encode_packet_id(*packet_id, dst);
            encode_status(status, dst);
        },
        Packet::Unsubscribe { packet_id, topic_filters } => {
            encode_header(packet_type::UNSUBSCRIBE, content_size, dst);
            encode_packet_id(*packet_id, dst);
            encode_topics(topic_filters, dst);
        },
        Packet::UnsubscribeAck { packet_id } => {
            encode_header(packet_type::UNSUBACK, content_size, dst);
            encode_packet_id(*packet_id, dst);
        },
        Packet::PingRequest => {
            let pair: [u8; 2] = [packet_type::PINGREQ, 0];
            assert(pair@ =~= frame(packet@, content_size as nat));
            put_slice(dst, pair.as_slice());
        },
        Packet::PingResponse => {
            let pair: [u8; 2] = [packet_type::PINGRESP, 0];
            assert(pair@ =~= frame(packet@, content_size as nat));
            put_slice(dst, pair.as_slice());
        },
        Packet::Disconnect => {
            let pair: [u8; 2] = [packet_type::DISCONNECT, 0];
            assert(pair@ =~= frame(packet@, content_size as nat));
            put_slice(dst, pair.as_slice());
        },
    }
    assert(buf_bytes(*dst) =~= start + frame(packet@, content_size as nat));
    Ok(())
}

} // verus!
