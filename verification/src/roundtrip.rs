//! What holds between the two directions of the format: reading back what
//! was written gives the packet that was written.

use vstd::prelude::*;
use crate::buffer::be16;
use crate::buffer::bytes_len;
use crate::buffer::text_bytes;
use crate::buffer::ByteStr;
use crate::flags::lemma_publish_flags_round_trip;
use crate::flags::ConnectFlags;
use crate::parse::all_status;
use crate::parse::decode_body;
use crate::parse::decode_connect;
use crate::parse::decode_frame;
use crate::parse::decode_only_id;
use crate::parse::is_utf8;
use crate::parse::decode_publish;
use crate::parse::parse_connect_fields;
use crate::parse::parse_field;
use crate::parse::parse_filters;
use crate::parse::parse_opt_field;
use crate::parse::parse_opt_text;
use crate::parse::parse_packet_id;
use crate::parse::parse_text;
use crate::parse::parse_topics;
use crate::parse::parse_will;
use crate::parse::status_at;
use crate::parse::u16_at;
use crate::types::filters_view;
use crate::types::topics_view;
use crate::types::Connect;
use crate::types::ConnectAckReason;
use crate::types::ConnectModel;
use crate::types::DecodeError;
use crate::types::Packet;
use crate::types::PacketModel;
use crate::types::PublishModel;
use crate::types::QoS;
use crate::types::SubscribeReturnCode;
use crate::types::MAX_VARIABLE_LENGTH;
use crate::types::MQTT_LEVEL;
use crate::varlen::lemma_var_len_round_trip;
use crate::varlen::var_len_bytes;
use crate::varlen::var_len_parse;
use crate::wire::body;
use crate::wire::connect_body;
use crate::wire::connect_flags;
use crate::wire::encode_error;
use crate::wire::field;
use crate::wire::filters_bytes;
use crate::wire::first_byte;
use crate::wire::frame;
use crate::wire::is_bare;
use crate::wire::opt_field;
use crate::wire::protocol_name;
use crate::wire::publish_body;
use crate::wire::status_bytes;
use crate::wire::topics_bytes;
use crate::wire::MAX_FIELD_LENGTH;

verus! {

/// A string that fits its length prefix and is valid UTF-8.
pub open spec fn text_ok(s: Seq<u8>) -> bool {
    s.len() <= MAX_FIELD_LENGTH && is_utf8(s)
}

/// An optional string that, where present, is a string as above.
pub open spec fn opt_text_ok(s: Option<Seq<u8>>) -> bool {
    match s {
        Some(t) => text_ok(t),
        None => true,
    }
}

/// A packet as the protocol allows it on the wire.
///
/// Every field fits its length prefix and every string is valid UTF-8. An
/// identifier is not zero. A publication at level 0 has no identifier and
/// is no duplicate; one above it has an identifier. A request to subscribe
/// or unsubscribe names at least one filter.
pub open spec fn well_formed(m: PacketModel) -> bool {
    match m {
        PacketModel::Connect(c) => {
            &&& text_ok(c.client_id)
            &&& match c.last_will {
                Some(w) => text_ok(w.topic) && w.message.len() <= MAX_FIELD_LENGTH,
                None => true,
            }
            &&& opt_text_ok(c.username)
            &&& match c.password {
                Some(p) => p.len() <= MAX_FIELD_LENGTH,
                None => true,
            }
        },
        PacketModel::ConnectAck { .. } => true,
        PacketModel::Publish(p) => {
            &&& text_ok(p.topic)
            &&& if p.qos == QoS::AtMostOnce {
                p.packet_id is None && !p.dup
            } else {
                p.packet_id matches Some(id) && id != 0
            }
        },
        PacketModel::PublishAck { packet_id } => packet_id != 0,
        PacketModel::PublishReceived { packet_id } => packet_id != 0,
        PacketModel::PublishRelease { packet_id } => packet_id != 0,
        PacketModel::PublishComplete { packet_id } => packet_id != 0,
        PacketModel::Subscribe { packet_id, topic_filters } => {
            &&& packet_id != 0
            &&& topic_filters.len() > 0
            &&& forall|i: int|
                0 <= i < topic_filters.len() ==> text_ok((#[trigger] topic_filters[i]).0)
        },
        PacketModel::SubscribeAck { packet_id, .. } => packet_id != 0,
        PacketModel::Unsubscribe { packet_id, topic_filters } => {
            &&& packet_id != 0
            &&& topic_filters.len() > 0
            &&& forall|i: int| 0 <= i < topic_filters.len() ==> text_ok(#[trigger] topic_filters[i])
        },
        PacketModel::UnsubscribeAck { packet_id } => packet_id != 0,
        PacketModel::PingRequest => true,
        PacketModel::PingResponse => true,
        PacketModel::Disconnect => true,
    }
}

/// Whether a string fits its length prefix. That it is valid UTF-8 comes
/// with its type.
fn text_fits(t: &ByteStr) -> (ok: bool)
    ensures
        ok == text_ok(text_bytes(*t)),
{
    proof {
        reveal(is_utf8);
    }
    bytes_len(t.as_bytes()) <= MAX_FIELD_LENGTH
}

/// Whether every filter of the requests fits its length prefix.
fn filters_ok(filters: &Vec<(ByteStr, QoS)>) -> (ok: bool)
    ensures
        ok == forall|i: int|
            0 <= i < filters@.len() ==> text_ok((#[trigger] filters_view(filters@)[i]).0),
{
    let ghost fs = filters_view(filters@);
    let mut i: usize = 0;
    while i < filters.len()
        invariant
            i <= filters@.len(),
            fs == filters_view(filters@),
            forall|j: int| 0 <= j < i ==> text_ok((#[trigger] fs[j]).0),
        decreases filters@.len() - i,
    {
        if !text_fits(&filters[i].0) {
            assert(!text_ok(fs[i as int].0));
            return false;
        }
        i = i + 1;
    }
    true
}

/// Whether every topic filter fits its length prefix.
fn topics_ok(topics: &Vec<ByteStr>) -> (ok: bool)
    ensures
        ok == forall|i: int| 0 <= i < topics@.len() ==> text_ok(#[trigger] topics_view(topics@)[i]),
{
    let ghost ts = topics_view(topics@);
    let mut i: usize = 0;
    while i < topics.len()
        invariant
            i <= topics@.len(),
            ts == topics_view(topics@),
            forall|j: int| 0 <= j < i ==> text_ok(#[trigger] ts[j]),
        decreases topics@.len() - i,
    {
        if !text_fits(&topics[i]) {
            assert(!text_ok(ts[i as int]));
            return false;
        }
        i = i + 1;
    }
    true
}

/// Whether a connection request is as the protocol allows it on the wire.
fn connect_ok(c: &Connect) -> (ok: bool)
    ensures
        ok == well_formed(PacketModel::Connect(c@)),
{
    if !text_fits(&c.client_id) {
        return false;
    }
    if let Some(w) = &c.last_will {
        if !text_fits(&w.topic) || bytes_len(&w.message) > MAX_FIELD_LENGTH {
            return false;
        }
    }
    if let Some(u) = &c.username {
        if !text_fits(u) {
            return false;
        }
    }
    if let Some(p) = &c.password {
        if bytes_len(p) > MAX_FIELD_LENGTH {
            return false;
        }
    }
    true
}

/// Whether a packet is as the protocol allows it on the wire, which is
/// when reading back what `encode` writes for it gives the packet again.
pub fn is_well_formed(packet: &Packet) -> (ok: bool)
    ensures
        ok == well_formed(packet@),
{
    match packet {
        Packet::Connect(c) => connect_ok(c),
        Packet::ConnectAck { .. } => true,
        Packet::Publish(p) => {
            if !text_fits(&p.topic) {
                false
            } else if p.qos == QoS::AtMostOnce {
                p.packet_id.is_none() && !p.dup
            } else {
                match &p.packet_id {
                    Some(id) => id.get() != 0,
                    None => false,
                }
            }
        },
        Packet::PublishAck { packet_id } => packet_id.get() != 0,
        Packet::PublishReceived { packet_id } => packet_id.get() != 0,
        Packet::PublishRelease { packet_id } => packet_id.get() != 0,
        Packet::PublishComplete { packet_id } => packet_id.get() != 0,
        Packet::Subscribe { packet_id, topic_filters } => packet_id.get() != 0
            && topic_filters.len() > 0 && filters_ok(topic_filters),
        Packet::SubscribeAck { packet_id, .. } => packet_id.get() != 0,
        Packet::Unsubscribe { packet_id, topic_filters } => packet_id.get() != 0
            && topic_filters.len() > 0 && topics_ok(topic_filters),
        Packet::UnsubscribeAck { packet_id } => packet_id.get() != 0,
        Packet::PingRequest => true,
        Packet::PingResponse => true,
        Packet::Disconnect => true,
    }
}

/// A well-formed packet has an encoding.
pub proof fn lemma_well_formed_encodes(m: PacketModel)
    requires
        well_formed(m),
    ensures
        encode_error(m) is None,
{
}

/// Concatenation does not depend on grouping.
proof fn lemma_regroup(a: Seq<u8>, b: Seq<u8>, c: Seq<u8>)
    ensures
        (a + b) + c == a + (b + c),
{
    assert((a + b) + c =~= a + (b + c));
}

/// Where the bytes from `pos` on start with a 16-bit integer, that integer
/// is read there, and what follows it starts two bytes later.
pub proof fn lemma_u16_round_trip(s: Seq<u8>, pos: int, n: u16, post: Seq<u8>)
    requires
        0 <= pos <= s.len(),
        s.skip(pos) == be16(n) + post,
    ensures
        pos + 2 <= s.len(),
        u16_at(s, pos) == n,
        s.skip(pos + 2) == post,
{
    let tail = s.skip(pos);
    assert(tail.len() == 2 + post.len());
    assert(s[pos] == tail[0]);
    assert(s[pos + 1] == tail[1]);
    assert(tail[0] == be16(n)[0]);
    assert(tail[1] == be16(n)[1]);
    assert(s.skip(pos + 2) =~= post) by {
        assert forall|i: int| 0 <= i < post.len() implies s.skip(pos + 2)[i] == post[i] by {
            assert(s.skip(pos + 2)[i] == tail[i + 2]);
        }
    }
}

/// Where the bytes from `pos` on start with a field that fits its prefix,
/// that field is read there, and what follows it starts right after it.
pub proof fn lemma_field_round_trip(s: Seq<u8>, pos: int, f: Seq<u8>, post: Seq<u8>)
    requires
        f.len() <= MAX_FIELD_LENGTH,
        0 <= pos <= s.len(),
        s.skip(pos) == field(f) + post,
    ensures
        pos + 2 + f.len() <= s.len(),
        parse_field(s, pos) == Some((f, pos + 2 + f.len() as int)),
        s.skip(pos + 2 + f.len() as int) == post,
{
    lemma_regroup(be16(f.len() as u16), f, post);
    lemma_u16_round_trip(s, pos, f.len() as u16, f + post);
    let tail = s.skip(pos + 2);
    let end = pos + 2 + f.len() as int;
    assert(tail.len() == f.len() + post.len());
    assert(s.subrange(pos + 2, end) =~= f) by {
        assert forall|i: int| 0 <= i < f.len() implies s.subrange(pos + 2, end)[i] == f[i] by {
            assert(s[pos + 2 + i] == tail[i]);
        }
    }
    assert(s.skip(end) =~= post) by {
        assert forall|i: int| 0 <= i < post.len() implies s.skip(end)[i] == post[i] by {
            assert(s.skip(end)[i] == tail[i + f.len()]);
        }
    }
}

/// Where the bytes from `pos` on start with a string that fits its prefix,
/// that string is read there, and what follows it starts right after it.
pub proof fn lemma_text_round_trip(s: Seq<u8>, pos: int, f: Seq<u8>, post: Seq<u8>)
    requires
        text_ok(f),
        0 <= pos <= s.len(),
        s.skip(pos) == field(f) + post,
    ensures
        pos + 2 + f.len() <= s.len(),
        parse_text(s, pos) == Some((f, pos + 2 + f.len() as int)),
        s.skip(pos + 2 + f.len() as int) == post,
{
    lemma_field_round_trip(s, pos, f, post);
}

/// Subscription requests in a row start with the first of them.
proof fn lemma_filters_front(fs: Seq<(Seq<u8>, QoS)>)
    requires
        fs.len() > 0,
    ensures
        filters_bytes(fs) == field(fs[0].0) + (seq![fs[0].1.value()] + filters_bytes(fs.skip(1))),
    decreases fs.len(),
{
    let first = field(fs[0].0);
    let level = seq![fs[0].1.value()];
    let item = field(fs.last().0) + seq![fs.last().1.value()];
    assert(filters_bytes(fs) == filters_bytes(fs.drop_last()) + field(fs.last().0)
        + seq![fs.last().1.value()]);
    lemma_regroup(filters_bytes(fs.drop_last()), field(fs.last().0), seq![fs.last().1.value()]);
    if fs.len() == 1 {
        assert(fs.drop_last() =~= Seq::empty());
        assert(fs.skip(1) =~= Seq::empty());
        assert(filters_bytes(fs.drop_last()) + item =~= first + (level + Seq::<u8>::empty()));
    } else {
        let inner = fs.drop_last().skip(1);
        lemma_filters_front(fs.drop_last());
        assert(fs.skip(1).drop_last() =~= inner);
        assert(fs.skip(1).last() == fs.last());
        assert(fs.drop_last()[0] == fs[0]);
        assert(filters_bytes(fs.skip(1)) == filters_bytes(inner) + field(fs.last().0)
            + seq![fs.last().1.value()]);
        lemma_regroup(filters_bytes(inner), field(fs.last().0), seq![fs.last().1.value()]);
        lemma_regroup(first, level + filters_bytes(inner), item);
        lemma_regroup(level, filters_bytes(inner), item);
    }
}

/// Where the bytes from `pos` on are subscription requests in a row, those
/// requests are read there.
pub proof fn lemma_filters_round_trip(s: Seq<u8>, pos: int, fs: Seq<(Seq<u8>, QoS)>)
    requires
        forall|i: int| 0 <= i < fs.len() ==> text_ok((#[trigger] fs[i]).0),
        0 <= pos <= s.len(),
        s.skip(pos) == filters_bytes(fs),
    ensures
        parse_filters(s, pos) == Some(fs),
    decreases fs.len(),
{
    if fs.len() == 0 {
        assert(s.skip(pos).len() == 0);
        assert(fs =~= Seq::empty());
    } else {
        let t = fs[0].0;
        let q = fs[0].1;
        let rest = fs.skip(1);
        let level = seq![q.value()];
        lemma_filters_front(fs);
        lemma_text_round_trip(s, pos, t, level + filters_bytes(rest));
        let next = pos + 2 + t.len() as int;
        let tail = s.skip(next);
        assert(tail.len() == 1 + filters_bytes(rest).len());
        assert(s[next] == tail[0]);
        assert(tail[0] == level[0]);
        assert(QoS::of(q.value()) == Some(q));
        assert(s.skip(next + 1) =~= filters_bytes(rest)) by {
            assert forall|i: int| 0 <= i < filters_bytes(rest).len() implies s.skip(next + 1)[i]
                == filters_bytes(rest)[i] by {
                assert(s.skip(next + 1)[i] == tail[i + 1]);
            }
        }
        assert forall|i: int| 0 <= i < rest.len() implies text_ok((#[trigger] rest[i]).0) by {
            assert(rest[i] == fs[i + 1]);
        }
        lemma_filters_round_trip(s, next + 1, rest);
        assert(seq![(t, q)] + rest =~= fs);
    }
}

/// Topic filters in a row start with the first of them.
proof fn lemma_topics_front(ts: Seq<Seq<u8>>)
    requires
        ts.len() > 0,
    ensures
        topics_bytes(ts) == field(ts[0]) + topics_bytes(ts.skip(1)),
    decreases ts.len(),
{
    let first = field(ts[0]);
    let item = field(ts.last());
    if ts.len() == 1 {
        assert(ts.drop_last() =~= Seq::empty());
        assert(ts.skip(1) =~= Seq::empty());
        assert(topics_bytes(ts.drop_last()) + item =~= first + Seq::<u8>::empty());
    } else {
        let inner = ts.drop_last().skip(1);
        lemma_topics_front(ts.drop_last());
        assert(ts.skip(1).drop_last() =~= inner);
        assert(ts.skip(1).last() == ts.last());
        assert(ts.drop_last()[0] == ts[0]);
        lemma_regroup(first, topics_bytes(inner), item);
    }
}

/// Where the bytes from `pos` on are topic filters in a row, those filters
/// are read there.
pub proof fn lemma_topics_round_trip(s: Seq<u8>, pos: int, ts: Seq<Seq<u8>>)
    requires
        forall|i: int| 0 <= i < ts.len() ==> text_ok(#[trigger] ts[i]),
        0 <= pos <= s.len(),
        s.skip(pos) == topics_bytes(ts),
    ensures
        parse_topics(s, pos) == Some(ts),
    decreases ts.len(),
{
    if ts.len() == 0 {
        assert(s.skip(pos).len() == 0);
        assert(ts =~= Seq::empty());
    } else {
        let t = ts[0];
        let rest = ts.skip(1);
        lemma_topics_front(ts);
        lemma_text_round_trip(s, pos, t, topics_bytes(rest));
        assert forall|i: int| 0 <= i < rest.len() implies text_ok(#[trigger] rest[i]) by {
            assert(rest[i] == ts[i + 1]);
        }
        lemma_topics_round_trip(s, pos + 2 + t.len() as int, rest);
        assert(seq![t] + rest =~= ts);
    }
}

/// Subscription outcomes written after an identifier read back as they
/// were.
pub proof fn lemma_status_round_trip(id: u16, st: Seq<SubscribeReturnCode>)
    ensures
        all_status(be16(id) + status_bytes(st), 2),
        status_at(be16(id) + status_bytes(st), 2) == st,
{
    let s = be16(id) + status_bytes(st);
    assert forall|i: int| 2 <= i < s.len() implies SubscribeReturnCode::of(#[trigger] s[i])
        == Some(st[i - 2]) by {
        assert(s[i] == status_bytes(st)[i - 2]);
    }
    assert(status_at(s, 2) =~= st);
}

/// An identifier that is not zero, written first, reads back as it was,
/// and what follows it starts two bytes later.
pub proof fn lemma_packet_id_round_trip(id: u16, post: Seq<u8>)
    requires
        id != 0,
    ensures
        parse_packet_id(be16(id) + post, 0) == Some(id),
        (be16(id) + post).skip(2) == post,
{
    let s = be16(id) + post;
    assert(s.skip(0) =~= s);
    lemma_u16_round_trip(s, 0, id, post);
}

/// A body made of an identifier that is not zero reads back as it.
proof fn lemma_only_id_round_trip(id: u16)
    requires
        id != 0,
    ensures
        decode_only_id(be16(id)) == Some(id),
{
    lemma_packet_id_round_trip(id, Seq::empty());
    assert(be16(id) + Seq::<u8>::empty() =~= be16(id));
}

/// Unpacking the connect-flags of a connection request gives them back.
proof fn lemma_connect_flags(c: ConnectModel)
    ensures
        ConnectFlags::spec_from_bits(connect_flags(c).spec_bits()) == Some(connect_flags(c)),
{
    connect_flags(c).lemma_round_trip();
}

/// The will of a well-formed connection request reads back as it was.
proof fn lemma_will_round_trip(s: Seq<u8>, pos: int, c: ConnectModel, post: Seq<u8>)
    requires
        well_formed(PacketModel::Connect(c)),
        0 <= pos <= s.len(),
        s.skip(pos) == (match c.last_will {
            Some(w) => field(w.topic) + field(w.message),
            None => Seq::<u8>::empty(),
        }) + post,
    ensures
        parse_will(s, pos, connect_flags(c)) matches Some((w, next)) && w == c.last_will && 0
            <= next <= s.len() && s.skip(next) == post,
{
    match c.last_will {
        Some(w) => {
            lemma_regroup(field(w.topic), field(w.message), post);
            lemma_text_round_trip(s, pos, w.topic, field(w.message) + post);
            lemma_field_round_trip(s, pos + 2 + w.topic.len() as int, w.message, post);
        },
        None => {
            assert(Seq::<u8>::empty() + post =~= post);
        },
    }
}

/// An optional string of a well-formed packet reads back as it was.
proof fn lemma_opt_text_round_trip(s: Seq<u8>, pos: int, t: Option<Seq<u8>>, post: Seq<u8>)
    requires
        opt_text_ok(t),
        0 <= pos <= s.len(),
        s.skip(pos) == opt_field(t) + post,
    ensures
        parse_opt_text(s, pos, t is Some) matches Some((x, next)) && x == t && 0 <= next
            <= s.len() && s.skip(next) == post,
{
    match t {
        Some(f) => {
            lemma_text_round_trip(s, pos, f, post);
        },
        None => {
            assert(Seq::<u8>::empty() + post =~= post);
        },
    }
}

/// An optional buffer that fits its prefix reads back as it was.
proof fn lemma_opt_field_round_trip(s: Seq<u8>, pos: int, t: Option<Seq<u8>>, post: Seq<u8>)
    requires
        t matches Some(f) ==> f.len() <= MAX_FIELD_LENGTH,
        0 <= pos <= s.len(),
        s.skip(pos) == opt_field(t) + post,
    ensures
        parse_opt_field(s, pos, t is Some) matches Some((x, next)) && x == t && 0 <= next
            <= s.len() && s.skip(next) == post,
{
    match t {
        Some(f) => {
            lemma_field_round_trip(s, pos, f, post);
        },
        None => {
            assert(Seq::<u8>::empty() + post =~= post);
        },
    }
}

/// The body of a connection request, its parts grouped from the right.
proof fn lemma_connect_body_parts(c: ConnectModel)
    ensures
        connect_body(c) == field(protocol_name()) + (seq![
            MQTT_LEVEL,
            connect_flags(c).spec_bits(),
        ] + (be16(c.keep_alive) + (field(c.client_id) + ((match c.last_will {
            Some(w) => field(w.topic) + field(w.message),
            None => Seq::<u8>::empty(),
        }) + (opt_field(c.username) + (opt_field(c.password) + Seq::<u8>::empty())))))),
{
    let name = field(protocol_name());
    let fixed = seq![MQTT_LEVEL, connect_flags(c).spec_bits()];
    let keep = be16(c.keep_alive);
    let id = field(c.client_id);
    let will = match c.last_will {
        Some(w) => field(w.topic) + field(w.message),
        None => Seq::<u8>::empty(),
    };
    let user = opt_field(c.username);
    let pass = opt_field(c.password);
    assert(pass + Seq::<u8>::empty() =~= pass);
    lemma_regroup(name + fixed + keep + id + will, user, pass);
    lemma_regroup(name + fixed + keep + id, will, user + pass);
    lemma_regroup(name + fixed + keep, id, will + (user + pass));
    lemma_regroup(name + fixed, keep, id + (will + (user + pass)));
    lemma_regroup(name, fixed, keep + (id + (will + (user + pass))));
}

/// What stands where in a sequence that starts with six bytes and two.
proof fn lemma_head_parts(s: Seq<u8>, name: Seq<u8>, fixed: Seq<u8>, rest: Seq<u8>)
    requires
        s == name + (fixed + rest),
        name.len() == 6,
        fixed.len() == 2,
    ensures
        s.len() == 8 + rest.len(),
        s.subrange(0, 6) == name,
        s[6] == fixed[0],
        s[7] == fixed[1],
        s.skip(8) == rest,
{
    assert(s.subrange(0, 6) =~= name);
    assert(s.skip(8) =~= rest);
}

/// The fields of a well-formed connection request, from the keep-alive on,
/// read back as they were.
proof fn lemma_connect_fields_round_trip(s: Seq<u8>, c: ConnectModel)
    requires
        well_formed(PacketModel::Connect(c)),
        s.len() >= 8,
        s.skip(8) == be16(c.keep_alive) + (field(c.client_id) + ((match c.last_will {
            Some(w) => field(w.topic) + field(w.message),
            None => Seq::<u8>::empty(),
        }) + (opt_field(c.username) + (opt_field(c.password) + Seq::<u8>::empty())))),
    ensures
        parse_connect_fields(s, connect_flags(c)) == Some(c),
{
    let flags = connect_flags(c);
    let will = match c.last_will {
        Some(w) => field(w.topic) + field(w.message),
        None => Seq::<u8>::empty(),
    };
    let user = opt_field(c.username);
    let pass = opt_field(c.password);
    let none = Seq::<u8>::empty();
    let after_id = will + (user + (pass + none));
    let after_keep = field(c.client_id) + after_id;
    lemma_u16_round_trip(s, 8, c.keep_alive, after_keep);
    lemma_text_round_trip(s, 10, c.client_id, after_id);
    let p1 = 12 + c.client_id.len() as int;
    lemma_will_round_trip(s, p1, c, user + (pass + none));
    let p2 = parse_will(s, p1, flags).unwrap().1;
    lemma_opt_text_round_trip(s, p2, c.username, pass + none);
    let p3 = parse_opt_text(s, p2, flags.username).unwrap().1;
    lemma_opt_field_round_trip(s, p3, c.password, none);
    let p4 = parse_opt_field(s, p3, flags.password).unwrap().1;
    assert(s.skip(p4).len() == 0);
    assert(p4 == s.len());
}

/// The body of a well-formed connection request reads back as the request.
pub proof fn lemma_connect_round_trip(c: ConnectModel)
    requires
        well_formed(PacketModel::Connect(c)),
    ensures
        decode_connect(connect_body(c)) == Ok::<_, DecodeError>(c),
{
    let s = connect_body(c);
    let name = field(protocol_name());
    let fixed = seq![MQTT_LEVEL, connect_flags(c).spec_bits()];
    lemma_connect_body_parts(c);
    lemma_connect_flags(c);
    assert(name.len() == 6);
    lemma_head_parts(
        s,
        name,
        fixed,
        be16(c.keep_alive) + (field(c.client_id) + ((match c.last_will {
            Some(w) => field(w.topic) + field(w.message),
            None => Seq::<u8>::empty(),
        }) + (opt_field(c.username) + (opt_field(c.password) + Seq::<u8>::empty())))),
    );
    lemma_connect_fields_round_trip(s, c);
}

/// The first byte and the body of a well-formed publication read back as
/// the publication.
pub proof fn lemma_publish_round_trip(p: PublishModel)
    requires
        well_formed(PacketModel::Publish(p)),
    ensures
        decode_publish(first_byte(PacketModel::Publish(p)), publish_body(p)) == Ok::<
            _,
            DecodeError,
        >(p),
{
    let s = publish_body(p);
    lemma_publish_flags_round_trip(p.dup, p.qos, p.retain);
    let next = 2 + p.topic.len() as int;
    assert(s.skip(0) =~= s);
    match p.packet_id {
        Some(id) => {
            lemma_regroup(field(p.topic), be16(id), p.payload);
            lemma_text_round_trip(s, 0, p.topic, be16(id) + p.payload);
            lemma_u16_round_trip(s, next, id, p.payload);
            assert(s.subrange(next + 2, s.len() as int) =~= s.skip(next + 2));
        },
        None => {
            assert(field(p.topic) + Seq::<u8>::empty() =~= field(p.topic));
            lemma_text_round_trip(s, 0, p.topic, p.payload);
            assert(s.subrange(next, s.len() as int) =~= s.skip(next));
        },
    }
}

/// Decoding inverts encoding: the first byte and the body of a well-formed
/// packet read back as that packet.
pub proof fn lemma_body_round_trip(m: PacketModel)
    requires
        well_formed(m),
    ensures
        decode_body(first_byte(m), body(m)) == Ok::<_, DecodeError>(m),
{
    match m {
        PacketModel::Connect(c) => {
            lemma_connect_round_trip(c);
        },
        PacketModel::ConnectAck { session_present, return_code } => {
            assert(ConnectAckReason::of(return_code.value()) == return_code);
        },
        PacketModel::Publish(p) => {
            lemma_publish_round_trip(p);
        },
        PacketModel::PublishAck { packet_id } => {
            lemma_only_id_round_trip(packet_id);
        },
        PacketModel::PublishReceived { packet_id } => {
            lemma_only_id_round_trip(packet_id);
        },
        PacketModel::PublishRelease { packet_id } => {
            lemma_only_id_round_trip(packet_id);
        },
        PacketModel::PublishComplete { packet_id } => {
            lemma_only_id_round_trip(packet_id);
        },
        PacketModel::UnsubscribeAck { packet_id } => {
            lemma_only_id_round_trip(packet_id);
        },
        PacketModel::Subscribe { packet_id, topic_filters } => {
            lemma_packet_id_round_trip(packet_id, filters_bytes(topic_filters));
            lemma_filters_round_trip(body(m), 2, topic_filters);
        },
        PacketModel::SubscribeAck { packet_id, status } => {
            lemma_packet_id_round_trip(packet_id, status_bytes(status));
            lemma_status_round_trip(packet_id, status);
        },
        PacketModel::Unsubscribe { packet_id, topic_filters } => {
            lemma_packet_id_round_trip(packet_id, topics_bytes(topic_filters));
            lemma_topics_round_trip(body(m), 2, topic_filters);
        },
        PacketModel::PingRequest => {},
        PacketModel::PingResponse => {},
        PacketModel::Disconnect => {},
    }
}

/// A frame is its first byte, the length of its body, and its body.
proof fn lemma_frame_shape(m: PacketModel)
    ensures
        frame(m, body(m).len()) == seq![first_byte(m)] + var_len_bytes(body(m).len()) + body(m),
{
    if is_bare(m) {
        assert(body(m).len() == 0);
        assert(frame(m, body(m).len()) =~= seq![first_byte(m)] + var_len_bytes(0) + body(m));
    }
}

/// What stands where in a sequence made of one byte and three parts.
proof fn lemma_frame_parts(first: u8, len_bytes: Seq<u8>, content: Seq<u8>, rest: Seq<u8>)
    ensures
        ({
            let s = seq![first] + len_bytes + content + rest;
            &&& s.len() == 1 + len_bytes.len() + content.len() + rest.len()
            &&& s[0] == first
            &&& s.subrange(1, s.len() as int) == len_bytes + (content + rest)
            &&& s.subrange(1 + len_bytes.len() as int, 1 + len_bytes.len() as int + content.len() as int)
                == content
        }),
{
    let s = seq![first] + len_bytes + content + rest;
    assert(s.subrange(1, s.len() as int) =~= len_bytes + (content + rest));
    assert(s.subrange(1 + len_bytes.len() as int, 1 + len_bytes.len() as int + content.len() as int)
        =~= content);
}

/// What stands where in the first bytes of a sequence made of one byte and
/// two parts.
proof fn lemma_prefix_parts(first: u8, len_bytes: Seq<u8>, content: Seq<u8>, k: int)
    requires
        0 < k <= 1 + len_bytes.len() + content.len(),
    ensures
        ({
            let s = (seq![first] + len_bytes + content).take(k);
            &&& s.len() == k
            &&& k - 1 < len_bytes.len() ==> s.subrange(1, k) == len_bytes.take(k - 1)
            &&& k - 1 >= len_bytes.len() ==> s.subrange(1, k) == len_bytes + content.take(
                k - 1 - len_bytes.len(),
            )
        }),
{
    let s = (seq![first] + len_bytes + content).take(k);
    if k - 1 < len_bytes.len() {
        assert(s.subrange(1, k) =~= len_bytes.take(k - 1));
    } else {
        assert(s.subrange(1, k) =~= len_bytes + content.take(k - 1 - len_bytes.len()));
    }
}

/// The bytes that stand for a length are one to four, and all but the last
/// of them announce a successor.
proof fn lemma_var_len_shape(n: nat)
    requires
        n <= MAX_VARIABLE_LENGTH,
    ensures
        1 <= var_len_bytes(n).len() <= 4,
        forall|i: int| 0 <= i < var_len_bytes(n).len() - 1 ==> var_len_bytes(n)[i] >= 128,
{
}

/// A sequence of fewer than four bytes that all announce a successor is
/// an incomplete length.
proof fn lemma_var_len_incomplete(s: Seq<u8>)
    requires
        s.len() < 4,
        forall|i: int| 0 <= i < s.len() ==> s[i] >= 128,
    ensures
        var_len_parse(s) == Ok::<Option<(nat, nat)>, DecodeError>(None),
{
}

/// A whole frame reads back as its packet and its own length, whatever
/// follows it in the buffer.
pub proof fn lemma_frame_round_trip(m: PacketModel, rest: Seq<u8>)
    requires
        well_formed(m),
        body(m).len() <= MAX_VARIABLE_LENGTH,
    ensures
        decode_frame(frame(m, body(m).len()) + rest) == Ok::<_, DecodeError>(
            Some((m, frame(m, body(m).len()).len())),
        ),
{
    let n = body(m).len();
    let len_bytes = var_len_bytes(n);
    lemma_frame_shape(m);
    lemma_frame_parts(first_byte(m), len_bytes, body(m), rest);
    lemma_var_len_round_trip(n, body(m) + rest);
    lemma_body_round_trip(m);
}

/// A buffer that ends before a frame does is incomplete, at whatever byte
/// it ends: no proper prefix of a frame reads as a packet or as an error.
pub proof fn lemma_frame_prefix_incomplete(m: PacketModel, k: int)
    requires
        body(m).len() <= MAX_VARIABLE_LENGTH,
        0 <= k < frame(m, body(m).len()).len(),
    ensures
        decode_frame(frame(m, body(m).len()).take(k)) == Ok::<
            Option<(PacketModel, nat)>,
            DecodeError,
        >(None),
{
    let n = body(m).len();
    let len_bytes = var_len_bytes(n);
    let s = frame(m, n).take(k);
    lemma_frame_shape(m);
    if k > 0 {
        lemma_prefix_parts(first_byte(m), len_bytes, body(m), k);
        lemma_var_len_shape(n);
        let tail = s.subrange(1, k);
        if k - 1 < len_bytes.len() {
            assert forall|i: int| 0 <= i < tail.len() implies tail[i] >= 128 by {
                assert(tail[i] == len_bytes[i]);
            }
            lemma_var_len_incomplete(tail);
        } else {
            lemma_var_len_round_trip(n, body(m).take(k - 1 - len_bytes.len()));
        }
    }
}

} // verus!
