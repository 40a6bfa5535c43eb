use bytes::Bytes;
use bytes::BytesMut;
use mqtt_wire::buffer::ByteStr;
use mqtt_wire::encode::encode;
use mqtt_wire::encode::get_encoded_size;
use mqtt_wire::types::Connect;
use mqtt_wire::types::ConnectAckReason;
use mqtt_wire::types::EncodeError;
use mqtt_wire::types::LastWill;
use mqtt_wire::types::Packet;
use mqtt_wire::types::PacketId;
use mqtt_wire::types::Publish;
use mqtt_wire::types::QoS;
use mqtt_wire::types::SubscribeReturnCode;
use mqtt_wire::varlen::write_variable_length;

fn packet_id(v: u16) -> PacketId {
    PacketId::new(v).unwrap()
}

#[test]
fn test_encode_variable_length() {
    let mut v = BytesMut::new();

    write_variable_length(123, &mut v);
    assert_eq!(v, [123].as_ref());

    v.clear();

    write_variable_length(129, &mut v);
    assert_eq!(v, b"\x81\x01".as_ref());

    v.clear();

    write_variable_length(16383, &mut v);
    assert_eq!(v, b"\xff\x7f".as_ref());

    v.clear();

    write_variable_length(2097151, &mut v);
    assert_eq!(v, b"\xff\xff\x7f".as_ref());

    v.clear();

    write_variable_length(268435455, &mut v);
    assert_eq!(v, b"\xff\xff\xff\x7f".as_ref());
}

#[test]
fn test_encode_fixed_header() {
    let mut v = BytesMut::new();
    let p = Packet::PingRequest;

    assert_eq!(get_encoded_size(&p), 0);
    encode(&p, &mut v, 0).unwrap();
    assert_eq!(v, b"\xc0\x00".as_ref());

    v.clear();

    let p = Packet::Publish(Publish {
        dup: true,
        retain: true,
        qos: QoS::ExactlyOnce,
        topic: ByteStr::from_static("topic"),
        packet_id: Some(packet_id(0x4321)),
        payload: (0..255).collect::<Vec<u8>>().into(),
    });

    assert_eq!(get_encoded_size(&p), 264);
    encode(&p, &mut v, 264).unwrap();
    assert_eq!(&v[0..3], b"\x3d\x88\x02".as_ref());
}

fn assert_encode_packet(packet: &Packet, expected: &[u8]) {
    let mut v = BytesMut::with_capacity(1024);
    encode(packet, &mut v, get_encoded_size(packet)).unwrap();
    assert_eq!(expected.len(), v.len());
    assert_eq!(&expected[..], &v[..]);
}

#[test]
fn test_encode_connect_packets() {
    assert_encode_packet(
        &Packet::Connect(Connect {
            clean_session: false,
            keep_alive: 60,
            client_id: ByteStr::from_static("12345"),
            last_will: None,
            username: Some(ByteStr::from_static("user")),
            password: Some(Bytes::from_static(b"pass")),
        }),
        &b"\x10\x1D\x00\x04MQTT\x04\xC0\x00\x3C\x00\
\x0512345\x00\x04user\x00\x04pass"[..],
    );

    assert_encode_packet(
        &Packet::Connect(Connect {
            clean_session: false,
            keep_alive: 60,
            client_id: ByteStr::from_static("12345"),
            last_will: Some(LastWill {
                qos: QoS::ExactlyOnce,
                retain: false,
                topic: ByteStr::from_static("topic"),
                message: Bytes::from_static(b"message"),
            }),
            username: None,
            password: None,
        }),
        &b"\x10\x21\x00\x04MQTT\x04\x14\x00\x3C\x00\
\x0512345\x00\x05topic\x00\x07message"[..],
    );

    assert_encode_packet(&Packet::Disconnect, b"\xe0\x00");
}

#[test]
fn test_encode_publish_packets() {
    assert_encode_packet(
        &Packet::Publish(Publish {
            dup: true,
            retain: true,
            qos: QoS::ExactlyOnce,
            topic: ByteStr::from_static("topic"),
            packet_id: Some(packet_id(0x4321)),
            payload: Bytes::from_static(b"data"),
        }),
        b"\x3d\x0D\x00\x05topic\x43\x21data",
    );

    assert_encode_packet(
        &Packet::Publish(Publish {
            dup: false,
            retain: false,
            qos: QoS::AtMostOnce,
            topic: ByteStr::from_static("topic"),
            packet_id: None,
            payload: Bytes::from_static(b"data"),
        }),
        b"\x30\x0b\x00\x05topicdata",
    );
}

#[test]
fn test_encode_subscribe_packets() {
    assert_encode_packet(
        &Packet::Subscribe {
            packet_id: packet_id(0x1234),
            topic_filters: vec![
                (ByteStr::from_static("test"), QoS::AtLeastOnce),
                (ByteStr::from_static("filter"), QoS::ExactlyOnce),
            ],
        },
        b"\x82\x12\x12\x34\x00\x04test\x01\x00\x06filter\x02",
    );

    assert_encode_packet(
        &Packet::SubscribeAck {
            packet_id: packet_id(0x1234),
            status: vec![
                SubscribeReturnCode::Success(QoS::AtLeastOnce),
                SubscribeReturnCode::Failure,
                SubscribeReturnCode::Success(QoS::ExactlyOnce),
            ],
        },
        b"\x90\x05\x12\x34\x01\x80\x02",
    );

    assert_encode_packet(
        &Packet::Unsubscribe {
            packet_id: packet_id(0x1234),
            topic_filters: vec![ByteStr::from_static("test"), ByteStr::from_static("filter")],
        },
        b"\xa2\x10\x12\x34\x00\x04test\x00\x06filter",
    );

    assert_encode_packet(
        &Packet::UnsubscribeAck { packet_id: packet_id(0x4321) },
        b"\xb0\x02\x43\x21",
    );
}

#[test]
fn test_encode_ping_packets() {
    assert_encode_packet(&Packet::PingRequest, b"\xc0\x00");
    assert_encode_packet(&Packet::PingResponse, b"\xd0\x00");
}

fn encoded_len(n: usize) -> usize {
    let mut v = BytesMut::new();
    write_variable_length(n, &mut v);
    v.len()
}

#[test]
fn variable_length_size_classes() {
    assert_eq!(encoded_len(0), 1);
    assert_eq!(encoded_len(127), 1);
    assert_eq!(encoded_len(128), 2);
    assert_eq!(encoded_len(16383), 2);
    assert_eq!(encoded_len(16384), 3);
    assert_eq!(encoded_len(2097151), 3);
    assert_eq!(encoded_len(2097152), 4);
    assert_eq!(encoded_len(268435455), 4);
}

#[test]
fn variable_length_exact_bytes_at_class_starts() {
    let mut v = BytesMut::new();
    write_variable_length(128, &mut v);
    assert_eq!(&v[..], &[0x80, 0x01]);
    v.clear();
    write_variable_length(16384, &mut v);
    assert_eq!(&v[..], &[0x80, 0x80, 0x01]);
    v.clear();
    write_variable_length(2097152, &mut v);
    assert_eq!(&v[..], &[0x80, 0x80, 0x80, 0x01]);
}

fn publish(qos: QoS, id: Option<PacketId>) -> Packet {
    Packet::Publish(Publish {
        dup: false,
        retain: false,
        qos,
        topic: ByteStr::from_static("t"),
        packet_id: id,
        payload: Bytes::from_static(b"x"),
    })
}

#[test]
fn publish_at_most_once_with_id_is_malformed() {
    let mut v = BytesMut::new();
    let p = publish(QoS::AtMostOnce, Some(packet_id(7)));
    assert_eq!(encode(&p, &mut v, 4), Err(EncodeError::MalformedPacket));
    assert!(v.is_empty());
}

#[test]
fn publish_above_at_most_once_needs_id() {
    let mut v = BytesMut::new();
    let p = publish(QoS::AtLeastOnce, None);
    assert_eq!(encode(&p, &mut v, 6), Err(EncodeError::PacketIdRequired));
    let p = publish(QoS::ExactlyOnce, None);
    assert_eq!(encode(&p, &mut v, 6), Err(EncodeError::PacketIdRequired));
    assert!(v.is_empty());
}

#[test]
fn oversized_topic_is_invalid_length() {
    let long = String::from_utf8(vec![b'a'; 65536]).unwrap();
    let topic = ByteStr::try_from_bytes(Bytes::from(long)).unwrap();
    let mut v = BytesMut::from(&b"kept"[..]);
    let p = Packet::Publish(Publish {
        dup: false,
        retain: false,
        qos: QoS::AtLeastOnce,
        topic: topic.clone(),
        packet_id: None,
        payload: Bytes::new(),
    });
    assert_eq!(encode(&p, &mut v, 0), Err(EncodeError::InvalidLength));
    let p = Packet::Unsubscribe {
        packet_id: packet_id(1),
        topic_filters: vec![ByteStr::from_static("ok"), topic.clone()],
    };
    assert_eq!(encode(&p, &mut v, 0), Err(EncodeError::InvalidLength));
    let p = Packet::Subscribe {
        packet_id: packet_id(1),
        topic_filters: vec![(topic, QoS::AtMostOnce)],
    };
    assert_eq!(encode(&p, &mut v, 0), Err(EncodeError::InvalidLength));
    assert_eq!(&v[..], b"kept");
}

#[test]
fn longest_field_is_accepted() {
    let longest = Bytes::from(vec![b'z'; 65535]);
    let p = Packet::Connect(Connect {
        clean_session: true,
        keep_alive: 0,
        last_will: None,
        client_id: ByteStr::from_static(""),
        username: None,
        password: Some(longest),
    });
    let size = get_encoded_size(&p);
    assert_eq!(size, 10 + 2 + 2 + 65535);
    let mut v = BytesMut::new();
    encode(&p, &mut v, size).unwrap();
    assert_eq!(&v[..4], &[0x10, 0x8d, 0x80, 0x04]);
    assert_eq!(v.len(), 4 + size);
    assert_eq!(v[4 + 7], 0x42);
    assert_eq!(&v[4 + 10..4 + 16], &[0, 0, 0xff, 0xff, b'z', b'z']);
}

#[test]
fn oversized_password_is_invalid_length() {
    let p = Packet::Connect(Connect {
        clean_session: true,
        keep_alive: 0,
        last_will: None,
        client_id: ByteStr::from_static("id"),
        username: None,
        password: Some(Bytes::from(vec![0u8; 65536])),
    });
    let mut v = BytesMut::new();
    assert_eq!(encode(&p, &mut v, 0), Err(EncodeError::InvalidLength));
    assert!(v.is_empty());
}

#[test]
fn connect_ack_bytes() {
    assert_encode_packet(
        &Packet::ConnectAck {
            session_present: true,
            return_code: ConnectAckReason::NotAuthorized,
        },
        b"\x20\x02\x01\x05",
    );
    assert_encode_packet(
        &Packet::ConnectAck {
            session_present: false,
            return_code: ConnectAckReason::ConnectionAccepted,
        },
        b"\x20\x02\x00\x00",
    );
}

#[test]
fn publish_ack_family_bytes() {
    assert_encode_packet(&Packet::PublishAck { packet_id: packet_id(0x0102) }, b"\x40\x02\x01\x02");
    assert_encode_packet(
        &Packet::PublishReceived { packet_id: packet_id(0x0102) },
        b"\x50\x02\x01\x02",
    );
    assert_encode_packet(
        &Packet::PublishRelease { packet_id: packet_id(0x0102) },
        b"\x62\x02\x01\x02",
    );
    assert_encode_packet(
        &Packet::PublishComplete { packet_id: packet_id(0xffff) },
        b"\x70\x02\xff\xff",
    );
}

#[test]
fn connect_with_every_flag() {
    assert_encode_packet(
        &Packet::Connect(Connect {
            clean_session: true,
            keep_alive: 0x0102,
            client_id: ByteStr::from_static("c"),
            last_will: Some(LastWill {
                qos: QoS::AtLeastOnce,
                retain: true,
                topic: ByteStr::from_static("w"),
                message: Bytes::from_static(b"m"),
            }),
            username: Some(ByteStr::from_static("u")),
            password: Some(Bytes::from_static(b"p")),
        }),
        b"\x10\x19\x00\x04MQTT\x04\xee\x01\x02\x00\x01c\x00\x01w\x00\x01m\x00\x01u\x00\x01p",
    );
}

#[test]
fn size_matches_written_body() {
    let packets = vec![
        Packet::Disconnect,
        publish(QoS::AtMostOnce, None),
        publish(QoS::ExactlyOnce, Some(packet_id(9))),
        Packet::SubscribeAck { packet_id: packet_id(3), status: vec![] },
        Packet::Subscribe {
            packet_id: packet_id(3),
            topic_filters: vec![(ByteStr::from_static("a/b"), QoS::AtMostOnce)],
        },
    ];
    for p in packets.iter() {
        let size = get_encoded_size(p);
        let mut v = BytesMut::new();
        encode(p, &mut v, size).unwrap();
        assert_eq!(v.len(), 2 + size);
    }
}

#[test]
fn packet_id_is_never_zero() {
    assert!(PacketId::new(0).is_none());
    assert_eq!(PacketId::new(1).unwrap().get(), 1);
    assert_eq!(PacketId::new(65535).unwrap().get(), 65535);
}

#[test]
fn clones_hold_the_same_bytes() {
    let topic = ByteStr::from_static("a/b");
    let copy = topic.clone();
    assert_eq!(copy, topic);
    assert_eq!(copy.as_bytes().as_ref(), b"a/b");
    assert_eq!(copy.len(), 3);
    let p = Packet::Publish(Publish {
        dup: false,
        retain: true,
        qos: QoS::AtLeastOnce,
        topic,
        packet_id: Some(packet_id(2)),
        payload: Bytes::from_static(b"payload"),
    });
    let q = p.clone();
    assert_eq!(q, p);
    let mut v = BytesMut::new();
    encode(&q, &mut v, get_encoded_size(&q)).unwrap();
    assert_eq!(&v[..], b"\x33\x0e\x00\x03a/b\x00\x02payload");
}

#[test]
fn byte_str_refuses_invalid_utf8() {
    assert!(ByteStr::try_from_bytes(Bytes::from_static(b"\xff")).is_none());
    assert!(ByteStr::try_from_bytes(Bytes::from_static(b"\xe2\x82")).is_none());
    let euro = ByteStr::try_from_bytes(Bytes::from_static(b"\xe2\x82\xac")).unwrap();
    assert_eq!(euro.len(), 3);
    assert_eq!(ByteStr::from_static("\u{20ac}"), euro);
}

#[test]
fn content_size_is_written_as_given() {
    let mut v = BytesMut::new();
    encode(&Packet::PublishAck { packet_id: packet_id(1) }, &mut v, 300).unwrap();
    assert_eq!(&v[..], b"\x40\xac\x02\x00\x01");
    v.clear();
    encode(&Packet::PingRequest, &mut v, 300).unwrap();
    assert_eq!(&v[..], b"\xc0\x00");
}

#[test]
fn variable_length_beyond_four_groups_keeps_low_bits() {
    let mut v = BytesMut::new();
    write_variable_length(268435456, &mut v);
    assert_eq!(&v[..], &[0x80, 0x80, 0x80, 0x80]);
}
