use bytes::Bytes;
use bytes::BytesMut;
use mqtt_wire::buffer::ByteStr;
use mqtt_wire::decode::decode;
use mqtt_wire::decode::decode_packet;
use mqtt_wire::encode::encode;
use mqtt_wire::encode::get_encoded_size;
use mqtt_wire::flags::pack_publish_first_byte;
use mqtt_wire::flags::unpack_publish_flags;
use mqtt_wire::flags::ConnectFlags;
use mqtt_wire::roundtrip::is_well_formed;
use mqtt_wire::types::Connect;
use mqtt_wire::types::ConnectAckReason;
use mqtt_wire::types::DecodeError;
use mqtt_wire::types::LastWill;
use mqtt_wire::types::Packet;
use mqtt_wire::types::PacketId;
use mqtt_wire::types::Publish;
use mqtt_wire::types::QoS;
use mqtt_wire::types::SubscribeReturnCode;
use mqtt_wire::varlen::decode_variable_length;
use mqtt_wire::varlen::write_variable_length;

fn id(v: u16) -> PacketId {
    PacketId::new(v).unwrap()
}

fn text(n: usize) -> ByteStr {
    ByteStr::try_from_bytes(Bytes::from(vec![b'q'; n])).unwrap()
}

fn frame_of(p: &Packet) -> Bytes {
    let mut v = BytesMut::new();
    encode(p, &mut v, get_encoded_size(p)).unwrap();
    v.freeze()
}

fn assert_round_trip(p: Packet) {
    let frame = frame_of(&p);
    let (back, used) = decode(&frame).unwrap().unwrap();
    assert_eq!(back, p);
    assert_eq!(used, frame.len());
}

#[test]
fn round_trip_connect() {
    assert_round_trip(Packet::Connect(Connect {
        clean_session: false,
        keep_alive: 60,
        client_id: ByteStr::from_static("12345"),
        last_will: None,
        username: Some(ByteStr::from_static("user")),
        password: Some(Bytes::from_static(b"pass")),
    }));
    assert_round_trip(Packet::Connect(Connect {
        clean_session: true,
        keep_alive: 0xffff,
        client_id: ByteStr::from_static(""),
        last_will: Some(LastWill {
            qos: QoS::ExactlyOnce,
            retain: true,
            topic: ByteStr::from_static("w"),
            message: Bytes::new(),
        }),
        username: None,
        password: Some(Bytes::from_static(b"\xff\x00")),
    }));
}

#[test]
fn round_trip_boundary_lengths() {
    for n in [0usize, 1, 65535] {
        assert_round_trip(Packet::Connect(Connect {
            clean_session: true,
            keep_alive: 1,
            client_id: text(n),
            last_will: None,
            username: None,
            password: None,
        }));
        assert_round_trip(Packet::Publish(Publish {
            dup: false,
            retain: false,
            qos: QoS::AtMostOnce,
            topic: text(n),
            packet_id: None,
            payload: Bytes::from(vec![7u8; n]),
        }));
        assert_round_trip(Packet::Unsubscribe { packet_id: id(1), topic_filters: vec![text(n)] });
    }
}

#[test]
fn round_trip_publish() {
    assert_round_trip(Packet::Publish(Publish {
        dup: true,
        retain: true,
        qos: QoS::ExactlyOnce,
        topic: ByteStr::from_static("topic"),
        packet_id: Some(id(0x4321)),
        payload: Bytes::from_static(b"data"),
    }));
    assert_round_trip(Packet::Publish(Publish {
        dup: false,
        retain: true,
        qos: QoS::AtLeastOnce,
        topic: ByteStr::from_static("a/b"),
        packet_id: Some(id(1)),
        payload: Bytes::new(),
    }));
}

#[test]
fn round_trip_acks() {
    assert_round_trip(Packet::ConnectAck {
        session_present: true,
        return_code: ConnectAckReason::BadUserNameOrPassword,
    });
    assert_round_trip(Packet::ConnectAck {
        session_present: false,
        return_code: ConnectAckReason::Reserved,
    });
    assert_round_trip(Packet::PublishAck { packet_id: id(1) });
    assert_round_trip(Packet::PublishReceived { packet_id: id(0x100) });
    assert_round_trip(Packet::PublishRelease { packet_id: id(0xffff) });
    assert_round_trip(Packet::PublishComplete { packet_id: id(0x00ff) });
    assert_round_trip(Packet::UnsubscribeAck { packet_id: id(9) });
}

#[test]
fn round_trip_subscriptions() {
    assert_round_trip(Packet::Subscribe {
        packet_id: id(0x1234),
        topic_filters: vec![
            (ByteStr::from_static("test"), QoS::AtLeastOnce),
            (ByteStr::from_static("filter"), QoS::ExactlyOnce),
            (ByteStr::from_static(""), QoS::AtMostOnce),
        ],
    });
    assert_round_trip(Packet::SubscribeAck {
        packet_id: id(0x1234),
        status: vec![
            SubscribeReturnCode::Success(QoS::AtLeastOnce),
            SubscribeReturnCode::Failure,
            SubscribeReturnCode::Success(QoS::ExactlyOnce),
            SubscribeReturnCode::Success(QoS::AtMostOnce),
        ],
    });
    assert_round_trip(Packet::SubscribeAck { packet_id: id(2), status: vec![] });
    assert_round_trip(Packet::Unsubscribe {
        packet_id: id(0x1234),
        topic_filters: vec![ByteStr::from_static("test"), ByteStr::from_static("filter")],
    });
}

#[test]
fn round_trip_bare_packets() {
    assert_round_trip(Packet::PingRequest);
    assert_round_trip(Packet::PingResponse);
    assert_round_trip(Packet::Disconnect);
}

#[test]
fn frame_is_read_before_what_follows() {
    let mut v = BytesMut::new();
    let p = Packet::PublishAck { packet_id: id(5) };
    encode(&p, &mut v, 2).unwrap();
    v.extend_from_slice(b"\xc0\x00rest");
    let (back, used) = decode(&v.freeze()).unwrap().unwrap();
    assert_eq!(back, p);
    assert_eq!(used, 4);
}

#[test]
fn every_proper_prefix_is_incomplete() {
    let frame = frame_of(&Packet::Publish(Publish {
        dup: false,
        retain: false,
        qos: QoS::AtLeastOnce,
        topic: ByteStr::from_static("topic"),
        packet_id: Some(id(3)),
        payload: Bytes::from(vec![1u8; 200]),
    }));
    assert_eq!(frame.len(), 3 + 209);
    for k in 0..frame.len() {
        assert_eq!(decode(&frame.slice(0..k)), Ok(None));
    }
    assert!(decode(&frame).unwrap().is_some());
}

#[test]
fn one_byte_short_is_incomplete() {
    let frame = Bytes::from_static(b"\x3d\x0D\x00\x05topic\x43\x21data");
    assert_eq!(decode(&frame.slice(0..frame.len() - 1)), Ok(None));
    assert_eq!(decode(&Bytes::new()), Ok(None));
    assert_eq!(decode(&Bytes::from_static(b"\x30")), Ok(None));
    assert_eq!(decode(&Bytes::from_static(b"\x30\x80")), Ok(None));
}

#[test]
fn publish_with_level_three_is_malformed() {
    let frame = Bytes::from_static(b"\x36\x0b\x00\x05topic\x00\x01data");
    assert_eq!(decode(&frame), Err(DecodeError::MalformedPacket));
    assert_eq!(
        decode_packet(&Bytes::from_static(b"\x00\x01tdata"), 0x37),
        Err(DecodeError::MalformedPacket)
    );
}

#[test]
fn duplicate_at_level_zero_is_malformed() {
    assert_eq!(
        decode_packet(&Bytes::from_static(b"\x00\x01tdata"), 0x38),
        Err(DecodeError::MalformedPacket)
    );
}

#[test]
fn zero_packet_id_is_malformed() {
    for first in [0x40u8, 0x50, 0x62, 0x70, 0xb0] {
        assert_eq!(
            decode_packet(&Bytes::from_static(b"\x00\x00"), first),
            Err(DecodeError::MalformedPacket)
        );
    }
    assert_eq!(
        decode_packet(&Bytes::from_static(b"\x00\x01t\x00\x00x"), 0x32),
        Err(DecodeError::MalformedPacket)
    );
    assert_eq!(
        decode_packet(&Bytes::from_static(b"\x00\x00\x00\x01t\x00"), 0x82),
        Err(DecodeError::MalformedPacket)
    );
}

#[test]
fn declared_length_beyond_body_is_malformed() {
    assert_eq!(
        decode_packet(&Bytes::from_static(b"\x00\x06topic"), 0x30),
        Err(DecodeError::MalformedPacket)
    );
    assert_eq!(
        decode_packet(&Bytes::from_static(b"\x12\x34\x00\x04tes"), 0xa2),
        Err(DecodeError::MalformedPacket)
    );
    assert_eq!(
        decode_packet(&Bytes::from_static(b"\x12\x34\x00\x04test"), 0x82),
        Err(DecodeError::MalformedPacket)
    );
}

#[test]
fn invalid_utf8_is_malformed() {
    assert_eq!(
        decode_packet(&Bytes::from_static(b"\x00\x02\xc3\x28"), 0x30),
        Err(DecodeError::MalformedPacket)
    );
}

#[test]
fn empty_filter_list_is_malformed() {
    assert_eq!(
        decode_packet(&Bytes::from_static(b"\x12\x34"), 0x82),
        Err(DecodeError::MalformedPacket)
    );
    assert_eq!(
        decode_packet(&Bytes::from_static(b"\x12\x34"), 0xa2),
        Err(DecodeError::MalformedPacket)
    );
}

#[test]
fn connect_handshake_errors() {
    let good = Bytes::from_static(b"\x00\x04MQTT\x04\x02\x00\x3c\x00\x01c");
    assert!(decode_packet(&good, 0x10).is_ok());
    let name = Bytes::from_static(b"\x00\x04MQTX\x04\x02\x00\x3c\x00\x01c");
    assert_eq!(decode_packet(&name, 0x10), Err(DecodeError::InvalidProtocolName));
    let level = Bytes::from_static(b"\x00\x04MQTT\x05\x02\x00\x3c\x00\x01c");
    assert_eq!(decode_packet(&level, 0x10), Err(DecodeError::UnsupportedProtocolLevel));
    let reserved = Bytes::from_static(b"\x00\x04MQTT\x04\x03\x00\x3c\x00\x01c");
    assert_eq!(decode_packet(&reserved, 0x10), Err(DecodeError::MalformedPacket));
    let short = Bytes::from_static(b"\x00\x04MQTT\x04\x02\x00");
    assert_eq!(decode_packet(&short, 0x10), Err(DecodeError::MalformedPacket));
    let trailing = Bytes::from_static(b"\x00\x04MQTT\x04\x02\x00\x3c\x00\x01cx");
    assert_eq!(decode_packet(&trailing, 0x10), Err(DecodeError::MalformedPacket));
    let will_level_without_will = Bytes::from_static(b"\x00\x04MQTT\x04\x0a\x00\x3c\x00\x01c");
    assert_eq!(decode_packet(&will_level_without_will, 0x10), Err(DecodeError::MalformedPacket));
}

#[test]
fn unknown_first_byte_is_malformed() {
    assert_eq!(decode_packet(&Bytes::new(), 0x00), Err(DecodeError::MalformedPacket));
    assert_eq!(decode_packet(&Bytes::new(), 0xf0), Err(DecodeError::MalformedPacket));
    assert_eq!(
        decode_packet(&Bytes::from_static(b"\x00\x01"), 0x60),
        Err(DecodeError::MalformedPacket)
    );
    assert_eq!(decode_packet(&Bytes::from_static(b"x"), 0xc0), Err(DecodeError::MalformedPacket));
}

#[test]
fn subscribe_ack_status_bytes() {
    assert_eq!(
        decode_packet(&Bytes::from_static(b"\x00\x01\x00\x80\x02"), 0x90),
        Ok(Packet::SubscribeAck {
            packet_id: id(1),
            status: vec![
                SubscribeReturnCode::Success(QoS::AtMostOnce),
                SubscribeReturnCode::Failure,
                SubscribeReturnCode::Success(QoS::ExactlyOnce),
            ],
        })
    );
    assert_eq!(
        decode_packet(&Bytes::from_static(b"\x00\x01\x03"), 0x90),
        Err(DecodeError::MalformedPacket)
    );
}

#[test]
fn variable_length_reads_back() {
    for n in [0usize, 1, 127, 128, 129, 16383, 16384, 2097151, 2097152, 268435455] {
        let mut v = BytesMut::new();
        write_variable_length(n, &mut v);
        let written = v.len();
        v.extend_from_slice(b"\xff");
        assert_eq!(decode_variable_length(&v), Ok(Some((n, written))));
    }
}

#[test]
fn variable_length_incomplete_and_overlong() {
    assert_eq!(decode_variable_length(b""), Ok(None));
    assert_eq!(decode_variable_length(b"\x80"), Ok(None));
    assert_eq!(decode_variable_length(b"\xff\xff\xff"), Ok(None));
    assert_eq!(decode_variable_length(b"\xff\xff\xff\x7f"), Ok(Some((268435455, 4))));
    assert_eq!(decode_variable_length(b"\xff\xff\xff\x80"), Err(DecodeError::MalformedPacket));
    assert_eq!(
        decode_variable_length(b"\xff\xff\xff\xff\x01"),
        Err(DecodeError::MalformedPacket)
    );
    assert_eq!(decode(&Bytes::from_static(b"\x30\xff\xff\xff\xff\x01")), Err(DecodeError::MalformedPacket));
}

#[test]
fn connect_flags_pack_and_unpack() {
    let flags = ConnectFlags {
        username: true,
        password: true,
        will_retain: false,
        will_qos: QoS::AtMostOnce,
        will: false,
        clean_session: false,
    };
    assert_eq!(flags.bits(), 0xc0);
    assert_eq!(ConnectFlags::from_bits(0xc0), Some(flags));
    let flags = ConnectFlags {
        username: false,
        password: false,
        will_retain: true,
        will_qos: QoS::ExactlyOnce,
        will: true,
        clean_session: true,
    };
    assert_eq!(flags.bits(), 0x36);
    assert_eq!(ConnectFlags::from_bits(0x36), Some(flags));
    assert_eq!(ConnectFlags::from_bits(0x01), None);
    assert_eq!(ConnectFlags::from_bits(0x1c), None);
    assert_eq!(ConnectFlags::from_bits(0x20), None);
}

#[test]
fn publish_first_byte_pack_and_unpack() {
    assert_eq!(pack_publish_first_byte(true, QoS::ExactlyOnce, true), 0x3d);
    assert_eq!(pack_publish_first_byte(false, QoS::AtMostOnce, false), 0x30);
    assert_eq!(pack_publish_first_byte(false, QoS::AtLeastOnce, true), 0x33);
    assert_eq!(unpack_publish_flags(0x3d), Ok((true, QoS::ExactlyOnce, true)));
    assert_eq!(unpack_publish_flags(0x30), Ok((false, QoS::AtMostOnce, false)));
    assert_eq!(unpack_publish_flags(0x36), Err(DecodeError::MalformedPacket));
    assert_eq!(unpack_publish_flags(0x38), Err(DecodeError::MalformedPacket));
}

#[test]
fn numbers_of_the_small_types() {
    assert_eq!(QoS::from_u8(0), Some(QoS::AtMostOnce));
    assert_eq!(QoS::from_u8(2), Some(QoS::ExactlyOnce));
    assert_eq!(QoS::from_u8(3), None);
    assert_eq!(QoS::AtLeastOnce.to_u8(), 1);
    assert_eq!(ConnectAckReason::from_u8(5), ConnectAckReason::NotAuthorized);
    assert_eq!(ConnectAckReason::from_u8(6), ConnectAckReason::Reserved);
    assert_eq!(ConnectAckReason::from_u8(200), ConnectAckReason::Reserved);
    assert_eq!(ConnectAckReason::ServiceUnavailable.to_u8(), 3);
    assert_eq!(SubscribeReturnCode::from_u8(0x80), Some(SubscribeReturnCode::Failure));
    assert_eq!(SubscribeReturnCode::from_u8(0x81), None);
    assert_eq!(SubscribeReturnCode::Failure.to_u8(), 0x80);
    assert_eq!(SubscribeReturnCode::Success(QoS::ExactlyOnce).to_u8(), 2);
}

#[test]
fn decoded_fields_share_the_frame() {
    let frame = Bytes::from_static(b"\x30\x0b\x00\x05topicdata");
    match decode(&frame).unwrap().unwrap().0 {
        Packet::Publish(p) => {
            assert_eq!(p.topic.as_bytes().as_ref(), b"topic");
            assert_eq!(p.topic.len(), 5);
            assert_eq!(p.payload.as_ptr(), frame[9..].as_ptr());
        }
        _ => panic!("the frame holds a publication"),
    }
}

#[test]
fn well_formed_packets_read_back() {
    let good = Packet::Publish(Publish {
        dup: true,
        retain: false,
        qos: QoS::AtLeastOnce,
        topic: ByteStr::from_static("t"),
        packet_id: Some(id(1)),
        payload: Bytes::new(),
    });
    assert!(is_well_formed(&good));
    assert_round_trip(good);
    assert!(is_well_formed(&Packet::Disconnect));
    assert!(is_well_formed(&Packet::SubscribeAck { packet_id: id(1), status: vec![] }));
}

#[test]
fn packets_that_do_not_read_back_are_not_well_formed() {
    let duplicate = Packet::Publish(Publish {
        dup: true,
        retain: false,
        qos: QoS::AtMostOnce,
        topic: ByteStr::from_static("t"),
        packet_id: None,
        payload: Bytes::new(),
    });
    assert!(!is_well_formed(&duplicate));
    assert_eq!(decode(&frame_of(&duplicate)), Err(DecodeError::MalformedPacket));

    let nothing_asked = Packet::Subscribe { packet_id: id(1), topic_filters: vec![] };
    assert!(!is_well_formed(&nothing_asked));
    assert_eq!(decode(&frame_of(&nothing_asked)), Err(DecodeError::MalformedPacket));

    let nothing_dropped = Packet::Unsubscribe { packet_id: id(1), topic_filters: vec![] };
    assert!(!is_well_formed(&nothing_dropped));
    assert_eq!(decode(&frame_of(&nothing_dropped)), Err(DecodeError::MalformedPacket));

    let too_long = Packet::Unsubscribe { packet_id: id(1), topic_filters: vec![text(65536)] };
    assert!(!is_well_formed(&too_long));
    let no_id = Packet::Publish(Publish {
        dup: false,
        retain: false,
        qos: QoS::ExactlyOnce,
        topic: ByteStr::from_static("t"),
        packet_id: None,
        payload: Bytes::new(),
    });
    assert!(!is_well_formed(&no_id));
    let long_will = Packet::Connect(Connect {
        clean_session: true,
        keep_alive: 0,
        client_id: ByteStr::from_static("c"),
        last_will: Some(LastWill {
            qos: QoS::AtMostOnce,
            retain: false,
            topic: ByteStr::from_static("w"),
            message: Bytes::from(vec![0u8; 65536]),
        }),
        username: None,
        password: None,
    });
    assert!(!is_well_formed(&long_will));
}
