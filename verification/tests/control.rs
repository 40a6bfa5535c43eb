use bytes::BytesMut;
use mqtt_wire::buffer::ByteStr;
use mqtt_wire::control::Closed;
use mqtt_wire::control::ControlPacket;
use mqtt_wire::control::ControlResultKind;
use mqtt_wire::control::Disconnect;
use mqtt_wire::control::Ping;
use mqtt_wire::control::Subscribe;
use mqtt_wire::control::Unsubscribe;
use mqtt_wire::encode::encode;
use mqtt_wire::encode::get_encoded_size;
use mqtt_wire::types::Packet;
use mqtt_wire::types::PacketId;
use mqtt_wire::types::QoS;
use mqtt_wire::types::SubscribeReturnCode;

fn two_topics() -> Subscribe {
    Subscribe::new(
        PacketId::new(0x1234).unwrap(),
        vec![
            (ByteStr::from_static("first"), QoS::ExactlyOnce),
            (ByteStr::from_static("second"), QoS::AtMostOnce),
        ],
    )
}

#[test]
fn unvisited_entries_fail() {
    let mut req = two_topics();
    {
        let mut it = req.iter_mut();
        let mut first = it.next().unwrap();
        assert_eq!(first.topic().as_bytes().as_ref(), b"first");
        assert_eq!(first.qos(), QoS::ExactlyOnce);
        first.subscribe(QoS::AtLeastOnce);
    }
    match req.ack().result {
        ControlResultKind::Subscribe(res) => {
            assert_eq!(
                res.codes,
                vec![SubscribeReturnCode::Success(QoS::AtLeastOnce), SubscribeReturnCode::Failure]
            );
            assert_eq!(res.packet_id.get(), 0x1234);
        }
        _ => panic!("a subscription request yields subscription outcomes"),
    }
}

#[test]
fn no_visit_fails_every_entry() {
    let req = two_topics();
    assert_eq!(req.len(), 2);
    match req.ack().result {
        ControlResultKind::Subscribe(res) => {
            assert_eq!(res.codes, vec![SubscribeReturnCode::Failure, SubscribeReturnCode::Failure]);
        }
        _ => panic!("a subscription request yields subscription outcomes"),
    }
}

#[test]
fn every_entry_in_request_order() {
    let mut req = two_topics();
    let mut seen: Vec<(Vec<u8>, QoS)> = Vec::new();
    {
        let mut it = req.iter_mut();
        while let Some(mut entry) = it.next() {
            seen.push((entry.topic().as_bytes().to_vec(), entry.qos()));
            let asked = entry.qos();
            entry.subscribe(asked);
        }
        assert!(it.next().is_none());
    }
    assert_eq!(
        seen,
        vec![(b"first".to_vec(), QoS::ExactlyOnce), (b"second".to_vec(), QoS::AtMostOnce)]
    );
    match req.ack().result {
        ControlResultKind::Subscribe(res) => {
            assert_eq!(
                res.codes,
                vec![
                    SubscribeReturnCode::Success(QoS::ExactlyOnce),
                    SubscribeReturnCode::Success(QoS::AtMostOnce)
                ]
            );
        }
        _ => panic!("a subscription request yields subscription outcomes"),
    }
}

#[test]
fn fail_after_subscribe_fails() {
    let mut req = two_topics();
    {
        let mut it = req.iter_mut();
        let _ = it.next();
        let mut second = it.next().unwrap();
        second.subscribe(QoS::ExactlyOnce);
        second.fail();
    }
    match req.ack().result {
        ControlResultKind::Subscribe(res) => {
            assert_eq!(res.codes, vec![SubscribeReturnCode::Failure, SubscribeReturnCode::Failure]);
        }
        _ => panic!("a subscription request yields subscription outcomes"),
    }
}

#[test]
fn empty_request_has_no_outcome() {
    let mut req = Subscribe::new(PacketId::new(1).unwrap(), Vec::new());
    assert!(req.iter_mut().next().is_none());
    match req.ack().result {
        ControlResultKind::Subscribe(res) => assert!(res.codes.is_empty()),
        _ => panic!("a subscription request yields subscription outcomes"),
    }
}

#[test]
fn unsubscribe_keeps_id_and_filters() {
    let req = Unsubscribe::new(
        PacketId::new(77).unwrap(),
        vec![ByteStr::from_static("a"), ByteStr::from_static("b")],
    );
    let names: Vec<Vec<u8>> = req.iter().iter().map(|t| t.as_bytes().to_vec()).collect();
    assert_eq!(names, vec![b"a".to_vec(), b"b".to_vec()]);
    match req.ack().result {
        ControlResultKind::Unsubscribe(res) => assert_eq!(res.packet_id.get(), 77),
        _ => panic!("an unsubscription request yields its identifier"),
    }
}

#[test]
fn stateless_requests_yield_their_kind() {
    assert!(matches!(Ping.ack().result, ControlResultKind::Ping));
    assert!(matches!(Disconnect.ack().result, ControlResultKind::Disconnect));
    let closed = Closed::new(true);
    assert!(closed.is_error());
    assert!(matches!(closed.ack().result, ControlResultKind::Closed));
    assert!(!Closed::new(false).is_error());
}

#[test]
fn control_packet_constructors() {
    assert!(matches!(ControlPacket::ping(), ControlPacket::Ping(_)));
    assert!(matches!(ControlPacket::disconnect(), ControlPacket::Disconnect(_)));
    match ControlPacket::closed(true) {
        ControlPacket::Closed(c) => assert!(c.is_error()),
        _ => panic!("closed() builds the closed notice"),
    }
}

#[test]
fn subscribe_request_to_acknowledgment_bytes() {
    let received = Packet::Subscribe {
        packet_id: PacketId::new(0x1234).unwrap(),
        topic_filters: vec![
            (ByteStr::from_static("first"), QoS::ExactlyOnce),
            (ByteStr::from_static("second"), QoS::AtMostOnce),
        ],
    };
    let mut req = match ControlPacket::from_packet(received) {
        Ok(ControlPacket::Subscribe(req)) => req,
        _ => panic!("a request to subscribe is a control request"),
    };
    {
        let mut it = req.iter_mut();
        it.next().unwrap().subscribe(QoS::AtLeastOnce);
    }
    let answer = req.ack().into_packet().unwrap();
    assert_eq!(
        answer,
        Packet::SubscribeAck {
            packet_id: PacketId::new(0x1234).unwrap(),
            status: vec![SubscribeReturnCode::Success(QoS::AtLeastOnce), SubscribeReturnCode::Failure],
        }
    );
    let mut v = BytesMut::new();
    encode(&answer, &mut v, get_encoded_size(&answer)).unwrap();
    assert_eq!(&v[..], b"\x90\x04\x12\x34\x01\x80");
}

#[test]
fn control_requests_from_packets() {
    assert!(matches!(ControlPacket::from_packet(Packet::PingRequest), Ok(ControlPacket::Ping(_))));
    assert!(matches!(
        ControlPacket::from_packet(Packet::Disconnect),
        Ok(ControlPacket::Disconnect(_))
    ));
    let unsubscribe = Packet::Unsubscribe {
        packet_id: PacketId::new(5).unwrap(),
        topic_filters: vec![ByteStr::from_static("t")],
    };
    match ControlPacket::from_packet(unsubscribe) {
        Ok(ControlPacket::Unsubscribe(req)) => {
            assert_eq!(req.iter().len(), 1);
            assert_eq!(
                req.ack().into_packet(),
                Some(Packet::UnsubscribeAck { packet_id: PacketId::new(5).unwrap() })
            );
        }
        _ => panic!("a request to unsubscribe is a control request"),
    }
    match ControlPacket::from_packet(Packet::PingResponse) {
        Err(p) => assert_eq!(p, Packet::PingResponse),
        Ok(_) => panic!("a ping response is no control request"),
    }
}

#[test]
fn answers_to_stateless_requests() {
    assert_eq!(Ping.ack().into_packet(), Some(Packet::PingResponse));
    assert_eq!(Disconnect.ack().into_packet(), None);
    assert_eq!(Closed::new(false).ack().into_packet(), None);
}
