use remus::message::HEADER_LEN;
use remus::{Message, MessageFlags, MessageType, ProtocolError, ProtocolVersion};

fn sample(payload: &[u8]) -> Message {
    Message {
        msg_type: MessageType::Request,
        flags: MessageFlags::empty(),
        payload: payload.to_vec(),
        timestamp: 12345,
        request_id: 67890,
        priority: 1,
        ttl: 3600,
        routing_info: None,
        context: None,
    }
}

#[test]
fn test_message_flags() {
    let flags = MessageFlags::encrypted().union(MessageFlags::compressed());
    assert!(flags.contains(MessageFlags::encrypted()));
    assert!(flags.contains(MessageFlags::compressed()));
    assert!(!flags.contains(MessageFlags::urgent()));
}

#[test]
fn test_message_encoding_decoding() {
    let input = sample(b"test payload");

    let encoded = input.encode();
    let decoded = Message::decode(&encoded).unwrap();

    assert_eq!(decoded.msg_type, input.msg_type);
    assert_eq!(decoded.flags, input.flags);
    assert_eq!(decoded.payload, input.payload);
    assert_eq!(decoded.timestamp, input.timestamp);
    assert_eq!(decoded.request_id, input.request_id);
    assert_eq!(decoded.priority, input.priority);
    assert_eq!(decoded.ttl, input.ttl);
}

#[test]
fn encode_layout_is_big_endian() {
    let mut m = sample(b"ab");
    m.msg_type = MessageType::Event;
    m.flags = MessageFlags::urgent().union(MessageFlags::idempotent());
    m.timestamp = 0x0102030405060708;
    m.request_id = 0x1112131415161718;
    m.priority = 9;
    m.ttl = 0x21222324;
    let e = m.encode();
    assert_eq!(
        e,
        vec![
            2, 0x14, 1, 2, 3, 4, 5, 6, 7, 8, 0x11, 0x12, 0x13, 0x14, 0x15, 0x16, 0x17, 0x18, 9,
            0x21, 0x22, 0x23, 0x24, 0, 0, 0, 2, b'a', b'b'
        ]
    );
    assert_eq!(e.len(), HEADER_LEN + 2);
}

#[test]
fn round_trip_every_type_and_flag_byte() {
    let types = [MessageType::Request, MessageType::Response, MessageType::Event, MessageType::Error];
    for t in types {
        for bits in 0u8..=0x7f {
            let mut m = sample(&[bits, 0, 255]);
            m.msg_type = t;
            m.flags = MessageFlags::from_bits_truncate(bits);
            m.routing_info = Some("route".to_string());
            m.context = Some("ctx".to_string());
            let d = Message::decode(&m.encode()).unwrap();
            assert_eq!(d.msg_type, t);
            assert_eq!(d.flags.bits(), bits);
            assert_eq!(d.payload, vec![bits, 0, 255]);
            assert_eq!(d.routing_info, None);
            assert_eq!(d.context, None);
        }
    }
}

#[test]
fn round_trip_empty_payload_and_extremes() {
    let mut m = sample(b"");
    m.timestamp = u64::MAX;
    m.request_id = 0;
    m.priority = 255;
    m.ttl = u32::MAX;
    let d = Message::decode(&m.encode()).unwrap();
    assert_eq!(d.timestamp, u64::MAX);
    assert_eq!(d.request_id, 0);
    assert_eq!(d.priority, 255);
    assert_eq!(d.ttl, u32::MAX);
    assert!(d.payload.is_empty());
}

#[test]
fn reserved_flag_bit_is_cleared_on_decode() {
    let mut e = sample(b"x").encode();
    e[1] = 0xff;
    let d = Message::decode(&e).unwrap();
    assert_eq!(d.flags.bits(), 0x7f);
}

#[test]
fn decode_rejects_every_short_input() {
    let e = sample(b"").encode();
    for n in 0..e.len() {
        match Message::decode(&e[..n]) {
            Err(ProtocolError::InvalidFormat(_)) => {}
            other => panic!("prefix of {} bytes gave {:?}", n, other),
        }
    }
}

#[test]
fn decode_rejects_unknown_type() {
    let mut e = sample(b"abc").encode();
    e[0] = 4;
    assert!(matches!(Message::decode(&e), Err(ProtocolError::InvalidFormat(_))));
}

#[test]
fn decode_rejects_oversized_declared_length() {
    let mut e = sample(b"abc").encode();
    e[23] = 0xff;
    e[24] = 0xff;
    e[25] = 0xff;
    e[26] = 0xff;
    assert!(matches!(Message::decode(&e), Err(ProtocolError::InvalidFormat(_))));
    let e = sample(b"abc").encode();
    assert!(matches!(Message::decode(&e[..e.len() - 1]), Err(ProtocolError::InvalidFormat(_))));
}

#[test]
fn decode_ignores_trailing_bytes() {
    let mut e = sample(b"abc").encode();
    e.extend_from_slice(&[9, 9, 9]);
    assert_eq!(Message::decode(&e).unwrap().payload, b"abc".to_vec());
}

#[test]
fn new_message_has_defaults() {
    let m = Message::new(MessageType::Response, MessageFlags::none(), 7, vec![1, 2]);
    assert_eq!(m.msg_type, MessageType::Response);
    assert_eq!(m.request_id, 7);
    assert_eq!(m.payload, vec![1, 2]);
    assert_eq!(m.priority, 0);
    assert_eq!(m.ttl, 30000);
    assert!(m.timestamp > 0);
    assert_eq!(m.routing_info, None);
}

#[test]
fn type_bytes() {
    assert_eq!(MessageType::Error.to_byte(), 3);
    assert_eq!(MessageType::from_byte(1), Some(MessageType::Response));
    assert_eq!(MessageType::from_byte(200), None);
}

#[test]
fn error_messages() {
    assert_eq!(
        ProtocolError::InvalidFormat("x".to_string()).message(),
        "Invalid message format: x"
    );
    assert_eq!(ProtocolError::ConnectionClosed.message(), "Connection closed");
    assert_eq!(ProtocolError::Timeout.message(), "Request timeout");
}

#[test]
fn protocol_version_compatibility() {
    let current = ProtocolVersion::current();
    assert_eq!(current, ProtocolVersion { major: 2, minor: 0 });
    assert!(ProtocolVersion { major: 2, minor: 3 }.is_compatible(&current));
    assert!(!current.is_compatible(&ProtocolVersion { major: 2, minor: 1 }));
    assert!(!current.is_compatible(&ProtocolVersion { major: 1, minor: 0 }));
}

#[test]
fn new_at_sets_every_field() {
    let m = Message::new_at(MessageType::Event, MessageFlags::urgent(), 9, vec![4], 777);
    assert_eq!(m.msg_type, MessageType::Event);
    assert_eq!(m.flags, MessageFlags::urgent());
    assert_eq!(m.request_id, 9);
    assert_eq!(m.payload, vec![4]);
    assert_eq!(m.timestamp, 777);
    assert_eq!(m.priority, 0);
    assert_eq!(m.ttl, 30000);
    assert_eq!(m.context, None);
}
