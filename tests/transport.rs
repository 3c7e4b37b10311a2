use remus::message::HEADER_LEN;
use remus::{Message, MessageFlags, MessageType, ProtocolError, Transport};

fn test_message(payload: Vec<u8>) -> Message {
    Message {
        msg_type: MessageType::Request,
        flags: MessageFlags::empty(),
        payload,
        timestamp: 12345,
        request_id: 67890,
        priority: 1,
        ttl: 3600,
        routing_info: None,
        context: None,
    }
}

/// Moves what `from` has queued into `to`, `chunk` bytes at a time, and
/// polls `to` after each piece.
fn deliver(from: &mut Transport, to: &mut Transport, chunk: usize) -> Vec<Result<Message, ProtocolError>> {
    let mut got = Vec::new();
    while !from.pending_output().is_empty() {
        let n = chunk.min(from.pending_output().len());
        let piece = from.pending_output()[..n].to_vec();
        from.consume_written(n);
        to.feed(&piece).unwrap();
        while let Some(r) = to.receive() {
            got.push(r);
        }
    }
    got
}

#[test]
fn test_transport_send_receive() {
    let mut client_transport = Transport::new();
    let mut server_transport = Transport::new();
    client_transport.send(&test_message(b"Hello, World!".to_vec())).unwrap();
    let mut received = deliver(&mut client_transport, &mut server_transport, 1024);
    assert_eq!(received.len(), 1);
    let received = received.remove(0).unwrap();
    assert_eq!(received.msg_type, MessageType::Request);
    assert_eq!(received.payload, b"Hello, World!".to_vec());
}

#[test]
fn test_transport_backpressure() {
    let mut client_transport = Transport::new();
    let mut server_transport = Transport::new();
    client_transport.send(&test_message(vec![0u8; 1024])).unwrap();
    let received = deliver(&mut client_transport, &mut server_transport, 64);
    assert_eq!(received.len(), 1);
    assert_eq!(received[0].as_ref().unwrap().payload, vec![0u8; 1024]);
}

#[test]
fn frame_has_length_prefix() {
    let mut t = Transport::new();
    let m = test_message(b"abc".to_vec());
    t.send(&m).unwrap();
    let out = t.pending_output().to_vec();
    assert_eq!(out[..4], [0, 0, 0, (HEADER_LEN + 3) as u8]);
    assert_eq!(out[4..].to_vec(), m.encode());
}

#[test]
fn fragmentation_does_not_change_result() {
    let m = test_message((0..=255u8).collect());
    for chunk in [1usize, 2, 3, 5, 7, 31, 4096] {
        let mut a = Transport::new();
        let mut b = Transport::new();
        a.send(&m).unwrap();
        let got = deliver(&mut a, &mut b, chunk);
        assert_eq!(got.len(), 1, "chunk size {}", chunk);
        let d = got[0].as_ref().unwrap();
        assert_eq!(d.payload, m.payload);
        assert_eq!(d.timestamp, 12345);
        assert_eq!(d.request_id, 67890);
        assert_eq!(d.ttl, 3600);
    }
}

#[test]
fn two_frames_in_one_read() {
    let mut a = Transport::new();
    let mut b = Transport::new();
    a.send(&test_message(b"one".to_vec())).unwrap();
    a.send(&test_message(b"two".to_vec())).unwrap();
    let bytes = a.pending_output().to_vec();
    b.feed(&bytes).unwrap();
    assert_eq!(b.receive().unwrap().unwrap().payload, b"one".to_vec());
    assert_eq!(b.receive().unwrap().unwrap().payload, b"two".to_vec());
    assert!(b.receive().is_none());
}

#[test]
fn empty_read_means_connection_closed() {
    let mut t = Transport::new();
    assert_eq!(t.feed(&[]), Err(ProtocolError::ConnectionClosed));
}

#[test]
fn corrupt_frame_body_is_a_format_error() {
    let mut t = Transport::new();
    t.feed(&[0, 0, 0, 3, 1, 2, 3]).unwrap();
    assert!(matches!(t.receive(), Some(Err(ProtocolError::InvalidFormat(_)))));
    assert!(t.receive().is_none());
}
