use remus::client::DEFAULT_TIMEOUT_MS;
use remus::stream::STREAM_CAPACITY;
use remus::{
    decompress, Encryptor, Message, MessageFlags, MessageStream, MessageType, RemusClient,
    StreamItem, Transport,
};

fn pump(client: &mut RemusClient) -> Vec<u8> {
    let out = client.transport().pending_output().to_vec();
    let n = out.len();
    client.transport_mut().consume_written(n);
    out
}

#[test]
fn request_is_framed_idempotent_request() {
    let mut client = RemusClient::new();
    assert_eq!(client.request_timeout_ms(), DEFAULT_TIMEOUT_MS);
    let id = client.request(b"Hello, World!").unwrap();
    let bytes = pump(&mut client);
    let mut peer = Transport::new();
    peer.feed(&bytes).unwrap();
    let m = peer.receive().unwrap().unwrap();
    assert_eq!(m.msg_type, MessageType::Request);
    assert_eq!(m.request_id, id);
    assert!(m.flags.contains(MessageFlags::idempotent()));
    assert_eq!(m.payload, b"Hello, World!".to_vec());
    assert_eq!(m.priority, 0);
    assert_eq!(m.ttl, 30000);
}

#[test]
fn compressible_request_is_compressed() {
    let mut client = RemusClient::new();
    client.request(&[5u8; 2000]).unwrap();
    let mut peer = Transport::new();
    peer.feed(&pump(&mut client)).unwrap();
    let m = peer.receive().unwrap().unwrap();
    assert!(m.payload.len() < 2000);
    assert_eq!(decompress(&m.payload).unwrap(), vec![5u8; 2000]);
}

#[test]
fn encrypted_payload_decrypts_to_prepared() {
    let key = [9u8; 32];
    let client = RemusClient::new().with_encryption(&key).with_timeout(5);
    assert_eq!(client.request_timeout_ms(), 5);
    let out = client.prepare_payload(b"abc").unwrap();
    assert_eq!(out.len(), 12 + 3 + 16);
    assert_eq!(Encryptor::new(&key).decrypt(&out).unwrap(), b"abc".to_vec());
}

#[test]
fn response_payload_is_returned_raw() {
    let mut client = RemusClient::new();
    let mut peer = Transport::new();
    let reply = Message::new(MessageType::Response, MessageFlags::none(), 1, b"pong".to_vec());
    peer.send(&reply).unwrap();
    let bytes = peer.pending_output().to_vec();
    client.transport_mut().feed(&bytes[..5]).unwrap();
    assert!(client.take_response().is_none());
    client.transport_mut().feed(&bytes[5..]).unwrap();
    assert_eq!(client.take_response().unwrap().unwrap(), b"pong".to_vec());
}

#[test]
fn stream_end_closes_for_good() {
    let mut client = RemusClient::new();
    let mut stream = client.stream(b"Start streaming").unwrap();
    let mut peer = Transport::new();
    peer.feed(&pump(&mut client)).unwrap();
    let opening = peer.receive().unwrap().unwrap();
    assert_eq!(opening.request_id, stream.stream_id() as u64);
    assert_eq!(STREAM_CAPACITY, 32);

    let pushed = Message::new(MessageType::Event, MessageFlags::none(), 1, b"item".to_vec());
    assert_eq!(stream.next_item(Some(StreamItem::Message(pushed.clone()))), Some(pushed.clone()));
    assert!(!stream.is_closed());
    assert_eq!(stream.next_item(Some(StreamItem::End)), None);
    assert!(stream.is_closed());
    assert_eq!(stream.next_item(Some(StreamItem::Message(pushed.clone()))), None);
    assert_eq!(stream.next_item(None), None);
    assert_eq!(stream.next_item(Some(StreamItem::Message(pushed))), None);
}

#[test]
fn dropped_producer_ends_stream() {
    let mut stream = MessageStream::with_id(77);
    assert_eq!(stream.stream_id(), 77);
    assert_eq!(stream.next_item(None), None);
    assert!(stream.is_closed());
}

#[test]
fn discover_lists_healthy_services() {
    let mut client = RemusClient::new();
    assert!(client.discover_services().is_empty());
    client.registry_mut().register(remus::ServiceInfo {
        id: "s".to_string(),
        name: "n".to_string(),
        version: "1".to_string(),
        capabilities: Vec::new(),
        address: "127.0.0.1:1".to_string(),
        metadata: Vec::new(),
        last_seen: 0,
        health_status: remus::HealthStatus::Healthy,
    });
    assert_eq!(client.discover_services().len(), 1);
}

#[test]
fn request_at_stamps_id_and_time() {
    let mut client = RemusClient::new();
    client.request_at(b"ping", 42, 1234).unwrap();
    let mut peer = Transport::new();
    peer.feed(&pump(&mut client)).unwrap();
    let m = peer.receive().unwrap().unwrap();
    assert_eq!(m.request_id, 42);
    assert_eq!(m.timestamp, 1234);
    assert_eq!(m.payload, b"ping".to_vec());
    let stream = MessageStream::with_id(5);
    client.open_stream_at(&stream, b"go", 99).unwrap();
    peer.feed(&pump(&mut client)).unwrap();
    let m = peer.receive().unwrap().unwrap();
    assert_eq!(m.request_id, 5);
    assert_eq!(m.timestamp, 99);
    assert!(m.flags.is_empty());
}
