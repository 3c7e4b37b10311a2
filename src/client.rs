//! Client-side request handling, kept free of I/O. The caller owns the
//! connection: it writes what `Transport::pending_output` holds, feeds what
//! it reads into the transport, and enforces the response timeout.
//!
//! The response payload is handed back as it arrived: the caller reverses
//! compression and encryption where the peer applied them.
use vstd::prelude::*;
use crate::compression::{beneficial, compress_if_beneficial};
use crate::discovery::{ServiceInfo, ServiceRegistry};
use crate::encryption::{decrypt_spec, Encryptor, MAX_PLAINTEXT_LEN, NONCE_LEN, TAG_LEN};
use crate::error::ProtocolError;
use crate::message::{now_micros, Message, MessageFlags, MessageType, DEFAULT_TTL_MS, HEADER_LEN};
use crate::stream::MessageStream;
use crate::transport::{decode_outcome, frame_body, frame_ready, frame_spec, after_frame, Transport};

verus! {

/// Default time to wait for a response, in milliseconds.
pub const DEFAULT_TIMEOUT_MS: u64 = 30000;

/// Default time-to-live of registry entries, in microseconds.
pub const DEFAULT_REGISTRY_TTL_MICROS: u64 = 30000000;

/// `out` is what preparing `data` gives: `data` compressed when that makes
/// it shorter, then, when a key is set, encrypted (nonce and tag added) so
/// that it decrypts to that. Nothing is prepared when zstd fails.
pub open spec fn prepared(key: Option<Seq<u8>>, data: Seq<u8>, out: Seq<u8>) -> bool {
    match beneficial(data) {
        None => false,
        Some(c) => match key {
            None => out == c,
            Some(k) => decrypt_spec(k, out) == Some(c) && out.len() == NONCE_LEN + c.len() + TAG_LEN,
        },
    }
}

/// `after` is `before` followed by the frame of `m`.
pub open spec fn queued(before: Seq<u8>, after: Seq<u8>, m: Message) -> bool {
    after == before + frame_spec(m)
}

/// `m` is a message as `Message::new` makes it: of type `Request`, with
/// flag bits `flags`, id `id`, priority 0, the default time-to-live and no
/// routing information or context.
pub open spec fn fresh_request(m: Message, flags: u8, id: u64) -> bool {
    &&& m.msg_type == MessageType::Request
    &&& m.flags.bits == flags
    &&& m.request_id == id
    &&& m.priority == 0
    &&& m.ttl == DEFAULT_TTL_MS
    &&& m.routing_info is None
    &&& m.context is None
}

/// A request carrying `len` bytes of payload before preparation fits in a frame.
pub open spec fn fits_frame(len: int) -> bool {
    HEADER_LEN + len + NONCE_LEN + TAG_LEN <= u32::MAX
}

/// Request-side state of one connection.
pub struct RemusClient {
    transport: Transport,
    encryptor: Option<Encryptor>,
    service_registry: ServiceRegistry,
    request_timeout_ms: u64,
}

impl RemusClient {
    /// The framing state of the connection.
    pub closed spec fn framing(&self) -> Transport {
        self.transport
    }

    /// The encryption key, when one is set.
    pub closed spec fn key(&self) -> Option<Seq<u8>> {
        match self.encryptor {
            Some(e) => Some(e.key()),
            None => None,
        }
    }

    /// The service registry.
    pub closed spec fn registry(&self) -> ServiceRegistry {
        self.service_registry
    }

    /// Time to wait for a response, in milliseconds.
    pub closed spec fn timeout_ms(&self) -> u64 {
        self.request_timeout_ms
    }

    /// The registry keeps ids unique.
    pub open spec fn wf(&self) -> bool {
        self.registry().wf()
    }

    /// A client with empty buffers, no key, an empty registry and the default timeout.
    pub fn new() -> (r: RemusClient)
        ensures
            r.wf(),
            r.framing().incoming() == Seq::<u8>::empty(),
            r.framing().outgoing() == Seq::<u8>::empty(),
            r.key() is None,
            r.registry().entries() == Seq::<ServiceInfo>::empty(),
            r.timeout_ms() == DEFAULT_TIMEOUT_MS,
    {
        RemusClient {
            transport: Transport::new(),
            encryptor: None,
            service_registry: ServiceRegistry::new(DEFAULT_REGISTRY_TTL_MICROS),
            request_timeout_ms: DEFAULT_TIMEOUT_MS,
        }
    }

    /// Encrypts every later payload under `key`.
    pub fn with_encryption(self, key: &[u8; 32]) -> (r: RemusClient)
        ensures
            r.key() == Some(key@),
            r.framing() == self.framing(),
            r.registry() == self.registry(),
            r.timeout_ms() == self.timeout_ms(),
    {
        RemusClient { encryptor: Some(Encryptor::new(key)), ..self }
    }

    /// Waits `timeout_ms` milliseconds for each response.
    pub fn with_timeout(self, timeout_ms: u64) -> (r: RemusClient)
        ensures
            r.timeout_ms() == timeout_ms,
            r.key() == self.key(),
            r.framing() == self.framing(),
            r.registry() == self.registry(),
    {
        RemusClient { request_timeout_ms: timeout_ms, ..self }
    }

    /// Time to wait for a response, in milliseconds.
    pub fn request_timeout_ms(&self) -> (r: u64)
        ensures
            r == self.timeout_ms(),
    {
        self.request_timeout_ms
    }

    /// The framing state, for the caller that moves the bytes.
    pub fn transport(&self) -> (r: &Transport)
        ensures
            *r == self.framing(),
    {
        &self.transport
    }

    /// The framing state, for the caller that moves the bytes.
    pub fn transport_mut(&mut self) -> (r: &mut Transport)
        ensures
            *r == old(self).framing(),
            final(self).framing() == *final(r),
            final(self).key() == old(self).key(),
            final(self).registry() == old(self).registry(),
            final(self).timeout_ms() == old(self).timeout_ms(),
    {
        &mut self.transport
    }

    /// The service registry, to register and refresh services.
    pub fn registry_mut(&mut self) -> (r: &mut ServiceRegistry)
        ensures
            *r == old(self).registry(),
            final(self).registry() == *final(r),
            final(self).key() == old(self).key(),
            final(self).framing() == old(self).framing(),
            final(self).timeout_ms() == old(self).timeout_ms(),
    {
        &mut self.service_registry
    }

    /// Compresses `data` when that makes it shorter, then encrypts it when
    /// a key is set. Fails only when zstd fails, or when the payload is
    /// too long to encrypt.
    pub fn prepare_payload(&self, data: &[u8]) -> (r: Result<Vec<u8>, ProtocolError>)
        ensures
            beneficial(data@) is Some && data@.len() <= MAX_PLAINTEXT_LEN ==> r is Ok,
            beneficial(data@) is None ==> (r matches Err(e) && e is CompressionError),
            r matches Ok(out) ==> prepared(self.key(), data@, out@) && out@.len() <= data@.len()
                + NONCE_LEN + TAG_LEN,
            r matches Err(e) ==> (beneficial(data@) is None && e is CompressionError) || (
            self.key() is Some && data@.len() > MAX_PLAINTEXT_LEN && e is EncryptionError),
    {
        let compressed = compress_if_beneficial(data)?;
        match &self.encryptor {
            Some(encryptor) => encryptor.encrypt(compressed.as_slice()),
            None => Ok(compressed),
        }
    }

    /// Queues a request carrying the prepared `payload`, flagged idempotent,
    /// under a random request id, and returns that id. The caller then
    /// writes the queued bytes and waits for the response. Fails, queueing
    /// nothing, only when preparing the payload fails or the frame would be
    /// too long.
    pub fn request(&mut self, payload: &[u8]) -> (r: Result<u64, ProtocolError>)
        ensures
            final(self).key() == old(self).key(),
            final(self).registry() == old(self).registry(),
            final(self).timeout_ms() == old(self).timeout_ms(),
            final(self).framing().incoming() == old(self).framing().incoming(),
            beneficial(payload@) is Some && fits_frame(payload@.len() as int) ==> r is Ok,
            beneficial(payload@) is None ==> (r matches Err(e) && e is CompressionError),
            r matches Ok(id) ==> exists|m: Message|
                #[trigger] queued(
                    old(self).framing().outgoing(),
                    final(self).framing().outgoing(),
                    m,
                ) && fresh_request(m, 0x10, id) && prepared(old(self).key(), payload@, m.payload@),
            r is Err ==> final(self).framing().outgoing() == old(self).framing().outgoing(),
    {
        let id: u64 = rand::random::<u64>();
        self.request_at(payload, id, now_micros())?;
        Ok(id)
    }

    /// Queues a request carrying the prepared `payload`, flagged idempotent,
    /// with request id `request_id` and stamped `timestamp`. Fails, queueing
    /// nothing, only when preparing the payload fails or the frame would be
    /// too long.
    pub fn request_at(&mut self, payload: &[u8], request_id: u64, timestamp: u64) -> (r: Result<
        (),
        ProtocolError,
    >)
        ensures
            final(self).key() == old(self).key(),
            final(self).registry() == old(self).registry(),
            final(self).timeout_ms() == old(self).timeout_ms(),
            final(self).framing().incoming() == old(self).framing().incoming(),
            beneficial(payload@) is Some && fits_frame(payload@.len() as int) ==> r is Ok,
            beneficial(payload@) is None ==> (r matches Err(e) && e is CompressionError),
            r is Ok ==> exists|m: Message|
                #[trigger] queued(
                    old(self).framing().outgoing(),
                    final(self).framing().outgoing(),
                    m,
                ) && fresh_request(m, 0x10, request_id) && m.timestamp == timestamp && prepared(
                    old(self).key(),
                    payload@,
                    m.payload@,
                ),
            r is Err ==> final(self).framing().outgoing() == old(self).framing().outgoing(),
    {
        proof {
            if fits_frame(payload@.len() as int) {
                assert(payload@.len() <= MAX_PLAINTEXT_LEN);
            }
        }
        let body = self.prepare_payload(payload)?;
        proof {
            if fits_frame(payload@.len() as int) {
                assert(HEADER_LEN + body@.len() <= u32::MAX);
            }
        }
        let message = Message::new_at(
            MessageType::Request,
            MessageFlags::idempotent(),
            request_id,
            body,
            timestamp,
        );
        let r = self.send_message(&message);
        proof {
            if r is Ok {
                assert(queued(old(self).framing().outgoing(), self.framing().outgoing(), message));
            }
        }
        r
    }

    /// Queues the message that opens `stream`, stamped with the current
    /// time, as `open_stream_at` does: a request carrying the prepared
    /// `payload`, with no flags, whose request id is the stream's id. Fails, queueing nothing, only when preparing the payload fails or
    /// the frame would be too long.
    pub fn open_stream(&mut self, stream: &MessageStream, payload: &[u8]) -> (r: Result<
        (),
        ProtocolError,
    >)
        ensures
            final(self).key() == old(self).key(),
            final(self).registry() == old(self).registry(),
            final(self).timeout_ms() == old(self).timeout_ms(),
            final(self).framing().incoming() == old(self).framing().incoming(),
            beneficial(payload@) is Some && fits_frame(payload@.len() as int) ==> r is Ok,
            beneficial(payload@) is None ==> (r matches Err(e) && e is CompressionError),
            r is Ok ==> exists|m: Message|
                #[trigger] queued(
                    old(self).framing().outgoing(),
                    final(self).framing().outgoing(),
                    m,
                ) && fresh_request(m, 0, stream.id() as u64) && prepared(
                    old(self).key(),
                    payload@,
                    m.payload@,
                ),
            r is Err ==> final(self).framing().outgoing() == old(self).framing().outgoing(),
    {
        self.open_stream_at(stream, payload, now_micros())
    }

    /// Queues the message that opens `stream`, stamped `timestamp`: a
    /// request carrying the prepared `payload`, with no flags, whose request
    /// id is the stream's id. Fails, queueing nothing, only when preparing the payload fails or
    /// the frame would be too long.
    pub fn open_stream_at(&mut self, stream: &MessageStream, payload: &[u8], timestamp: u64) -> (r: Result<
        (),
        ProtocolError,
    >)
        ensures
            final(self).key() == old(self).key(),
            final(self).registry() == old(self).registry(),
            final(self).timeout_ms() == old(self).timeout_ms(),
            final(self).framing().incoming() == old(self).framing().incoming(),
            beneficial(payload@) is Some && fits_frame(payload@.len() as int) ==> r is Ok,
            beneficial(payload@) is None ==> (r matches Err(e) && e is CompressionError),
            r is Ok ==> exists|m: Message|
                #[trigger] queued(
                    old(self).framing().outgoing(),
                    final(self).framing().outgoing(),
                    m,
                ) && fresh_request(m, 0, stream.id() as u64) && m.timestamp == timestamp && prepared(
                    old(self).key(),
                    payload@,
                    m.payload@,
                ),
            r is Err ==> final(self).framing().outgoing() == old(self).framing().outgoing(),
    {
        proof {
            if fits_frame(payload@.len() as int) {
                assert(payload@.len() <= MAX_PLAINTEXT_LEN);
            }
        }
        let body = self.prepare_payload(payload)?;
        proof {
            if fits_frame(payload@.len() as int) {
                assert(HEADER_LEN + body@.len() <= u32::MAX);
            }
        }
        let message = Message::new_at(
            MessageType::Request,
            MessageFlags::none(),
            stream.stream_id() as u64,
            body,
            timestamp,
        );
        let r = self.send_message(&message);
        proof {
            if r is Ok {
                assert(queued(old(self).framing().outgoing(), self.framing().outgoing(), message));
            }
        }
        r
    }

    /// Creates a stream with a random id and queues the message that opens
    /// it, as `open_stream` does.
    pub fn stream(&mut self, payload: &[u8]) -> (r: Result<MessageStream, ProtocolError>)
        ensures
            final(self).key() == old(self).key(),
            final(self).registry() == old(self).registry(),
            final(self).timeout_ms() == old(self).timeout_ms(),
            final(self).framing().incoming() == old(self).framing().incoming(),
            beneficial(payload@) is Some && fits_frame(payload@.len() as int) ==> r is Ok,
            beneficial(payload@) is None ==> (r matches Err(e) && e is CompressionError),
            r matches Ok(s) ==> !s.ended() && exists|m: Message|
                #[trigger] queued(
                    old(self).framing().outgoing(),
                    final(self).framing().outgoing(),
                    m,
                ) && fresh_request(m, 0, s.id() as u64) && prepared(
                    old(self).key(),
                    payload@,
                    m.payload@,
                ),
            r is Err ==> final(self).framing().outgoing() == old(self).framing().outgoing(),
    {
        let stream = MessageStream::new();
        self.open_stream(&stream, payload)?;
        Ok(stream)
    }

    /// Queues `message`, keeping the rest of the state.
    fn send_message(&mut self, message: &Message) -> (r: Result<(), ProtocolError>)
        ensures
            final(self).key() == old(self).key(),
            final(self).registry() == old(self).registry(),
            final(self).timeout_ms() == old(self).timeout_ms(),
            final(self).framing().incoming() == old(self).framing().incoming(),
            r is Ok ==> queued(
                old(self).framing().outgoing(),
                final(self).framing().outgoing(),
                *message,
            ),
            r is Err ==> final(self).framing().outgoing() == old(self).framing().outgoing(),
            (r is Ok) <==> HEADER_LEN + message.payload@.len() <= u32::MAX,
    {
        self.transport.send(message)
    }

    /// The payload of the next response, once its whole frame has arrived;
    /// `None` while more bytes are needed. The payload is returned as it
    /// arrived, neither decrypted nor decompressed.
    pub fn take_response(&mut self) -> (r: Option<Result<Vec<u8>, ProtocolError>>)
        ensures
            final(self).key() == old(self).key(),
            final(self).registry() == old(self).registry(),
            final(self).timeout_ms() == old(self).timeout_ms(),
            final(self).framing().outgoing() == old(self).framing().outgoing(),
            !frame_ready(old(self).framing().incoming()) ==> r is None
                && final(self).framing().incoming() == old(self).framing().incoming(),
            frame_ready(old(self).framing().incoming()) ==> final(self).framing().incoming()
                == after_frame(old(self).framing().incoming()) && match r {
                Some(Ok(p)) => exists|m: Message|
                    decode_outcome(frame_body(old(self).framing().incoming()), Ok(m))
                        && #[trigger] m.payload@ == p@,
                Some(Err(e)) => decode_outcome(
                    frame_body(old(self).framing().incoming()),
                    Err(e),
                ),
                None => false,
            },
    {
        match self.transport.receive() {
            None => None,
            Some(Ok(m)) => Some(Ok(m.payload)),
            Some(Err(e)) => Some(Err(e)),
        }
    }

    /// The services of the registry that are healthy.
    pub fn discover_services(&self) -> (r: Vec<&ServiceInfo>)
        ensures
            r@.map_values(|x: &ServiceInfo| *x) == crate::discovery::kept(
                self.registry().entries(),
                crate::discovery::healthy(),
            ),
    {
        self.service_registry.get_healthy_services()
    }
}

} // verus!
