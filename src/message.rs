//! The `Message` record and its fixed binary layout:
//! `type(1) | flags(1) | timestamp(8) | request_id(8) | priority(1) | ttl(4) | payload_len(4) | payload`.
use vstd::prelude::*;
use crate::error::ProtocolError;
use crate::wire::{
    be32, be64, get_be32, get_be64, lemma_be32_inverse, lemma_be64_inverse, push_be32, push_be64,
    read_be32, read_be64,
};

verus! {

/// Number of bytes before the payload in an encoded message.
pub const HEADER_LEN: usize = 27;

/// Time-to-live given to a new message, in milliseconds.
pub const DEFAULT_TTL_MS: u32 = 30000;

/// Kind of a message, carried as the first byte of its encoding.
#[derive(Clone, Copy, Debug, PartialEq, Eq, Structural)]
pub enum MessageType {
    Request,
    Response,
    Event,
    Error,
}

/// The byte that stands for `t` on the wire.
pub open spec fn type_byte(t: MessageType) -> u8 {
    match t {
        MessageType::Request => 0,
        MessageType::Response => 1,
        MessageType::Event => 2,
        MessageType::Error => 3,
    }
}

/// The message type that byte `b` stands for (`b <= 3`).
pub open spec fn type_of_byte(b: u8) -> MessageType {
    if b == 0 {
        MessageType::Request
    } else if b == 1 {
        MessageType::Response
    } else if b == 2 {
        MessageType::Event
    } else {
        MessageType::Error
    }
}

impl MessageType {
    /// The wire byte of this type.
    pub fn to_byte(self) -> (r: u8)
        ensures
            r == type_byte(self),
    {
        match self {
            MessageType::Request => 0,
            MessageType::Response => 1,
            MessageType::Event => 2,
            MessageType::Error => 3,
        }
    }

    /// The type whose wire byte is `b`, if there is one.
    pub fn from_byte(b: u8) -> (r: Option<MessageType>)
        ensures
            b <= 3 ==> r == Some(type_of_byte(b)),
            b > 3 ==> r is None,
    {
        match b {
            0 => Some(MessageType::Request),
            1 => Some(MessageType::Response),
            2 => Some(MessageType::Event),
            3 => Some(MessageType::Error),
            _ => None,
        }
    }
}

/// Mask of the defined flag bits; bit 0x80 is reserved.
pub const FLAGS_MASK: u8 = 0x7f;

/// A set of independent message capabilities, one bit each.
#[derive(Clone, Copy, Debug, PartialEq, Eq, Hash, Structural)]
pub struct MessageFlags {
    pub bits: u8,
}

impl MessageFlags {
    /// No flag.
    pub fn none() -> (r: MessageFlags)
        ensures
            r.bits == 0,
    {
        MessageFlags { bits: 0 }
    }

    /// The payload is encrypted.
    pub fn encrypted() -> (r: MessageFlags)
        ensures
            r.bits == 0x01,
    {
        MessageFlags { bits: 0x01 }
    }

    /// The payload is compressed.
    pub fn compressed() -> (r: MessageFlags)
        ensures
            r.bits == 0x02,
    {
        MessageFlags { bits: 0x02 }
    }

    /// The message is urgent.
    pub fn urgent() -> (r: MessageFlags)
        ensures
            r.bits == 0x04,
    {
        MessageFlags { bits: 0x04 }
    }

    /// The sender wants an acknowledgement.
    pub fn requires_ack() -> (r: MessageFlags)
        ensures
            r.bits == 0x08,
    {
        MessageFlags { bits: 0x08 }
    }

    /// Handling the message twice does no harm.
    pub fn idempotent() -> (r: MessageFlags)
        ensures
            r.bits == 0x10,
    {
        MessageFlags { bits: 0x10 }
    }

    /// The message should be handled early.
    pub fn high_priority() -> (r: MessageFlags)
        ensures
            r.bits == 0x20,
    {
        MessageFlags { bits: 0x20 }
    }

    /// The message needs authentication.
    pub fn requires_auth() -> (r: MessageFlags)
        ensures
            r.bits == 0x40,
    {
        MessageFlags { bits: 0x40 }
    }


    /// Only defined bits are set.
    pub open spec fn is_valid(self) -> bool {
        self.bits & FLAGS_MASK == self.bits
    }

    /// The empty set.
    pub fn empty() -> (r: MessageFlags)
        ensures
            r.bits == 0,
    {
        MessageFlags { bits: 0 }
    }

    /// The flags whose bits are set in `bits`; undefined bits are dropped.
    pub fn from_bits_truncate(bits: u8) -> (r: MessageFlags)
        ensures
            r.bits == bits & FLAGS_MASK,
            r.is_valid(),
    {
        let r = MessageFlags { bits: bits & FLAGS_MASK };
        assert(bits & 0x7f & 0x7f == bits & 0x7f) by (bit_vector);
        r
    }

    /// The raw bits.
    pub fn bits(&self) -> (r: u8)
        ensures
            r == self.bits,
    {
        self.bits
    }

    /// Every flag of `other` is set in `self`.
    pub fn contains(&self, other: MessageFlags) -> (r: bool)
        ensures
            r == (self.bits & other.bits == other.bits),
    {
        self.bits & other.bits == other.bits
    }

    /// The flags set in either.
    pub fn union(self, other: MessageFlags) -> (r: MessageFlags)
        ensures
            r.bits == self.bits | other.bits,
    {
        MessageFlags { bits: self.bits | other.bits }
    }

    /// No flag is set.
    pub fn is_empty(&self) -> (r: bool)
        ensures
            r == (self.bits == 0),
    {
        self.bits == 0
    }
}

/// The unit of communication.
///
/// `routing_info` and `context` live only in memory: they are not encoded.
#[derive(Clone, Debug, PartialEq)]
pub struct Message {
    pub msg_type: MessageType,
    pub flags: MessageFlags,
    pub payload: Vec<u8>,
    /// Microseconds since the Unix epoch.
    pub timestamp: u64,
    pub request_id: u64,
    pub priority: u8,
    /// Time-to-live in milliseconds; advisory.
    pub ttl: u32,
    pub routing_info: Option<String>,
    pub context: Option<String>,
}

/// The encoding of `m` (its payload length is taken modulo 2^32; see `Message::wf`).
pub open spec fn encode_spec(m: Message) -> Seq<u8> {
    seq![type_byte(m.msg_type), m.flags.bits] + be64(m.timestamp) + be64(m.request_id) + seq![
        m.priority,
    ] + be32(m.ttl) + be32(m.payload@.len() as u32) + m.payload@
}

/// Payload length declared by the header at the start of `b`.
pub open spec fn declared_len(b: Seq<u8>) -> int {
    read_be32(b, 23) as int
}

/// `b` starts with a well-formed encoded message.
pub open spec fn decodable(b: Seq<u8>) -> bool {
    &&& b.len() >= HEADER_LEN
    &&& b[0] <= 3
    &&& HEADER_LEN + declared_len(b) <= b.len()
}

/// The fields that the wire carries in `b` are those of `m`.
pub open spec fn wire_fields(b: Seq<u8>, m: Message) -> bool {
    &&& m.msg_type == type_of_byte(b[0])
    &&& m.flags.bits == b[1] & FLAGS_MASK
    &&& m.timestamp == read_be64(b, 2)
    &&& m.request_id == read_be64(b, 10)
    &&& m.priority == b[18]
    &&& m.ttl == read_be32(b, 19)
    &&& m.payload@ == b.subrange(HEADER_LEN as int, HEADER_LEN + declared_len(b))
}

/// `a` and `b` agree on every field that is encoded.
pub open spec fn same_wire_fields(a: Message, b: Message) -> bool {
    &&& a.msg_type == b.msg_type
    &&& a.flags == b.flags
    &&& a.timestamp == b.timestamp
    &&& a.request_id == b.request_id
    &&& a.priority == b.priority
    &&& a.ttl == b.ttl
    &&& a.payload@ == b.payload@
}

impl Message {
    /// The message can be encoded faithfully: its flags are defined ones and
    /// its payload length fits the 32-bit length field.
    pub open spec fn wf(&self) -> bool {
        &&& self.flags.is_valid()
        &&& self.payload@.len() <= u32::MAX
    }

    /// A message of the given type, flags, id and payload, stamped with the
    /// current time, as `new_at` makes it.
    pub fn new(msg_type: MessageType, flags: MessageFlags, request_id: u64, payload: Vec<u8>) -> (r:
        Message)
        ensures
            r.msg_type == msg_type,
            r.flags == flags,
            r.request_id == request_id,
            r.payload@ == payload@,
            r.priority == 0,
            r.ttl == DEFAULT_TTL_MS,
            r.routing_info is None,
            r.context is None,
    {
        Message::new_at(msg_type, flags, request_id, payload, now_micros())
    }

    /// A message of the given type, flags, id and payload, stamped
    /// `timestamp` (microseconds since the Unix epoch), with priority 0,
    /// the default time-to-live and no routing information or context.
    pub fn new_at(
        msg_type: MessageType,
        flags: MessageFlags,
        request_id: u64,
        payload: Vec<u8>,
        timestamp: u64,
    ) -> (r: Message)
        ensures
            r.msg_type == msg_type,
            r.flags == flags,
            r.request_id == request_id,
            r.payload@ == payload@,
            r.timestamp == timestamp,
            r.priority == 0,
            r.ttl == DEFAULT_TTL_MS,
            r.routing_info is None,
            r.context is None,
    {
        Message {
            msg_type,
            flags,
            payload,
            timestamp,
            request_id,
            priority: 0,
            ttl: DEFAULT_TTL_MS,
            routing_info: None,
            context: None,
        }
    }

    /// The binary encoding of the message.
    pub fn encode(&self) -> (r: Vec<u8>)
        requires
            self.payload@.len() <= u32::MAX,
        ensures
            r@ == encode_spec(*self),
    {
        let mut buf: Vec<u8> = Vec::new();
        buf.push(self.msg_type.to_byte());
        buf.push(self.flags.bits);
        push_be64(&mut buf, self.timestamp);
        push_be64(&mut buf, self.request_id);
        buf.push(self.priority);
        push_be32(&mut buf, self.ttl);
        push_be32(&mut buf, self.payload.len() as u32);
        let mut i: usize = 0;
        while i < self.payload.len()
            invariant
                i <= self.payload@.len(),
                buf@ == seq![type_byte(self.msg_type), self.flags.bits] + be64(self.timestamp)
                    + be64(self.request_id) + seq![self.priority] + be32(self.ttl) + be32(
                    self.payload@.len() as u32,
                ) + self.payload@.subrange(0, i as int),
            decreases self.payload@.len() - i,
        {
            buf.push(self.payload[i]);
            i = i + 1;
            assert(self.payload@.subrange(0, i as int) =~= self.payload@.subrange(0, i - 1)
                + seq![self.payload@[i - 1]]);
        }
        assert(self.payload@.subrange(0, i as int) =~= self.payload@);
        buf
    }

    /// Parses a message from the start of `buf`; bytes after the payload are
    /// ignored. Fails with `InvalidFormat` when `buf` is shorter than the
    /// header, the type byte is unknown, or the declared payload length runs
    /// past the end of `buf`. Undefined flag bits are cleared.
    pub fn decode(buf: &[u8]) -> (r: Result<Message, ProtocolError>)
        ensures
            match r {
                Ok(m) => decodable(buf@) && wire_fields(buf@, m) && m.routing_info is None
                    && m.context is None,
                Err(e) => !decodable(buf@) && e is InvalidFormat,
            },
    {
        if buf.len() < HEADER_LEN {
            return Err(ProtocolError::InvalidFormat(String::from_str("Message too short")));
        }
        let msg_type = match MessageType::from_byte(buf[0]) {
            Some(t) => t,
            None => {
                return Err(ProtocolError::InvalidFormat(String::from_str("Invalid message type")));
            },
        };
        let flags = MessageFlags::from_bits_truncate(buf[1]);
        let timestamp = get_be64(buf, 2);
        let request_id = get_be64(buf, 10);
        let priority = buf[18];
        let ttl = get_be32(buf, 19);
        let payload_len = get_be32(buf, 23) as usize;
        if buf.len() - HEADER_LEN < payload_len {
            return Err(ProtocolError::InvalidFormat(String::from_str("Invalid payload length")));
        }
        let mut payload: Vec<u8> = Vec::with_capacity(payload_len);
        let mut i: usize = 0;
        while i < payload_len
            invariant
                i <= payload_len,
                HEADER_LEN + payload_len <= buf@.len(),
                buf@.len() == buf.len(),
                payload@ == buf@.subrange(HEADER_LEN as int, HEADER_LEN + i),
            decreases payload_len - i,
        {
            payload.push(buf[HEADER_LEN + i]);
            i = i + 1;
            assert(payload@ =~= buf@.subrange(HEADER_LEN as int, HEADER_LEN + i));
        }
        Ok(
            Message {
                msg_type,
                flags,
                payload,
                timestamp,
                request_id,
                priority,
                ttl,
                routing_info: None,
                context: None,
            },
        )
    }
}

/// Decoding the encoding of a well-formed message succeeds and gives back
/// every encoded field: type, flags, timestamp, request id, priority,
/// time-to-live and payload.
pub proof fn lemma_decode_encode(m: Message, d: Message)
    requires
        m.wf(),
        wire_fields(encode_spec(m), d),
    ensures
        decodable(encode_spec(m)),
        same_wire_fields(d, m),
{
    lemma_encode_layout(m);
    let b = encode_spec(m);
    let bits = m.flags.bits;
    assert(bits & 0x7f == bits ==> bits & 0x7f == bits) by (bit_vector);
    assert(d.flags.bits == m.flags.bits);
}

/// Where each field of `m` sits in its encoding.
#[verifier::spinoff_prover]
#[verifier::rlimit(60)]
pub proof fn lemma_encode_layout(m: Message)
    requires
        m.wf(),
    ensures
        decodable(encode_spec(m)),
        wire_fields(encode_spec(m), m),
        encode_spec(m).len() == HEADER_LEN + m.payload@.len(),
{
    let b = encode_spec(m);
    let len = m.payload@.len() as u32;
    lemma_be64_inverse(m.timestamp);
    lemma_be64_inverse(m.request_id);
    lemma_be32_inverse(m.ttl);
    lemma_be32_inverse(len);
    assert(b.subrange(2, 10) =~= be64(m.timestamp));
    assert(b.subrange(10, 18) =~= be64(m.request_id));
    assert(b.subrange(19, 23) =~= be32(m.ttl));
    assert(b.subrange(23, 27) =~= be32(len));
    assert(read_be64(b, 2) == read_be64(b.subrange(2, 10), 0));
    assert(read_be64(b, 10) == read_be64(b.subrange(10, 18), 0));
    assert(read_be32(b, 19) == read_be32(b.subrange(19, 23), 0));
    assert(read_be32(b, 23) == read_be32(b.subrange(23, 27), 0));
    assert(b.subrange(HEADER_LEN as int, HEADER_LEN + declared_len(b)) =~= m.payload@);
    let bits = m.flags.bits;
    assert(bits & 0x7f == bits ==> bits & 0x7f == bits) by (bit_vector);
    assert(type_of_byte(type_byte(m.msg_type)) == m.msg_type);
}

/// Relies on `std::time::SystemTime::now`: microseconds since the Unix epoch,
/// or 0 for a clock set before it. Nothing is promised of the value.
#[verifier::external_body]
pub(crate) fn now_micros() -> (r: u64) {
    std::time::SystemTime::now()
        .duration_since(std::time::UNIX_EPOCH)
        .map(|d| d.as_micros() as u64)
        .unwrap_or(0)
}

} // verus!
