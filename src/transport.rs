//! Length-prefixed framing over a byte stream, kept free of I/O: the caller
//! moves bytes between the stream and the two buffers, and this type decides
//! what those bytes mean. On the wire a frame is a big-endian `u32` length
//! followed by that many bytes of an encoded message.
use vstd::prelude::*;
use crate::error::ProtocolError;
use crate::message::{decodable, encode_spec, lemma_encode_layout, wire_fields, Message, HEADER_LEN};
use crate::wire::{be32, copy_range, get_be32, lemma_be32_inverse, push_be32, read_be32};

verus! {

/// Number of bytes of the length prefix.
pub const PREFIX_LEN: usize = 4;

/// Capacity that each buffer starts with.
pub const INITIAL_CAPACITY: usize = 8192;

/// The frame that carries `m`: its encoded length, then its encoding.
pub open spec fn frame_spec(m: Message) -> Seq<u8> {
    be32(encode_spec(m).len() as u32) + encode_spec(m)
}

/// Length of the frame body announced by the prefix at the start of `b`.
pub open spec fn announced_len(b: Seq<u8>) -> int {
    read_be32(b, 0) as int
}

/// `b` starts with a whole frame.
pub open spec fn frame_ready(b: Seq<u8>) -> bool {
    b.len() >= PREFIX_LEN && PREFIX_LEN + announced_len(b) <= b.len()
}

/// The body of the frame at the start of `b`.
pub open spec fn frame_body(b: Seq<u8>) -> Seq<u8> {
    b.subrange(PREFIX_LEN as int, PREFIX_LEN + announced_len(b))
}

/// What follows the frame at the start of `b`.
pub open spec fn after_frame(b: Seq<u8>) -> Seq<u8> {
    b.subrange(PREFIX_LEN + announced_len(b), b.len() as int)
}

/// The outcome of decoding frame body `body` is `r`, as `Message::decode` states it.
pub open spec fn decode_outcome(body: Seq<u8>, r: Result<Message, ProtocolError>) -> bool {
    match r {
        Ok(m) => decodable(body) && wire_fields(body, m) && m.routing_info is None
            && m.context is None,
        Err(e) => !decodable(body) && e is InvalidFormat,
    }
}

/// Framing state of one connection: bytes read but not yet consumed, and
/// bytes queued but not yet written.
pub struct Transport {
    read_buf: Vec<u8>,
    write_buf: Vec<u8>,
}

impl Transport {
    /// Bytes received and not yet taken as frames.
    pub closed spec fn incoming(&self) -> Seq<u8> {
        self.read_buf@
    }

    /// Bytes queued for the stream and not yet written.
    pub closed spec fn outgoing(&self) -> Seq<u8> {
        self.write_buf@
    }

    /// Empty buffers.
    pub fn new() -> (r: Transport)
        ensures
            r.incoming() == Seq::<u8>::empty(),
            r.outgoing() == Seq::<u8>::empty(),
    {
        Transport {
            read_buf: Vec::with_capacity(INITIAL_CAPACITY),
            write_buf: Vec::with_capacity(INITIAL_CAPACITY),
        }
    }

    /// Queues the frame of `message` for writing. Fails with `InvalidFormat`,
    /// queueing nothing, when its encoding is too long for the 32-bit prefix.
    pub fn send(&mut self, message: &Message) -> (r: Result<(), ProtocolError>)
        ensures
            final(self).incoming() == old(self).incoming(),
            (r is Ok) <==> HEADER_LEN + message.payload@.len() <= u32::MAX,
            r is Ok ==> final(self).outgoing() == old(self).outgoing() + frame_spec(*message),
            r is Err ==> final(self).outgoing() == old(self).outgoing(),
            r matches Err(e) ==> e is InvalidFormat,
    {
        if message.payload.len() > (u32::MAX as usize) - HEADER_LEN {
            return Err(ProtocolError::InvalidFormat(String::from_str("Message too long")));
        }
        let mut encoded = message.encode();
        push_be32(&mut self.write_buf, encoded.len() as u32);
        self.write_buf.append(&mut encoded);
        Ok(())
    }

    /// The queued bytes, to be written to the stream.
    pub fn pending_output(&self) -> (r: &[u8])
        ensures
            r@ == self.outgoing(),
    {
        self.write_buf.as_slice()
    }

    /// Drops the first `n` queued bytes, which the stream has accepted.
    pub fn consume_written(&mut self, n: usize)
        requires
            n <= old(self).outgoing().len(),
        ensures
            final(self).outgoing() == old(self).outgoing().subrange(
                n as int,
                old(self).outgoing().len() as int,
            ),
            final(self).incoming() == old(self).incoming(),
    {
        let len = self.write_buf.len();
        self.write_buf = copy_range(self.write_buf.as_slice(), n, len);
    }

    /// Adds bytes read from the stream. An empty read means that the peer
    /// closed the stream: that fails with `ConnectionClosed` and changes nothing.
    pub fn feed(&mut self, chunk: &[u8]) -> (r: Result<(), ProtocolError>)
        ensures
            final(self).outgoing() == old(self).outgoing(),
            chunk@.len() == 0 ==> r == Err::<(), ProtocolError>(ProtocolError::ConnectionClosed)
                && final(self).incoming() == old(self).incoming(),
            chunk@.len() > 0 ==> r is Ok && final(self).incoming() == old(self).incoming()
                + chunk@,
    {
        if chunk.len() == 0 {
            return Err(ProtocolError::ConnectionClosed);
        }
        self.read_buf.extend_from_slice(chunk);
        Ok(())
    }

    /// Takes the next whole frame, if one has arrived, and decodes it.
    /// `None` means that more bytes are needed; nothing is consumed then.
    pub fn receive(&mut self) -> (r: Option<Result<Message, ProtocolError>>)
        ensures
            final(self).outgoing() == old(self).outgoing(),
            !frame_ready(old(self).incoming()) ==> r is None && final(self).incoming() == old(
                self,
            ).incoming(),
            frame_ready(old(self).incoming()) ==> (r matches Some(d) && decode_outcome(
                frame_body(old(self).incoming()),
                d,
            )) && final(self).incoming() == after_frame(old(self).incoming()),
    {
        let len = self.read_buf.len();
        if len < PREFIX_LEN {
            return None;
        }
        let body_len = get_be32(self.read_buf.as_slice(), 0) as usize;
        if len - PREFIX_LEN < body_len {
            return None;
        }
        let body = copy_range(self.read_buf.as_slice(), PREFIX_LEN, PREFIX_LEN + body_len);
        self.read_buf = copy_range(self.read_buf.as_slice(), PREFIX_LEN + body_len, len);
        Some(Message::decode(body.as_slice()))
    }
}

/// Splitting a frame into pieces does not change what is received: while
/// only part of the frame of `m` has arrived (any `k` of its bytes, fewer
/// than all) no frame is ready, and once all of it has arrived, followed by
/// any `rest`, the frame is ready, its body is exactly the encoding of `m`
/// (which decodes to the fields of `m`), and `rest` is left for the next frame.
pub proof fn lemma_fragmented_frame(m: Message, k: int, rest: Seq<u8>)
    requires
        m.wf(),
        HEADER_LEN + m.payload@.len() <= u32::MAX,
        0 <= k < frame_spec(m).len(),
    ensures
        !frame_ready(frame_spec(m).take(k)),
        frame_ready(frame_spec(m) + rest),
        frame_body(frame_spec(m) + rest) == encode_spec(m),
        after_frame(frame_spec(m) + rest) == rest,
        decodable(encode_spec(m)),
        wire_fields(encode_spec(m), m),
{
    lemma_encode_layout(m);
    let e = encode_spec(m);
    let f = frame_spec(m);
    let n = e.len() as u32;
    lemma_be32_inverse(n);
    assert(f.subrange(0, 4) =~= be32(n));
    assert(read_be32(f, 0) == read_be32(f.subrange(0, 4), 0));
    assert(announced_len(f) == e.len());
    if k >= 4 {
        let p = f.take(k);
        assert(p.subrange(0, 4) =~= f.subrange(0, 4));
        assert(read_be32(p, 0) == read_be32(p.subrange(0, 4), 0));
    }
    let g = f + rest;
    assert(g.subrange(0, 4) =~= f.subrange(0, 4));
    assert(read_be32(g, 0) == read_be32(g.subrange(0, 4), 0));
    assert(frame_body(g) =~= e);
    assert(after_frame(g) =~= rest);
}

/// The bytes that the first `i` reads of `chunks` delivered, in order.
pub open spec fn delivered(chunks: Seq<Seq<u8>>, i: int) -> Seq<u8>
    decreases i,
{
    if i <= 0 {
        Seq::empty()
    } else {
        delivered(chunks, i - 1) + chunks[i - 1]
    }
}

/// What the first `i` non-empty reads delivered starts what the first `j` did,
/// and is shorter by at least `j - i` bytes.
proof fn lemma_delivered_prefix(chunks: Seq<Seq<u8>>, i: int, j: int)
    requires
        0 <= i <= j <= chunks.len(),
        forall|k: int| 0 <= k < chunks.len() ==> #[trigger] chunks[k].len() > 0,
    ensures
        delivered(chunks, j).len() >= delivered(chunks, i).len() + (j - i),
        delivered(chunks, j).take(delivered(chunks, i).len() as int) == delivered(chunks, i),
    decreases j - i,
{
    if i < j {
        lemma_delivered_prefix(chunks, i, j - 1);
        let a = delivered(chunks, i);
        let b = delivered(chunks, j - 1);
        assert(chunks[j - 1].len() > 0);
        assert((b + chunks[j - 1]).take(a.len() as int) =~= b.take(a.len() as int));
    } else {
        assert(delivered(chunks, j).take(delivered(chunks, j).len() as int) =~= delivered(
            chunks,
            j,
        ));
    }
}

/// Delivering the frame of `m` in any number of non-empty reads gives the
/// same result as one read: after each read but the last no frame is
/// ready, and after the last the frame is ready, its body is the encoding
/// of `m` (which decodes to the fields of `m`) and nothing is left over.
pub proof fn lemma_chunked_frame(m: Message, chunks: Seq<Seq<u8>>)
    requires
        m.wf(),
        HEADER_LEN + m.payload@.len() <= u32::MAX,
        forall|k: int| 0 <= k < chunks.len() ==> #[trigger] chunks[k].len() > 0,
        delivered(chunks, chunks.len() as int) == frame_spec(m),
    ensures
        forall|i: int| 0 <= i < chunks.len() ==> !frame_ready(#[trigger] delivered(chunks, i)),
        frame_ready(delivered(chunks, chunks.len() as int)),
        frame_body(delivered(chunks, chunks.len() as int)) == encode_spec(m),
        after_frame(delivered(chunks, chunks.len() as int)) == Seq::<u8>::empty(),
        wire_fields(encode_spec(m), m),
{
    let f = frame_spec(m);
    let n = chunks.len() as int;
    assert forall|i: int| 0 <= i < n implies !frame_ready(#[trigger] delivered(chunks, i)) by {
        lemma_delivered_prefix(chunks, i, n);
        let k = delivered(chunks, i).len() as int;
        lemma_fragmented_frame(m, k, Seq::empty());
    }
    lemma_fragmented_frame(m, 0, Seq::empty());
    assert(f + Seq::<u8>::empty() =~= f);
}

} // verus!
