//! Consumer side of a server-push message stream. The bounded queue that
//! carries the items belongs to whoever runs the stream; this type decides,
//! item by item, what the consumer sees.
use vstd::prelude::*;
use crate::message::Message;

verus! {

/// Capacity of the queue that feeds a stream.
pub const STREAM_CAPACITY: usize = 32;

/// What the producer puts into a stream's queue.
#[derive(Clone, Debug, PartialEq)]
pub enum StreamItem {
    /// A pushed message.
    Message(Message),
    /// The producer's end-of-stream marker.
    End,
}

/// A stream of pushed messages that ends for good once the end marker
/// arrives or the producer goes away.
pub struct MessageStream {
    stream_id: u32,
    closed: bool,
}

impl MessageStream {
    /// Identifier of the stream, also used as the request id that opens it.
    pub closed spec fn id(&self) -> u32 {
        self.stream_id
    }

    /// The stream has ended.
    pub closed spec fn ended(&self) -> bool {
        self.closed
    }

    /// An open stream with a random identifier.
    pub fn new() -> (r: MessageStream)
        ensures
            !r.ended(),
    {
        MessageStream { stream_id: rand::random::<u32>(), closed: false }
    }

    /// An open stream with identifier `stream_id`.
    pub fn with_id(stream_id: u32) -> (r: MessageStream)
        ensures
            !r.ended(),
            r.id() == stream_id,
    {
        MessageStream { stream_id, closed: false }
    }

    /// The stream's identifier.
    pub fn stream_id(&self) -> (r: u32)
        ensures
            r == self.id(),
    {
        self.stream_id
    }

    /// Whether the stream has ended.
    pub fn is_closed(&self) -> (r: bool)
        ensures
            r == self.ended(),
    {
        self.closed
    }

    /// Takes what the queue delivered (`None`: the producer went away) and
    /// returns the message to hand to the consumer, or `None` for the end of
    /// the stream. Once the stream has ended it stays ended and yields
    /// nothing, whatever is delivered.
    pub fn next_item(&mut self, delivered: Option<StreamItem>) -> (r: Option<Message>)
        ensures
            final(self).id() == old(self).id(),
            old(self).ended() ==> r is None && final(self).ended(),
            !old(self).ended() ==> match delivered {
                Some(StreamItem::Message(m)) => r == Some(m) && !final(self).ended(),
                _ => r is None && final(self).ended(),
            },
    {
        if self.closed {
            return None;
        }
        match delivered {
            Some(StreamItem::Message(m)) => Some(m),
            _ => {
                self.closed = true;
                None
            },
        }
    }
}

} // verus!
