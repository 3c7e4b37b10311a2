//! A binary messaging protocol: message codec, length-prefixed framing,
//! payload compression and authenticated encryption, and the client-side
//! bookkeeping for requests and server-push streams.
use vstd::prelude::*;

pub mod client;
pub mod compression;
pub mod discovery;
pub mod edge;
pub mod encryption;
pub mod error;
pub mod flags;
pub mod message;
pub mod observability;
pub mod state;
pub mod stream;
pub mod transport;
pub mod wire;

pub use client::RemusClient;
pub use compression::{compress, compress_if_beneficial, decompress};
pub use discovery::{HealthStatus, ServiceInfo, ServiceRegistry};
pub use edge::{EdgeCompute, EdgeComputeResult, EdgeFunction, ResourceUsage};
pub use encryption::Encryptor;
pub use error::ProtocolError;
pub use flags::ProtocolVersion;
pub use message::{Message, MessageFlags, MessageType};
pub use observability::Trace;
pub use state::{StateManager, StateVersion};
pub use stream::{MessageStream, StreamItem};
pub use transport::Transport;

verus! {

/// Major version of the wire protocol.
pub const PROTOCOL_VERSION_MAJOR: u16 = 2;

/// Minor version of the wire protocol.
pub const PROTOCOL_VERSION_MINOR: u16 = 0;

/// No two pairs share a key, so that the pairs stand for a map.
pub open spec fn unique_keys(pairs: Seq<(String, String)>) -> bool {
    forall|i: int, j: int|
        0 <= i < pairs.len() && 0 <= j < pairs.len() && i != j ==> #[trigger] pairs[i].0@
            != #[trigger] pairs[j].0@
}

/// Relies on `rand::random`, which draws from the thread-local generator
/// (a cryptographically secure one, seeded from the operating system).
/// Nothing is promised of the value.
pub assume_specification<T>[ rand::random::<T> ]() -> (r: T)
    where
        rand::distributions::Standard: rand::distributions::Distribution<T>,
;

} // verus!
