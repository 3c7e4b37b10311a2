use vstd::prelude::*;

verus! {

/// Failures reported by the protocol layer.
///
/// Encryption failures of every cause share one variant, so that a caller
/// cannot tell a short input from a failed tag check.
#[derive(Clone, Debug, PartialEq, Eq)]
pub enum ProtocolError {
    /// A malformed, short or inconsistent frame or message, or a failed lookup.
    InvalidFormat(String),
    /// The peer speaks an incompatible protocol version.
    VersionMismatch,
    /// The operation needs authentication.
    AuthenticationRequired,
    /// The compressor or decompressor failed.
    CompressionError(String),
    /// A failure of the underlying byte stream.
    IoError(String),
    /// A failure to encrypt or to decrypt and authenticate.
    EncryptionError(String),
    /// The peer closed the byte stream before a whole frame arrived.
    ConnectionClosed,
    /// No response came within the configured time.
    Timeout,
}

impl ProtocolError {
    /// A human-readable description of the error.
    pub fn message(&self) -> (r: String) {
        match self {
            ProtocolError::InvalidFormat(s) => {
                let mut r = String::from_str("Invalid message format: ");
                r.append(s.as_str());
                r
            },
            ProtocolError::VersionMismatch => String::from_str("Protocol version mismatch"),
            ProtocolError::AuthenticationRequired => String::from_str("Authentication required"),
            ProtocolError::CompressionError(s) => {
                let mut r = String::from_str("Compression error: ");
                r.append(s.as_str());
                r
            },
            ProtocolError::IoError(s) => {
                let mut r = String::from_str("IO error: ");
                r.append(s.as_str());
                r
            },
            ProtocolError::EncryptionError(s) => {
                let mut r = String::from_str("Encryption error: ");
                r.append(s.as_str());
                r
            },
            ProtocolError::ConnectionClosed => String::from_str("Connection closed"),
            ProtocolError::Timeout => String::from_str("Request timeout"),
        }
    }
}

} // verus!
