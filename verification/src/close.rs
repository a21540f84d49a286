//! Close frames and the close-code vocabulary.
//!
//! A close frame terminates one session with a numeric reason code.  The
//! codes are partitioned by fault attribution: protocol violations caused by
//! the client carry a code below 3000 or in the 4000 range, while
//! backend-unavailability codes raised by the server sit in the 5000 range.
//! The concrete values are part of the wire contract and must never be
//! renumbered.

use vstd::prelude::*;

verus! {

/// Invalid payload encoding: a text frame whose body is not a well-formed
/// inbound event.
pub const CODE_INVALID_PAYLOAD: u16 = 2001;

/// A data payload was sent before a successful Identify.
pub const CODE_NOT_IDENTIFIED: u16 = 2004;

/// Unsupported frame type: a binary frame on the text-only protocol.  This
/// is the transport's own "unsupported data" code.
pub const CODE_UNSUPPORTED_DATA: u16 = 1003;

/// Identify carried a token that the credential check rejected.
pub const CODE_BAD_CREDENTIALS: u16 = 4001;

/// The distributed publish/subscribe backend is unavailable.
pub const CODE_PUBSUB_UNAVAILABLE: u16 = 5002;

/// The storage backend is unavailable.
pub const CODE_STORAGE_UNAVAILABLE: u16 = 5003;

/// The session registry is unavailable.
pub const CODE_REGISTRY_UNAVAILABLE: u16 = 5004;

/// The session stopped answering Ping with Pong within the configured
/// window and is closed by the server.
pub const CODE_IDLE_TIMEOUT: u16 = 5005;

/// A close code the client caused: a protocol violation or bad credentials.
pub open spec fn is_client_fault(code: u16) -> bool {
    (2000 <= code && code < 3000) || (4000 <= code && code < 5000)
}

/// A close code the server caused: a backend was unavailable or the server
/// gave the session up.
pub open spec fn is_server_fault(code: u16) -> bool {
    5000 <= code && code < 6000
}

/// One close frame: the numeric reason code and a human-readable reason.
/// Both directions of the transport understand it; it is fatal to the
/// session that receives it.
pub struct CloseFrame {
    pub code: u16,
    pub reason: String,
}

impl CloseFrame {
    /// Whether this frame blames the client.
    pub fn client_fault(&self) -> (r: bool)
        ensures
            r == is_client_fault(self.code),
    {
        (2000 <= self.code && self.code < 3000) || (4000 <= self.code && self.code < 5000)
    }

    /// Whether this frame blames the server.
    pub fn server_fault(&self) -> (r: bool)
        ensures
            r == is_server_fault(self.code),
    {
        5000 <= self.code && self.code < 6000
    }
}

} // verus!
