//! Real-time event gateway core for a chat platform.
//!
//! The library holds the verified logic of the gateway: the wire codec for
//! inbound and outbound events, the per-connection handshake state machine,
//! the session registry that maps authenticated users to their live
//! connections, the bounded per-session transmit queue, and the fan-out
//! bridge that routes published events to the sessions of the addressed
//! users.  Transport, storage and the distributed publish/subscribe channel
//! are collaborators at the edge; the code that talks to them hands this
//! library plain values and takes plain values back.

pub mod bridge;
pub mod close;
pub mod codec;
pub mod errors;
pub mod parse;
pub mod registry;
pub mod rest;
pub mod rx;
pub mod txq;
pub mod types;
