//! The data model of the gateway.
//!
//! Entity identifiers are externally allocated 128-bit snowflakes; the
//! gateway never generates them, it only parses and compares them.  The
//! domain snapshots attached to outbound events are immutable value copies
//! owned by the request-serving tier; the gateway holds them only for the
//! lifetime of event delivery.

use vstd::prelude::*;

verus! {

/// One event received from a client.  The wire carries it as a text frame
/// tagged by an event-name field.
pub enum InboundEvent {
    /// The mandatory first event: the credential token and the intents
    /// bitmask that narrows which events the session wants.
    Identify { token: String, intents: u64 },
    /// Application-level liveness probe; answered with `Pong`.
    Ping,
    /// Application-level liveness acknowledgment.
    Pong,
}

/// The mathematical model of an inbound event: the token as a bare
/// character sequence.  Contracts about the parser speak of this model.
pub enum InboundModel {
    Identify { token: Seq<char>, intents: u64 },
    Ping,
    Pong,
}

impl View for InboundEvent {
    type V = InboundModel;

    open spec fn view(&self) -> InboundModel {
        match self {
            InboundEvent::Identify { token, intents } => InboundModel::Identify {
                token: token@,
                intents: *intents,
            },
            InboundEvent::Ping => InboundModel::Ping,
            InboundEvent::Pong => InboundModel::Pong,
        }
    }
}

/// A guild snapshot: the fields delivery needs, including the member list
/// that addresses a broadcast to the guild.
pub struct Guild {
    pub id: u128,
    pub owner_id: u128,
    pub name: String,
    pub member_ids: Vec<u128>,
}

/// A role snapshot.
pub struct Role {
    pub id: u128,
    pub guild_id: u128,
    pub name: String,
    pub color: Option<u32>,
    pub position: u16,
}

/// An invite snapshot.
pub struct Invite {
    pub code: String,
    pub owner_id: u128,
    pub guild_id: u128,
    pub created_at: u64,
    pub uses: u64,
    pub max_uses: Option<u64>,
    pub max_age: Option<u64>,
}

/// A channel snapshot.
pub struct Channel {
    pub id: u128,
    pub name: String,
}

/// A user snapshot as the request-serving tier returns it.
pub struct User {
    pub id: u128,
    pub name: String,
    pub avatar: Option<String>,
    pub discriminator: i16,
    pub flags: u64,
    pub pronouns: Option<i16>,
    pub is_bot: bool,
}

/// One event sent to clients.  All variants share one wire envelope:
/// `{"event": <tag>, "data": <payload>}`; `Pong` carries no data.
pub enum OutboundEvent {
    GuildDelete { guild: Guild },
    RoleDelete { role: Role },
    InviteCreate { invite: Invite },
    Pong,
}

/// One publication handed to the fan-out bridge: the event together with
/// the user identifiers it addresses.  The target list is complete
/// addressing metadata, so a receiving node routes without consulting
/// storage.
pub struct Publish {
    pub event: OutboundEvent,
    pub targets: Vec<u128>,
}

} // verus!
