//! The per-connection inbound state machine.
//!
//! A connection moves `Unidentified -> Identified -> Closing`; `Closing` is
//! terminal.  The first successfully decoded event must be `Identify`:
//! anything else while unidentified is a protocol violation and closes the
//! connection, which keeps unauthenticated delivery targeting impossible.
//! The loop that awaits frames and the credential check live at the edge;
//! they feed frames and authentication outcomes into these functions and
//! perform the actions the results call for.

use vstd::prelude::*;
use crate::close::{
    CloseFrame, CODE_BAD_CREDENTIALS, CODE_INVALID_PAYLOAD, CODE_NOT_IDENTIFIED,
    CODE_PUBSUB_UNAVAILABLE, CODE_REGISTRY_UNAVAILABLE, CODE_STORAGE_UNAVAILABLE,
    CODE_UNSUPPORTED_DATA,
};
use crate::parse::{parse_inbound, spec_parse_inbound};
use crate::registry::{count_val, Registry};
use crate::types::{InboundEvent, OutboundEvent};

verus! {

/// One frame as the transport hands it over.  Transport-level ping and
/// pong are keepalive only and never surface as events.
pub enum Frame {
    Text(String),
    Binary(Vec<u8>),
    Ping(Vec<u8>),
    Pong(Vec<u8>),
    Close,
}

/// The handshake phase of a connection.
pub enum Phase {
    Unidentified,
    Identified,
    Closing,
}

/// One connection's state: its identity token, its phase, and what
/// Identify stored for later filtering and liveness bookkeeping.
pub struct Conn {
    pub conn_id: u128,
    pub phase: Phase,
    pub user_id: Option<u128>,
    pub intents: u64,
    pub last_pong: u64,
}

/// The disposition of one inbound frame.
pub enum Gate {
    /// A recognized event to dispatch to its handler.
    Dispatch(InboundEvent),
    /// A transport-level keepalive frame; produces no event.
    Ignore,
    /// Close the connection, sending this frame first.
    Close(CloseFrame),
    /// The transport reported a close; end without sending anything.
    CloseSilent,
}

/// What a handler asks the loop to do next.
pub enum HandlerOutcome {
    /// Keep reading.
    Continue,
    /// Enqueue this reply, then keep reading.
    SendAndContinue(OutboundEvent),
    /// Stop, sending this close frame first.
    CloseWith(CloseFrame),
    /// The write half hung up; stop without sending anything.
    SenderGone,
}

impl Conn {
    /// A connection is identified exactly when it knows its user.
    pub open spec fn wf(self) -> bool {
        &&& (self.phase is Identified ==> self.user_id is Some)
        &&& (self.phase is Unidentified ==> self.user_id is None)
    }

    /// A fresh, unidentified connection.
    pub fn new(conn_id: u128) -> (c: Conn)
        ensures
            c.wf(),
            c.phase is Unidentified,
            c.conn_id == conn_id,
            c.user_id is None,
            c.intents == 0,
            c.last_pong == 0,
    {
        Conn {
            conn_id,
            phase: Phase::Unidentified,
            user_id: Option::None,
            intents: 0,
            last_pong: 0,
        }
    }

    /// Decodes one frame and enforces the handshake order.  No event is
    /// ever dispatched from an unidentified connection except `Identify`
    /// itself; a binary frame is rejected in every phase with the
    /// unsupported-data code; an undecodable text closes with the
    /// invalid-payload code; any event other than `Identify` before
    /// identifying closes with the not-identified code.
    pub fn gate_frame(&self, frame: &Frame) -> (r: Gate)
        requires
            !(self.phase is Closing),
        ensures
            (frame matches Frame::Binary(b) ==> r matches Gate::Close(f)
                && f.code == CODE_UNSUPPORTED_DATA),
            (frame matches Frame::Ping(x) ==> r is Ignore),
            (frame matches Frame::Pong(x) ==> r is Ignore),
            (frame matches Frame::Close ==> r is CloseSilent),
            (frame matches Frame::Text(t) ==> match spec_parse_inbound(t@) {
                Option::None => (r matches Gate::Close(f) && f.code == CODE_INVALID_PAYLOAD),
                Option::Some(m) => if self.phase is Unidentified && !(m is Identify) {
                    (r matches Gate::Close(f) && f.code == CODE_NOT_IDENTIFIED)
                } else {
                    (r matches Gate::Dispatch(e) && e@ == m)
                },
            }),
            (r matches Gate::Dispatch(e) ==> (self.phase is Unidentified ==> e@ is Identify)),
    {
        match frame {
            Frame::Text(t) => {
                match parse_inbound(t.as_str()) {
                    Option::None => Gate::Close(
                        CloseFrame {
                            code: CODE_INVALID_PAYLOAD,
                            reason: String::from_str("invalid payload encoding"),
                        },
                    ),
                    Option::Some(e) => {
                        let identify = matches!(e, InboundEvent::Identify { .. });
                        let unidentified = matches!(self.phase, Phase::Unidentified);
                        if unidentified && !identify {
                            Gate::Close(
                                CloseFrame {
                                    code: CODE_NOT_IDENTIFIED,
                                    reason: String::from_str(
                                        "data payload sent before identifying",
                                    ),
                                },
                            )
                        } else {
                            Gate::Dispatch(e)
                        }
                    },
                }
            },
            Frame::Binary(b) => Gate::Close(
                CloseFrame {
                    code: CODE_UNSUPPORTED_DATA,
                    reason: String::from_str("binary data sent: only text is supported"),
                },
            ),
            Frame::Ping(x) => Gate::Ignore,
            Frame::Pong(x) => Gate::Ignore,
            Frame::Close => Gate::CloseSilent,
        }
    }

    /// Finishes an `Identify` with the outcome of the external credential
    /// check.  A resolved user registers the session and identifies the
    /// connection; a rejected token closes the connection and leaves the
    /// registry untouched, so a session identifying with an invalid token
    /// never appears in it.
    pub fn apply_identify(
        &mut self,
        registry: &mut Registry,
        auth: Option<u128>,
        intents: u64,
    ) -> (r: HandlerOutcome)
        requires
            old(self).wf(),
            old(self).phase is Unidentified,
            old(registry).wf(),
            !old(registry).has_session(old(self).conn_id),
        ensures
            final(self).wf(),
            final(registry).wf(),
            final(self).conn_id == old(self).conn_id,
            final(self).last_pong == old(self).last_pong,
            match auth {
                Option::Some(u) => final(self).phase is Identified
                    && final(self).user_id == Option::Some(u)
                    && final(self).intents == intents
                    && r is Continue
                    && final(registry).sessions_of(u) == old(registry).sessions_of(u).push(
                    old(self).conn_id,
                )
                    && (forall|v: u128| v != u ==> final(registry).sessions_of(v)
                        == old(registry).sessions_of(v))
                    && count_val(final(registry).sessions_of(u), old(self).conn_id) == 1,
                Option::None => final(self).phase is Closing
                    && *final(registry) == *old(registry)
                    && !final(registry).has_session(old(self).conn_id)
                    && (r matches HandlerOutcome::CloseWith(f)
                        && f.code == CODE_BAD_CREDENTIALS),
            },
    {
        match auth {
            Option::Some(u) => {
                let res = registry.register(u, self.conn_id);
                match res {
                    Result::Ok(unit) => {
                        self.phase = Phase::Identified;
                        self.user_id = Option::Some(u);
                        self.intents = intents;
                        HandlerOutcome::Continue
                    },
                    Result::Err(e) => {
                        // Unreachable: the session was required absent.
                        proof {
                            assert(false);
                        }
                        HandlerOutcome::SenderGone
                    },
                }
            },
            Option::None => {
                self.phase = Phase::Closing;
                HandlerOutcome::CloseWith(
                    CloseFrame {
                        code: CODE_BAD_CREDENTIALS,
                        reason: String::from_str("bad credentials"),
                    },
                )
            },
        }
    }

    /// Answers an application-level `Ping` with a `Pong` reply; the
    /// connection state does not change.
    pub fn apply_ping(&self) -> (r: HandlerOutcome)
        ensures
            r matches HandlerOutcome::SendAndContinue(e) && e is Pong,
    {
        HandlerOutcome::SendAndContinue(OutboundEvent::Pong)
    }

    /// Records an application-level `Pong` as the liveness acknowledgment
    /// used by idle-timeout bookkeeping; nothing else changes.
    pub fn apply_pong(&mut self, now: u64)
        ensures
            final(self).last_pong == now,
            final(self).conn_id == old(self).conn_id,
            final(self).phase == old(self).phase,
            final(self).user_id == old(self).user_id,
            final(self).intents == old(self).intents,
    {
        self.last_pong = now;
    }

    /// Enters the terminal phase; nothing leaves it.
    pub fn begin_close(&mut self)
        ensures
            final(self).phase is Closing,
            final(self).conn_id == old(self).conn_id,
            final(self).user_id == old(self).user_id,
            final(self).intents == old(self).intents,
            final(self).last_pong == old(self).last_pong,
    {
        self.phase = Phase::Closing;
    }
}

/// Checks the shared backends before serving a connection.  The first
/// missing backend decides the close code: the publish/subscribe channel,
/// then storage, then the registry; with all three present no close is
/// owed.
pub fn startup_close(pubsub_ready: bool, storage_ready: bool, registry_ready: bool) -> (r:
    Option<CloseFrame>)
    ensures
        !pubsub_ready ==> (r matches Option::Some(f) && f.code == CODE_PUBSUB_UNAVAILABLE),
        pubsub_ready && !storage_ready ==> (r matches Option::Some(f)
            && f.code == CODE_STORAGE_UNAVAILABLE),
        pubsub_ready && storage_ready && !registry_ready ==> (r matches Option::Some(f)
            && f.code == CODE_REGISTRY_UNAVAILABLE),
        pubsub_ready && storage_ready && registry_ready ==> r is None,
{
    if !pubsub_ready {
        Option::Some(
            CloseFrame {
                code: CODE_PUBSUB_UNAVAILABLE,
                reason: String::from_str("publish/subscribe backend not found"),
            },
        )
    } else if !storage_ready {
        Option::Some(
            CloseFrame {
                code: CODE_STORAGE_UNAVAILABLE,
                reason: String::from_str("storage backend not found"),
            },
        )
    } else if !registry_ready {
        Option::Some(
            CloseFrame {
                code: CODE_REGISTRY_UNAVAILABLE,
                reason: String::from_str("session registry not found"),
            },
        )
    } else {
        Option::None
    }
}

} // verus!
