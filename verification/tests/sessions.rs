//! The connection state machine, the session registry, the transmit
//! queue, and idle-timeout enforcement.

use chat_gateway::close::{
    CODE_BAD_CREDENTIALS, CODE_IDLE_TIMEOUT, CODE_INVALID_PAYLOAD, CODE_NOT_IDENTIFIED,
    CODE_PUBSUB_UNAVAILABLE, CODE_REGISTRY_UNAVAILABLE, CODE_STORAGE_UNAVAILABLE,
    CODE_UNSUPPORTED_DATA,
};
use chat_gateway::registry::{Registry, RegistryError};
use chat_gateway::rx::{startup_close, Conn, Frame, Gate, HandlerOutcome};
use chat_gateway::txq::{idle_check, TxError, TxQueue};
use chat_gateway::types::{InboundEvent, OutboundEvent};

#[test]
fn ping_before_identify_closes_2004() {
    let conn = Conn::new(9);
    let gate = conn.gate_frame(&Frame::Text(String::from("{\"event\":\"Ping\"}")));
    match gate {
        Gate::Close(f) => assert_eq!(f.code, CODE_NOT_IDENTIFIED),
        _ => panic!("expected a close"),
    }
}

#[test]
fn pong_before_identify_closes_2004() {
    let conn = Conn::new(9);
    let gate = conn.gate_frame(&Frame::Text(String::from("{\"event\":\"Pong\"}")));
    match gate {
        Gate::Close(f) => assert_eq!(f.code, CODE_NOT_IDENTIFIED),
        _ => panic!("expected a close"),
    }
}

#[test]
fn binary_frame_rejected_in_any_phase() {
    let mut conn = Conn::new(9);
    match conn.gate_frame(&Frame::Binary(vec![1, 2, 3])) {
        Gate::Close(f) => assert_eq!(f.code, CODE_UNSUPPORTED_DATA),
        _ => panic!("expected a close"),
    }
    let mut registry = Registry::new();
    let outcome = conn.apply_identify(&mut registry, Some(500), 0);
    assert!(matches!(outcome, HandlerOutcome::Continue));
    match conn.gate_frame(&Frame::Binary(vec![])) {
        Gate::Close(f) => assert_eq!(f.code, CODE_UNSUPPORTED_DATA),
        _ => panic!("expected a close"),
    }
}

#[test]
fn invalid_payload_closes_2001() {
    let conn = Conn::new(9);
    let gate = conn.gate_frame(&Frame::Text(String::from("not json")));
    match gate {
        Gate::Close(f) => assert_eq!(f.code, CODE_INVALID_PAYLOAD),
        _ => panic!("expected a close"),
    }
}

#[test]
fn transport_keepalive_is_ignored() {
    let conn = Conn::new(9);
    assert!(matches!(conn.gate_frame(&Frame::Ping(vec![])), Gate::Ignore));
    assert!(matches!(conn.gate_frame(&Frame::Pong(vec![])), Gate::Ignore));
    assert!(matches!(conn.gate_frame(&Frame::Close), Gate::CloseSilent));
}

#[test]
fn bad_credentials_never_reach_the_registry() {
    let mut conn = Conn::new(9);
    let mut registry = Registry::new();
    let outcome = conn.apply_identify(&mut registry, None, 0);
    match outcome {
        HandlerOutcome::CloseWith(f) => assert_eq!(f.code, CODE_BAD_CREDENTIALS),
        _ => panic!("expected a close"),
    }
    assert!(!registry.contains_session(9));
    assert!(registry.lookup(500).is_empty());
}

#[test]
fn identify_registers_exactly_once() {
    let mut conn = Conn::new(9);
    let mut registry = Registry::new();
    let outcome = conn.apply_identify(&mut registry, Some(500), 4);
    assert!(matches!(outcome, HandlerOutcome::Continue));
    assert_eq!(registry.lookup(500), vec![9]);
    assert!(registry.contains_session(9));
}

#[test]
fn lookup_after_disconnect_is_empty() {
    let mut registry = Registry::new();
    registry.register(500, 9).unwrap();
    registry.register(500, 10).unwrap();
    registry.unregister(9);
    assert_eq!(registry.lookup(500), vec![10]);
    registry.unregister(9);
    assert_eq!(registry.lookup(500), vec![10]);
    registry.unregister(10);
    assert!(registry.lookup(500).is_empty());
}

#[test]
fn double_registration_is_rejected() {
    let mut registry = Registry::new();
    registry.register(500, 9).unwrap();
    match registry.register(501, 9) {
        Err(RegistryError::AlreadyIdentified) => {}
        _ => panic!("expected AlreadyIdentified"),
    }
    assert_eq!(registry.lookup(500), vec![9]);
    assert!(registry.lookup(501).is_empty());
}

#[test]
fn ping_yields_pong_reply() {
    let mut conn = Conn::new(9);
    let mut registry = Registry::new();
    conn.apply_identify(&mut registry, Some(500), 0);
    let gate = conn.gate_frame(&Frame::Text(String::from("{\"event\":\"Ping\"}")));
    match gate {
        Gate::Dispatch(InboundEvent::Ping) => {}
        _ => panic!("expected a dispatched Ping"),
    }
    match conn.apply_ping() {
        HandlerOutcome::SendAndContinue(OutboundEvent::Pong) => {}
        _ => panic!("expected a Pong reply"),
    }
}

#[test]
fn pong_updates_liveness() {
    let mut conn = Conn::new(9);
    conn.apply_pong(123);
    assert_eq!(conn.last_pong, 123);
}

#[test]
fn closing_is_terminal() {
    let mut conn = Conn::new(9);
    conn.begin_close();
    assert!(matches!(conn.phase, chat_gateway::rx::Phase::Closing));
}

#[test]
fn queue_preserves_order() {
    let mut q = TxQueue::new(8);
    q.enqueue(String::from("e1")).unwrap();
    q.enqueue(String::from("e2")).unwrap();
    q.enqueue(String::from("e3")).unwrap();
    assert_eq!(q.dequeue().unwrap(), "e1");
    assert_eq!(q.dequeue().unwrap(), "e2");
    assert_eq!(q.dequeue().unwrap(), "e3");
    assert!(q.dequeue().is_none());
}

#[test]
fn full_queue_rejects_without_buffering() {
    let mut q = TxQueue::new(2);
    q.enqueue(String::from("e1")).unwrap();
    q.enqueue(String::from("e2")).unwrap();
    match q.enqueue(String::from("e3")) {
        Err(TxError::QueueFull) => {}
        _ => panic!("expected QueueFull"),
    }
    assert_eq!(q.len(), 2);
    assert_eq!(q.dequeue().unwrap(), "e1");
}

#[test]
fn idle_timeout_closes_with_5005() {
    match idle_check(100, 50, 161, 60) {
        Some(f) => assert_eq!(f.code, CODE_IDLE_TIMEOUT),
        None => panic!("expected a timeout"),
    }
    assert!(idle_check(100, 50, 160, 60).is_none());
    assert!(idle_check(100, 120, 1000, 60).is_none());
    assert!(idle_check(0, 0, 1000, 60).is_none());
}

#[test]
fn startup_close_codes() {
    assert_eq!(startup_close(false, true, true).unwrap().code, CODE_PUBSUB_UNAVAILABLE);
    assert_eq!(startup_close(true, false, true).unwrap().code, CODE_STORAGE_UNAVAILABLE);
    assert_eq!(startup_close(true, true, false).unwrap().code, CODE_REGISTRY_UNAVAILABLE);
    assert_eq!(startup_close(false, false, false).unwrap().code, CODE_PUBSUB_UNAVAILABLE);
    assert!(startup_close(true, true, true).is_none());
}

#[test]
fn close_codes_are_partitioned_by_fault() {
    let client = chat_gateway::close::CloseFrame {
        code: CODE_NOT_IDENTIFIED,
        reason: String::from("x"),
    };
    assert!(client.client_fault());
    assert!(!client.server_fault());
    let server = chat_gateway::close::CloseFrame {
        code: CODE_STORAGE_UNAVAILABLE,
        reason: String::from("x"),
    };
    assert!(server.server_fault());
    assert!(!server.client_fault());
    let body = chat_gateway::errors::ErrorJson::new_400(String::from("x"));
    assert_eq!(body.get_code(), 400);
}
