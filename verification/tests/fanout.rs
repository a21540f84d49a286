//! The fan-out bridge, the request-tier decisions, and the full gateway
//! scenario.

use chat_gateway::bridge::{publish_frame, route};
use chat_gateway::codec::encode_outbound;
use chat_gateway::errors::{ErrorJson, WebServerError};
use chat_gateway::parse::parse_publish;
use chat_gateway::registry::Registry;
use chat_gateway::rest;
use chat_gateway::rx::{Conn, Frame, Gate, HandlerOutcome};
use chat_gateway::txq::TxQueue;
use chat_gateway::types::{Guild, InboundEvent, OutboundEvent, Publish, Role};

#[test]
fn delivery_to_both_sessions_of_a_user_on_two_nodes() {
    // User 500 has one session on each node; user 600 has one on node one.
    let mut node_one = Registry::new();
    let mut node_two = Registry::new();
    node_one.register(500, 11).unwrap();
    node_one.register(600, 12).unwrap();
    node_two.register(500, 21).unwrap();

    let p = Publish { event: OutboundEvent::Pong, targets: vec![500] };
    let frame = publish_frame(&p);
    let parsed_one = parse_publish(&frame).unwrap();
    let parsed_two = parse_publish(&frame).unwrap();

    let r1 = route(&node_one, &parsed_one.targets);
    let r2 = route(&node_two, &parsed_two.targets);
    assert_eq!(r1, vec![11]);
    assert_eq!(r2, vec![21]);
}

#[test]
fn publish_without_sessions_delivers_nothing_and_does_not_fail() {
    let node = Registry::new();
    let p = Publish { event: OutboundEvent::Pong, targets: vec![500] };
    let frame = publish_frame(&p);
    let parsed = parse_publish(&frame).unwrap();
    let r = route(&node, &parsed.targets);
    assert!(r.is_empty());
}

#[test]
fn gateway_scenario_end_to_end() {
    // A client connects, identifies, pings, and a role deletion reaches
    // every session of every member of the guild.
    let mut registry = Registry::new();
    let mut conn = Conn::new(9);
    let mut queue = TxQueue::new(16);

    let gate = conn.gate_frame(&Frame::Text(String::from(
        "{\"event\":\"Identify\",\"token\":\"abc\",\"intents\":0}",
    )));
    let (token, intents) = match gate {
        Gate::Dispatch(InboundEvent::Identify { token, intents }) => (token, intents),
        _ => panic!("expected a dispatched Identify"),
    };
    assert_eq!(token, "abc");
    // The credential check is external; the token resolves to user 500.
    let outcome = conn.apply_identify(&mut registry, Some(500), intents);
    assert!(matches!(outcome, HandlerOutcome::Continue));
    assert_eq!(registry.lookup(500), vec![9]);

    let gate = conn.gate_frame(&Frame::Text(String::from("{\"event\":\"Ping\"}")));
    assert!(matches!(gate, Gate::Dispatch(InboundEvent::Ping)));
    match conn.apply_ping() {
        HandlerOutcome::SendAndContinue(reply) => {
            queue.enqueue(encode_outbound(&reply)).unwrap();
        }
        _ => panic!("expected a reply"),
    }
    assert_eq!(queue.dequeue().unwrap(), "{\"event\":\"Pong\"}");

    // The request tier deletes role 42 of guild 7 whose members are 500
    // and 501, and publishes.
    let role = Role { id: 42, guild_id: 7, name: String::from("admin"), color: None, position: 0 };
    let publish = rest::role_delete_event(role, vec![500, 501]);
    let frame = publish_frame(&publish);
    let parsed = parse_publish(&frame).unwrap();
    let recipients = route(&registry, &parsed.targets);
    assert_eq!(recipients, vec![9]);
    queue.enqueue(parsed.payload).unwrap();
    let delivered = queue.dequeue().unwrap();
    assert!(delivered.starts_with("{\"event\":\"RoleDelete\",\"data\":{\"id\":42,"));
}

#[test]
fn mixed_sources_keep_per_session_order() {
    // A local reply enqueued before a bridge delivery is written first.
    let mut queue = TxQueue::new(4);
    queue.enqueue(encode_outbound(&OutboundEvent::Pong)).unwrap();
    let role = Role { id: 1, guild_id: 2, name: String::from("r"), color: None, position: 0 };
    let p = Publish { event: OutboundEvent::RoleDelete { role }, targets: vec![500] };
    let parsed = parse_publish(&publish_frame(&p)).unwrap();
    queue.enqueue(parsed.payload).unwrap();
    assert_eq!(queue.dequeue().unwrap(), "{\"event\":\"Pong\"}");
    assert!(queue.dequeue().unwrap().starts_with("{\"event\":\"RoleDelete\""));
    assert!(queue.dequeue().is_none());
}

#[test]
fn duplicate_key_maps_to_conflict() {
    let e = WebServerError::Database { sqlstate: Some(23505), detail: String::from("dup") };
    let body = e.into_response();
    assert_eq!(body.code, 409);
    assert_eq!(body.message, "This object is a duplicate.");
    assert!(!body.is_bug);
}

#[test]
fn other_database_errors_map_to_500() {
    let e = WebServerError::Database { sqlstate: None, detail: String::from("timeout") };
    let body = e.into_response();
    assert_eq!(body.code, 500);
    assert_eq!(body.message, "Database returned an error: timeout");
}

#[test]
fn http_errors_pass_through() {
    let e = WebServerError::from(ErrorJson::new_404(String::from("nope")));
    let body = e.into_response();
    assert_eq!(body.code, 404);
    assert_eq!(body.message, "nope");
}

#[test]
fn backend_bug_conditions_are_flagged() {
    assert!(WebServerError::MissingNodeId.into_response().is_bug);
    assert!(WebServerError::MissingVerifier.into_response().is_bug);
    assert!(WebServerError::RandomGenerationFailure.into_response().is_bug);
    assert!(!WebServerError::MissingHasher.into_response().is_bug);
    assert_eq!(WebServerError::MissingRedis.into_response().message, "Redis pool missing");
    assert_eq!(
        WebServerError::MissingDatabase.into_response().message,
        "Database pool was not found"
    );
}

#[test]
fn delete_guild_authorization() {
    assert!(rest::delete_guild(500, 7, Some(500)).is_ok());
    match rest::delete_guild(501, 7, Some(500)) {
        Err(WebServerError::Http(e)) => {
            assert_eq!(e.code, 403);
            assert_eq!(e.message, "Forbidden");
        }
        _ => panic!("expected 403"),
    }
    match rest::delete_guild(500, 7, None) {
        Err(WebServerError::Http(e)) => {
            assert_eq!(e.code, 404);
            assert_eq!(e.message, "Unknown guild with ID 7");
        }
        _ => panic!("expected 404"),
    }
}

#[test]
fn guild_delete_event_targets_members() {
    let guild = Guild {
        id: 7,
        owner_id: 500,
        name: String::from("g"),
        member_ids: vec![500, 501],
    };
    let p = rest::guild_delete_event(guild);
    assert_eq!(p.targets, vec![500, 501]);
    assert!(matches!(p.event, OutboundEvent::GuildDelete { .. }));
}

#[test]
fn delete_role_not_found() {
    assert!(rest::delete_role(true, 42).is_ok());
    match rest::delete_role(false, 42) {
        Err(WebServerError::Http(e)) => {
            assert_eq!(e.code, 404);
            assert_eq!(e.message, "Unknown role with ID 42");
        }
        _ => panic!("expected 404"),
    }
}

#[test]
fn create_invite_requires_membership() {
    match rest::create_invite(false, String::from("c"), 3, 7, 0, None, None, vec![]) {
        Err(WebServerError::Http(e)) => {
            assert_eq!(e.code, 403);
            assert_eq!(e.message, "you are not a member of this guild");
        }
        _ => panic!("expected 403"),
    }
    let p = rest::create_invite(true, String::from("c"), 3, 7, 99, Some(5), None, vec![3, 4])
        .unwrap();
    match p.event {
        OutboundEvent::InviteCreate { invite } => {
            assert_eq!(invite.uses, 0);
            assert_eq!(invite.created_at, 99);
            assert_eq!(invite.max_uses, Some(5));
        }
        _ => panic!("expected an invite event"),
    }
}

#[test]
fn get_invite_not_found_names_the_code() {
    match rest::get_invite(None, 12345) {
        Err(WebServerError::Http(e)) => {
            assert_eq!(e.code, 404);
            assert_eq!(e.message, "Unknown invite with code 12345");
        }
        _ => panic!("expected 404"),
    }
}

#[test]
fn history_params_validation() {
    match rest::get_message_history(None, None, None) {
        Err(WebServerError::Http(e)) => {
            assert_eq!(e.code, 400);
            assert_eq!(e.message, "limit must be > 0");
        }
        _ => panic!("expected 400"),
    }
    assert!(rest::get_message_history(Some(-1), None, None).is_err());
    let (limit, offset, oldest_first) =
        rest::get_message_history(Some(50), Some(-3), None).unwrap();
    assert_eq!(limit, 50);
    assert_eq!(offset, 0);
    assert!(!oldest_first);
    let (_, offset, oldest_first) =
        rest::get_message_history(Some(50), Some(20), Some(true)).unwrap();
    assert_eq!(offset, 20);
    assert!(oldest_first);
}

#[test]
fn bot_flag_and_author_assembly() {
    assert!(rest::user_is_bot(1));
    assert!(!rest::user_is_bot(2));
    let u = rest::make_author(5, String::from("bot"), None, 7, 1, None);
    assert!(u.is_bot);
    let u = rest::make_author(5, String::from("human"), None, 7, 0, Some(3));
    assert!(!u.is_bot);
    assert_eq!(u.pronouns, Some(3));
}

#[test]
fn delete_bot_authorization() {
    assert!(rest::delete_bot(500, 9, Some(500)).is_ok());
    match rest::delete_bot(501, 9, Some(500)) {
        Err(WebServerError::Http(e)) => {
            assert_eq!(e.code, 403);
            assert_eq!(e.message, "you are not the owner of this bot");
        }
        _ => panic!("expected 403"),
    }
    match rest::delete_bot(500, 9, None) {
        Err(WebServerError::Http(e)) => assert_eq!(e.code, 404),
        _ => panic!("expected 404"),
    }
}

#[test]
fn create_user_and_edit_guild() {
    let u = rest::create_user(77, String::from("alice"));
    assert_eq!(u.id, 77);
    assert_eq!(u.flags, 0);
    assert!(!u.is_bot);
    assert_eq!(rest::edit_guild(Some(String::from("new"))).unwrap(), "new");
    match rest::edit_guild(None) {
        Err(WebServerError::Http(e)) => assert_eq!(e.code, 400),
        _ => panic!("expected 400"),
    }
}

#[test]
fn backend_detail_messages() {
    let e = WebServerError::Json { detail: String::from("eof") };
    assert_eq!(e.into_response().message, "JSON (de)serialization failed: eof");
    let e = WebServerError::Redis { detail: String::from("down") };
    assert_eq!(e.into_response().message, "Redis returned an error: down");
    let e = WebServerError::RedisPool { detail: String::from("empty") };
    assert_eq!(e.into_response().message, "Redis pool returned an error: empty");
}

#[test]
fn bots_are_assembled_in_row_order() {
    let rows = vec![
        rest::UserRow {
            id: 1,
            name: String::from("a"),
            avatar: None,
            discriminator: 1,
            flags: 1,
            pronouns: None,
        },
        rest::UserRow {
            id: 2,
            name: String::from("b"),
            avatar: None,
            discriminator: 2,
            flags: 0,
            pronouns: Some(4),
        },
    ];
    let bots = rest::get_bots_by_user(rows);
    assert_eq!(bots.len(), 2);
    assert_eq!(bots[0].id, 1);
    assert!(bots[0].is_bot);
    assert_eq!(bots[1].id, 2);
    assert!(!bots[1].is_bot);
    assert_eq!(bots[1].pronouns, Some(4));
}

#[test]
fn intents_mask_comparison() {
    assert!(chat_gateway::bridge::intents_allow(0b111, 0b101));
    assert!(chat_gateway::bridge::intents_allow(0b101, 0));
    assert!(!chat_gateway::bridge::intents_allow(0b001, 0b101));
}

#[test]
fn get_channel_not_found() {
    match rest::get_channel(None) {
        Err(WebServerError::Http(e)) => assert_eq!(e.code, 404),
        _ => panic!("expected 404"),
    }
    let c = rest::get_channel(Some(chat_gateway::types::Channel {
        id: 4,
        name: String::from("general"),
    }))
    .unwrap();
    assert_eq!(c.id, 4);
}
