//! The wire codec end to end: parsing inbound frames, rendering outbound
//! events, and the fan-out frame round trip.

use chat_gateway::codec::{dec_u128, encode_outbound, encode_publish};
use chat_gateway::parse::{parse_inbound, parse_publish};
use chat_gateway::types::{Guild, InboundEvent, Invite, OutboundEvent, Publish, Role};

#[test]
fn parses_ping() {
    match parse_inbound("{\"event\":\"Ping\"}") {
        Some(InboundEvent::Ping) => {}
        _ => panic!("expected Ping"),
    }
}

#[test]
fn parses_pong() {
    match parse_inbound("{\"event\":\"Pong\"}") {
        Some(InboundEvent::Pong) => {}
        _ => panic!("expected Pong"),
    }
}

#[test]
fn parses_identify() {
    match parse_inbound("{\"event\":\"Identify\",\"token\":\"abc\",\"intents\":0}") {
        Some(InboundEvent::Identify { token, intents }) => {
            assert_eq!(token, "abc");
            assert_eq!(intents, 0);
        }
        _ => panic!("expected Identify"),
    }
}

#[test]
fn parses_identify_empty_token_and_big_intents() {
    match parse_inbound("{\"event\":\"Identify\",\"token\":\"\",\"intents\":18446744073709551615}") {
        Some(InboundEvent::Identify { token, intents }) => {
            assert_eq!(token, "");
            assert_eq!(intents, u64::MAX);
        }
        _ => panic!("expected Identify"),
    }
}

#[test]
fn rejects_intents_beyond_range() {
    assert!(parse_inbound("{\"event\":\"Identify\",\"token\":\"t\",\"intents\":18446744073709551616}").is_none());
}

#[test]
fn rejects_leading_zero_intents() {
    assert!(parse_inbound("{\"event\":\"Identify\",\"token\":\"t\",\"intents\":01}").is_none());
}

#[test]
fn rejects_malformed_payloads() {
    assert!(parse_inbound("").is_none());
    assert!(parse_inbound("hello").is_none());
    assert!(parse_inbound("{\"event\":\"Hug\"}").is_none());
    assert!(parse_inbound("{\"event\":\"Ping\"} ").is_none());
    assert!(parse_inbound("{\"event\":\"Identify\",\"token\":\"t\"}").is_none());
    assert!(parse_inbound("{\"event\":\"Identify\",\"token\":\"t\",\"intents\":}").is_none());
    assert!(parse_inbound("{\"intents\":0,\"token\":\"t\",\"event\":\"Identify\"}").is_none());
}

#[test]
fn renders_pong() {
    let s = encode_outbound(&OutboundEvent::Pong);
    assert_eq!(s, "{\"event\":\"Pong\"}");
}

#[test]
fn renders_role_delete() {
    let role = Role { id: 42, guild_id: 7, name: String::from("admin"), color: None, position: 1 };
    let s = encode_outbound(&OutboundEvent::RoleDelete { role });
    assert_eq!(
        s,
        "{\"event\":\"RoleDelete\",\"data\":{\"id\":42,\"guild_id\":7,\"name\":\"admin\",\"color\":null,\"position\":1}}"
    );
}

#[test]
fn renders_guild_delete_with_members() {
    let guild = Guild {
        id: 7,
        owner_id: 500,
        name: String::from("general"),
        member_ids: vec![500, 501],
    };
    let s = encode_outbound(&OutboundEvent::GuildDelete { guild });
    assert_eq!(
        s,
        "{\"event\":\"GuildDelete\",\"data\":{\"id\":7,\"owner_id\":500,\"name\":\"general\",\"members\":[500,501]}}"
    );
}

#[test]
fn renders_invite_create_with_null_options() {
    let invite = Invite {
        code: String::from("AbCdEfGhIj"),
        owner_id: 3,
        guild_id: 7,
        created_at: 1700000000,
        uses: 0,
        max_uses: None,
        max_age: Some(3600),
    };
    let s = encode_outbound(&OutboundEvent::InviteCreate { invite });
    assert_eq!(
        s,
        "{\"event\":\"InviteCreate\",\"data\":{\"code\":\"AbCdEfGhIj\",\"owner_id\":3,\"guild_id\":7,\"created_at\":1700000000,\"uses\":0,\"max_uses\":null,\"max_age\":3600}}"
    );
}

#[test]
fn escapes_names() {
    let guild = Guild {
        id: 1,
        owner_id: 2,
        name: String::from("a\"b\\c\nd"),
        member_ids: vec![],
    };
    let s = encode_outbound(&OutboundEvent::GuildDelete { guild });
    assert_eq!(
        s,
        "{\"event\":\"GuildDelete\",\"data\":{\"id\":1,\"owner_id\":2,\"name\":\"a\\\"b\\\\c\\u000ad\",\"members\":[]}}"
    );
}

#[test]
fn decimal_rendering() {
    assert_eq!(dec_u128(0), "0");
    assert_eq!(dec_u128(10), "10");
    assert_eq!(dec_u128(u128::MAX), "340282366920938463463374607431768211455");
}

#[test]
fn publish_frame_round_trip() {
    let p = Publish { event: OutboundEvent::Pong, targets: vec![1, 2, 3] };
    let s = encode_publish(&p);
    assert_eq!(s, "[1,2,3]{\"event\":\"Pong\"}");
    let frame = parse_publish(&s).expect("frame must parse");
    assert_eq!(frame.targets, vec![1, 2, 3]);
    assert_eq!(frame.payload, "{\"event\":\"Pong\"}");
}

#[test]
fn publish_frame_round_trip_no_targets() {
    let p = Publish { event: OutboundEvent::Pong, targets: vec![] };
    let s = encode_publish(&p);
    assert_eq!(s, "[]{\"event\":\"Pong\"}");
    let frame = parse_publish(&s).expect("frame must parse");
    assert!(frame.targets.is_empty());
    assert_eq!(frame.payload, "{\"event\":\"Pong\"}");
}

#[test]
fn rejects_malformed_publish_frames() {
    assert!(parse_publish("").is_none());
    assert!(parse_publish("1,2]x").is_none());
    assert!(parse_publish("[1,2x").is_none());
    assert!(parse_publish("[1,,2]x").is_none());
    assert!(parse_publish("[01]x").is_none());
}
