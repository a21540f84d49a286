//! Wire codec: rendering of outbound events and of fan-out frames.
//!
//! Every outbound event shares one envelope, `{"event": <tag>, "data":
//! <payload>}`; `Pong` carries no data member.  The fan-out bridge carries a
//! compact frame on the inter-node channel: the target user list in square
//! brackets, followed verbatim by the serialized client payload.  The spec
//! functions here define both encodings character by character; the
//! executable encoders are proved to produce exactly those characters.

use vstd::prelude::*;
use crate::types::{Guild, Invite, OutboundEvent, Publish, Role};

verus! {

/// The character for one decimal digit.
pub open spec fn digit_char(d: nat) -> char {
    if d == 0 { '0' }
    else if d == 1 { '1' }
    else if d == 2 { '2' }
    else if d == 3 { '3' }
    else if d == 4 { '4' }
    else if d == 5 { '5' }
    else if d == 6 { '6' }
    else if d == 7 { '7' }
    else if d == 8 { '8' }
    else { '9' }
}

/// The canonical decimal rendering of a natural number: no sign, no
/// leading zeros, at least one digit.
pub open spec fn dec_chars(n: nat) -> Seq<char>
    decreases n,
{
    if n < 10 {
        seq![digit_char(n)]
    } else {
        dec_chars(n / 10).push(digit_char(n % 10))
    }
}

/// The character for one lowercase hexadecimal digit.
pub open spec fn hex_char(d: nat) -> char {
    if d == 0 { '0' }
    else if d == 1 { '1' }
    else if d == 2 { '2' }
    else if d == 3 { '3' }
    else if d == 4 { '4' }
    else if d == 5 { '5' }
    else if d == 6 { '6' }
    else if d == 7 { '7' }
    else if d == 8 { '8' }
    else if d == 9 { '9' }
    else if d == 10 { 'a' }
    else if d == 11 { 'b' }
    else if d == 12 { 'c' }
    else if d == 13 { 'd' }
    else if d == 14 { 'e' }
    else { 'f' }
}

/// The escape of one character inside a JSON string: quote and backslash
/// get a backslash escape, control characters a `\u00XX` escape, and every
/// other character stands for itself.
pub open spec fn esc_char(c: char) -> Seq<char> {
    if c == '"' {
        seq!['\\', '"']
    } else if c == '\\' {
        seq!['\\', '\\']
    } else if (c as u32) < 32 {
        seq!['\\', 'u', '0', '0', hex_char((c as u32 / 16) as nat), hex_char((c as u32 % 16) as nat)]
    } else {
        seq![c]
    }
}

/// The escape of a whole character sequence.
pub open spec fn esc(s: Seq<char>) -> Seq<char>
    decreases s.len(),
{
    if s.len() == 0 {
        Seq::empty()
    } else {
        esc(s.drop_last()) + esc_char(s.last())
    }
}

/// A JSON string: the escaped characters between double quotes.
pub open spec fn json_string(s: Seq<char>) -> Seq<char> {
    seq!['"'] + esc(s) + seq!['"']
}

/// A JSON value that is either `null` or a decimal number.
pub open spec fn opt_dec(v: Option<u64>) -> Seq<char> {
    match v {
        Option::None => "null"@,
        Option::Some(n) => dec_chars(n as nat),
    }
}

/// Same for the 32-bit colors.
pub open spec fn opt_dec32(v: Option<u32>) -> Seq<char> {
    match v {
        Option::None => "null"@,
        Option::Some(n) => dec_chars(n as nat),
    }
}

/// The identifier list from position `i` on: decimal numbers separated by
/// commas.
pub open spec fn ids_from(ids: Seq<u128>, i: int) -> Seq<char>
    decreases ids.len() - i,
{
    if i < 0 || i >= ids.len() {
        Seq::empty()
    } else if i == ids.len() - 1 {
        dec_chars(ids[i] as nat)
    } else {
        dec_chars(ids[i] as nat) + ","@ + ids_from(ids, i + 1)
    }
}

/// A JSON array of identifiers.
pub open spec fn render_ids(ids: Seq<u128>) -> Seq<char> {
    "["@ + ids_from(ids, 0) + "]"@
}

/// The guild snapshot as a JSON object.
pub open spec fn render_guild(g: Guild) -> Seq<char> {
    "{\"id\":"@ + dec_chars(g.id as nat)
        + ",\"owner_id\":"@ + dec_chars(g.owner_id as nat)
        + ",\"name\":"@ + json_string(g.name@)
        + ",\"members\":"@ + render_ids(g.member_ids@)
        + "}"@
}

/// The role snapshot as a JSON object.
pub open spec fn render_role(r: Role) -> Seq<char> {
    "{\"id\":"@ + dec_chars(r.id as nat)
        + ",\"guild_id\":"@ + dec_chars(r.guild_id as nat)
        + ",\"name\":"@ + json_string(r.name@)
        + ",\"color\":"@ + opt_dec32(r.color)
        + ",\"position\":"@ + dec_chars(r.position as nat)
        + "}"@
}

/// The invite snapshot as a JSON object.
pub open spec fn render_invite(v: Invite) -> Seq<char> {
    "{\"code\":"@ + json_string(v.code@)
        + ",\"owner_id\":"@ + dec_chars(v.owner_id as nat)
        + ",\"guild_id\":"@ + dec_chars(v.guild_id as nat)
        + ",\"created_at\":"@ + dec_chars(v.created_at as nat)
        + ",\"uses\":"@ + dec_chars(v.uses as nat)
        + ",\"max_uses\":"@ + opt_dec(v.max_uses)
        + ",\"max_age\":"@ + opt_dec(v.max_age)
        + "}"@
}

/// The full wire text of one outbound event.
pub open spec fn render_outbound(e: OutboundEvent) -> Seq<char> {
    match e {
        OutboundEvent::Pong => "{\"event\":\"Pong\"}"@,
        OutboundEvent::GuildDelete { guild } => {
            "{\"event\":\"GuildDelete\",\"data\":"@ + render_guild(guild) + "}"@
        },
        OutboundEvent::RoleDelete { role } => {
            "{\"event\":\"RoleDelete\",\"data\":"@ + render_role(role) + "}"@
        },
        OutboundEvent::InviteCreate { invite } => {
            "{\"event\":\"InviteCreate\",\"data\":"@ + render_invite(invite) + "}"@
        },
    }
}

/// The inter-node fan-out frame: the target list, then the client payload
/// verbatim.
pub open spec fn render_publish(p: Publish) -> Seq<char> {
    render_ids(p.targets@) + render_outbound(p.event)
}

/// One decimal digit as a string slice.
fn digit_str(d: u8) -> (s: &'static str)
    requires
        d < 10,
    ensures
        s@ == seq![digit_char(d as nat)],
{
    proof {
        reveal_strlit("0");
        reveal_strlit("1");
        reveal_strlit("2");
        reveal_strlit("3");
        reveal_strlit("4");
        reveal_strlit("5");
        reveal_strlit("6");
        reveal_strlit("7");
        reveal_strlit("8");
        reveal_strlit("9");
    }
    if d == 0 { "0" }
    else if d == 1 { "1" }
    else if d == 2 { "2" }
    else if d == 3 { "3" }
    else if d == 4 { "4" }
    else if d == 5 { "5" }
    else if d == 6 { "6" }
    else if d == 7 { "7" }
    else if d == 8 { "8" }
    else { "9" }
}

/// One lowercase hexadecimal digit as a string slice.
fn hex_str(d: u8) -> (s: &'static str)
    requires
        d < 16,
    ensures
        s@ == seq![hex_char(d as nat)],
{
    proof {
        reveal_strlit("a");
        reveal_strlit("b");
        reveal_strlit("c");
        reveal_strlit("d");
        reveal_strlit("e");
        reveal_strlit("f");
    }
    if d < 10 { digit_str(d) }
    else if d == 10 { "a" }
    else if d == 11 { "b" }
    else if d == 12 { "c" }
    else if d == 13 { "d" }
    else if d == 14 { "e" }
    else { "f" }
}

/// The canonical decimal rendering of an identifier-sized number.
pub fn dec_u128(n: u128) -> (s: String)
    ensures
        s@ == dec_chars(n as nat),
    decreases n,
{
    if n < 10 {
        String::from_str(digit_str(n as u8))
    } else {
        let mut s = dec_u128(n / 10);
        s.append(digit_str((n % 10) as u8));
        s
    }
}

/// Appends the escaped form of `piece` to `out`.
fn append_escaped(out: &mut String, piece: &str)
    ensures
        final(out)@ == old(out)@ + esc(piece@),
{
    let n = piece.unicode_len();
    let mut i: usize = 0;
    while i < n
        invariant
            i <= n,
            n == piece@.len(),
            out@ == old(out)@ + esc(piece@.take(i as int)),
        decreases n - i,
    {
        let c = piece.get_char(i);
        proof {
            assert(piece@.take(i + 1 as int).drop_last() =~= piece@.take(i as int));
            assert(piece@.take(i + 1 as int).last() == piece@[i as int]);
        }
        if c == '"' {
            out.append("\\\"");
            proof {
                reveal_strlit("\\\"");
                assert("\\\""@ =~= esc_char(c));
            }
        } else if c == '\\' {
            out.append("\\\\");
            proof {
                reveal_strlit("\\\\");
                assert("\\\\"@ =~= esc_char(c));
            }
        } else if (c as u32) < 32 {
            let code: u32 = c as u32;
            out.append("\\u00");
            out.append(hex_str((code / 16) as u8));
            out.append(hex_str((code % 16) as u8));
            proof {
                reveal_strlit("\\u00");
                assert("\\u00"@ + seq![hex_char((code / 16) as nat)] + seq![hex_char((code % 16) as nat)]
                    =~= esc_char(c));
            }
        } else {
            out.append(piece.substring_char(i, i + 1));
            proof {
                assert(piece@.subrange(i as int, i + 1 as int) =~= seq![c]);
                assert(seq![c] =~= esc_char(c));
            }
        }
        i = i + 1;
    }
    proof {
        assert(piece@.take(n as int) =~= piece@);
    }
}

/// Appends a whole JSON string, quotes and escaping included.
fn append_json_string(out: &mut String, piece: &str)
    ensures
        final(out)@ == old(out)@ + json_string(piece@),
{
    out.append("\"");
    append_escaped(out, piece);
    out.append("\"");
    proof {
        reveal_strlit("\"");
        assert("\""@ =~= seq!['"']);
        assert(old(out)@ + "\""@ + esc(piece@) + "\""@ =~= old(out)@ + json_string(piece@));
    }
}

/// Appends `null` or the decimal number.
fn append_opt_dec(out: &mut String, v: &Option<u64>)
    ensures
        final(out)@ == old(out)@ + opt_dec(*v),
{
    match v {
        Option::None => {
            out.append("null");
        },
        Option::Some(n) => {
            let s = dec_u128(*n as u128);
            out.append(s.as_str());
        },
    }
}

/// Appends `null` or the decimal number.
fn append_opt_dec32(out: &mut String, v: &Option<u32>)
    ensures
        final(out)@ == old(out)@ + opt_dec32(*v),
{
    match v {
        Option::None => {
            out.append("null");
        },
        Option::Some(n) => {
            let s = dec_u128(*n as u128);
            out.append(s.as_str());
        },
    }
}

/// Appends the identifier list without its brackets.
fn append_ids_from(out: &mut String, ids: &Vec<u128>, i: usize)
    requires
        i <= ids@.len(),
    ensures
        final(out)@ == old(out)@ + ids_from(ids@, i as int),
    decreases ids@.len() - i,
{
    if i < ids.len() {
        let s = dec_u128(ids[i]);
        out.append(s.as_str());
        if i + 1 < ids.len() {
            out.append(",");
            append_ids_from(out, ids, i + 1);
        }
    }
}

/// Appends the identifier array, brackets included.
fn append_ids(out: &mut String, ids: &Vec<u128>)
    ensures
        final(out)@ == old(out)@ + render_ids(ids@),
{
    out.append("[");
    append_ids_from(out, ids, 0);
    out.append("]");
}

/// Serializes one outbound event to its wire text.
pub fn encode_outbound(e: &OutboundEvent) -> (s: String)
    ensures
        s@ == render_outbound(*e),
{
    let mut out = String::new();
    match e {
        OutboundEvent::Pong => {
            out.append("{\"event\":\"Pong\"}");
        },
        OutboundEvent::GuildDelete { guild } => {
            out.append("{\"event\":\"GuildDelete\",\"data\":");
            append_guild(&mut out, guild);
            out.append("}");
        },
        OutboundEvent::RoleDelete { role } => {
            out.append("{\"event\":\"RoleDelete\",\"data\":");
            append_role(&mut out, role);
            out.append("}");
        },
        OutboundEvent::InviteCreate { invite } => {
            out.append("{\"event\":\"InviteCreate\",\"data\":");
            append_invite(&mut out, invite);
            out.append("}");
        },
    }
    out
}

/// Appends the guild snapshot object.
fn append_guild(out: &mut String, g: &Guild)
    ensures
        final(out)@ == old(out)@ + render_guild(*g),
{
    out.append("{\"id\":");
    let s1 = dec_u128(g.id);
    out.append(s1.as_str());
    out.append(",\"owner_id\":");
    let s2 = dec_u128(g.owner_id);
    out.append(s2.as_str());
    out.append(",\"name\":");
    append_json_string(out, g.name.as_str());
    out.append(",\"members\":");
    append_ids(out, &g.member_ids);
    out.append("}");
}

/// Appends the role snapshot object.
fn append_role(out: &mut String, r: &Role)
    ensures
        final(out)@ == old(out)@ + render_role(*r),
{
    out.append("{\"id\":");
    let s1 = dec_u128(r.id);
    out.append(s1.as_str());
    out.append(",\"guild_id\":");
    let s2 = dec_u128(r.guild_id);
    out.append(s2.as_str());
    out.append(",\"name\":");
    append_json_string(out, r.name.as_str());
    out.append(",\"color\":");
    append_opt_dec32(out, &r.color);
    out.append(",\"position\":");
    let s3 = dec_u128(r.position as u128);
    out.append(s3.as_str());
    out.append("}");
}

/// Appends the invite snapshot object.
fn append_invite(out: &mut String, v: &Invite)
    ensures
        final(out)@ == old(out)@ + render_invite(*v),
{
    out.append("{\"code\":");
    append_json_string(out, v.code.as_str());
    out.append(",\"owner_id\":");
    let s1 = dec_u128(v.owner_id);
    out.append(s1.as_str());
    out.append(",\"guild_id\":");
    let s2 = dec_u128(v.guild_id);
    out.append(s2.as_str());
    out.append(",\"created_at\":");
    let s3 = dec_u128(v.created_at as u128);
    out.append(s3.as_str());
    out.append(",\"uses\":");
    let s4 = dec_u128(v.uses as u128);
    out.append(s4.as_str());
    out.append(",\"max_uses\":");
    append_opt_dec(out, &v.max_uses);
    out.append(",\"max_age\":");
    append_opt_dec(out, &v.max_age);
    out.append("}");
}

/// Serializes one fan-out frame: targets, then the client payload.
pub fn encode_publish(p: &Publish) -> (s: String)
    ensures
        s@ == render_publish(*p),
{
    let mut out = String::new();
    append_ids(&mut out, &p.targets);
    let payload = encode_outbound(&p.event);
    let r = out.concat(payload.as_str());
    r
}

} // verus!
