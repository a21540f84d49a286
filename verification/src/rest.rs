//! Decision and assembly logic of the request-serving handlers.
//!
//! Each handler at the edge reads rows, calls one of these functions with
//! plain values, performs the storage work, and publishes the event this
//! module built.  Everything that decides — authorization, validation,
//! not-found mapping, snapshot and event assembly — is here and verified;
//! the queries and the HTTP plumbing stay at the edge.

use vstd::prelude::*;
use crate::errors::{ErrorJson, WebServerError};
use crate::types::{Channel, Guild, Invite, OutboundEvent, Publish, Role, User};

verus! {

/// The flag bit marking a bot account in a user's flags bitmask.
pub const USER_FLAG_BOT: u64 = 1;

/// Whether a flags bitmask marks a bot account.
pub fn user_is_bot(flags: u64) -> (r: bool)
    ensures
        r == (flags & USER_FLAG_BOT != 0),
{
    flags & USER_FLAG_BOT != 0
}

/// Authorizes deleting a guild: the guild must exist and the caller must
/// own it.
pub fn delete_guild(auth_user: u128, guild_id: u128, owner: Option<u128>) -> (r: Result<
    (),
    WebServerError,
>)
    ensures
        match owner {
            Option::None => (r matches Result::Err(WebServerError::Http(e)) && e.code == 404),
            Option::Some(o) => if o == auth_user {
                r is Ok
            } else {
                (r matches Result::Err(WebServerError::Http(e)) && e.code == 403 && e.message@
                    == "Forbidden"@)
            },
        },
{
    match owner {
        Option::None => Result::Err(
            WebServerError::unknown_entity("Unknown guild with ID ", guild_id),
        ),
        Option::Some(o) => {
            if o == auth_user {
                Result::Ok(())
            } else {
                Result::Err(
                    WebServerError::Http(ErrorJson::new_403(String::from_str("Forbidden"))),
                )
            }
        },
    }
}

/// The publication a deleted guild produces: the event carries the guild
/// snapshot and is addressed to the guild's members.
pub fn guild_delete_event(guild: Guild) -> (r: Publish)
    ensures
        r.event matches OutboundEvent::GuildDelete { guild: g } && g == guild,
        r.targets@ == guild.member_ids@,
{
    let targets = guild.member_ids.clone();
    proof {
        assert(targets@ =~= guild.member_ids@);
    }
    Publish { event: OutboundEvent::GuildDelete { guild }, targets }
}

/// Maps the role-deletion row to its outcome: the role must have existed
/// in that guild.
pub fn delete_role(role_found: bool, role_id: u128) -> (r: Result<(), WebServerError>)
    ensures
        role_found <==> r is Ok,
        !role_found ==> (r matches Result::Err(WebServerError::Http(e)) && e.code == 404),
{
    if role_found {
        Result::Ok(())
    } else {
        Result::Err(WebServerError::unknown_entity("Unknown role with ID ", role_id))
    }
}

/// The publication a deleted role produces, addressed to the guild's
/// members.
pub fn role_delete_event(role: Role, members: Vec<u128>) -> (r: Publish)
    ensures
        r.event matches OutboundEvent::RoleDelete { role: x } && x == role,
        r.targets == members,
{
    Publish { event: OutboundEvent::RoleDelete { role }, targets: members }
}

/// Creates an invite: the caller must be a member of the guild; a fresh
/// invite starts unused at the given creation time.  The publication is
/// addressed to the guild's members.
pub fn create_invite(
    is_member: bool,
    code: String,
    owner_id: u128,
    guild_id: u128,
    now: u64,
    max_uses: Option<u64>,
    max_age: Option<u64>,
    members: Vec<u128>,
) -> (r: Result<Publish, WebServerError>)
    ensures
        is_member <==> r is Ok,
        !is_member ==> (r matches Result::Err(WebServerError::Http(e)) && e.code == 403
            && e.message@ == "you are not a member of this guild"@),
        (r matches Result::Ok(p) ==> p.event matches OutboundEvent::InviteCreate { invite }
            && invite.code == code && invite.owner_id == owner_id && invite.guild_id == guild_id
            && invite.created_at == now && invite.uses == 0 && invite.max_uses == max_uses
            && invite.max_age == max_age && p.targets == members),
{
    if !is_member {
        return Result::Err(
            WebServerError::Http(
                ErrorJson::new_403(String::from_str("you are not a member of this guild")),
            ),
        );
    }
    let invite = Invite { code, owner_id, guild_id, created_at: now, uses: 0, max_uses, max_age };
    Result::Ok(Publish { event: OutboundEvent::InviteCreate { invite }, targets: members })
}

/// Maps an invite lookup to its outcome: found, or a 404 naming the code.
pub fn get_invite(found: Option<Invite>, code: u128) -> (r: Result<Invite, WebServerError>)
    ensures
        match found {
            Option::Some(v) => r matches Result::Ok(x) && x == v,
            Option::None => (r matches Result::Err(WebServerError::Http(e)) && e.code == 404),
        },
{
    match found {
        Option::Some(v) => Result::Ok(v),
        Option::None => Result::Err(
            WebServerError::unknown_entity("Unknown invite with code ", code),
        ),
    }
}

/// Maps a channel lookup to its outcome.
pub fn get_channel(found: Option<Channel>) -> (r: Result<Channel, WebServerError>)
    ensures
        match found {
            Option::Some(c) => r matches Result::Ok(x) && x == c,
            Option::None => (r matches Result::Err(WebServerError::Http(e)) && e.code == 404),
        },
{
    match found {
        Option::Some(c) => Result::Ok(c),
        Option::None => Result::Err(
            WebServerError::Http(ErrorJson::new_404(String::from_str("channel not found"))),
        ),
    }
}

/// Validates the history query: a missing or negative limit is a client
/// error, a missing or negative offset is read as zero, and the order
/// defaults to newest first.
pub fn get_message_history(limit: Option<i64>, offset: Option<i64>, oldest_first: Option<bool>) ->
    (r: Result<(i64, i64, bool), WebServerError>)
    ensures
        match limit {
            Option::None => (r matches Result::Err(WebServerError::Http(e)) && e.code == 400
                && e.message@ == "limit must be > 0"@),
            Option::Some(l) => if l < 0 {
                (r matches Result::Err(WebServerError::Http(e)) && e.code == 400 && e.message@
                    == "limit must be > 0"@)
            } else {
                (r matches Result::Ok(p) && p.0 == l && p.1 == (match offset {
                    Option::Some(o) => if o < 0 {
                        0
                    } else {
                        o
                    },
                    Option::None => 0,
                }) && p.2 == (oldest_first matches Option::Some(true)))
            },
        },
{
    let l: i64 = match limit {
        Option::Some(l) => {
            if l < 0 {
                return Result::Err(
                    WebServerError::Http(ErrorJson::new_400(String::from_str("limit must be > 0"))),
                );
            }
            l
        },
        Option::None => {
            return Result::Err(
                WebServerError::Http(ErrorJson::new_400(String::from_str("limit must be > 0"))),
            );
        },
    };
    let o: i64 = match offset {
        Option::Some(o) => if o < 0 {
            0
        } else {
            o
        },
        Option::None => 0,
    };
    let of: bool = match oldest_first {
        Option::Some(b) => b,
        Option::None => false,
    };
    Result::Ok((l, o, of))
}

/// Assembles a user snapshot from its row, deriving the bot mark from the
/// flags bitmask.
pub fn make_author(
    id: u128,
    name: String,
    avatar: Option<String>,
    discriminator: i16,
    flags: u64,
    pronouns: Option<i16>,
) -> (r: User)
    ensures
        r.id == id,
        r.name == name,
        r.avatar == avatar,
        r.discriminator == discriminator,
        r.flags == flags,
        r.pronouns == pronouns,
        r.is_bot == (flags & USER_FLAG_BOT != 0),
{
    let is_bot = user_is_bot(flags);
    User { id, name, avatar, discriminator, flags, pronouns, is_bot }
}

/// Authorizes deleting a bot: the bot must exist and the caller must own
/// it.
pub fn delete_bot(auth_user: u128, bot_id: u128, owner: Option<u128>) -> (r: Result<
    (),
    WebServerError,
>)
    ensures
        match owner {
            Option::None => (r matches Result::Err(WebServerError::Http(e)) && e.code == 404),
            Option::Some(o) => if o == auth_user {
                r is Ok
            } else {
                (r matches Result::Err(WebServerError::Http(e)) && e.code == 403 && e.message@
                    == "you are not the owner of this bot"@)
            },
        },
{
    match owner {
        Option::None => Result::Err(WebServerError::unknown_entity("Unknown bot with ID ", bot_id)),
        Option::Some(o) => {
            if o == auth_user {
                Result::Ok(())
            } else {
                Result::Err(
                    WebServerError::Http(
                        ErrorJson::new_403(String::from_str("you are not the owner of this bot")),
                    ),
                )
            }
        },
    }
}

/// The snapshot a freshly created user is reported as: no avatar, no
/// flags, not a bot.
pub fn create_user(user_id: u128, username: String) -> (r: User)
    ensures
        r.id == user_id,
        r.name == username,
        r.avatar is None,
        r.discriminator == 0,
        r.flags == 0,
        r.pronouns is None,
        !r.is_bot,
{
    User {
        id: user_id,
        name: username,
        avatar: Option::None,
        discriminator: 0,
        flags: 0,
        pronouns: Option::None,
        is_bot: false,
    }
}

/// Validates a guild update: the update must carry a new name.
pub fn edit_guild(name: Option<String>) -> (r: Result<String, WebServerError>)
    ensures
        match name {
            Option::Some(n) => r matches Result::Ok(x) && x == n,
            Option::None => (r matches Result::Err(WebServerError::Http(e)) && e.code == 400),
        },
{
    match name {
        Option::Some(n) => Result::Ok(n),
        Option::None => Result::Err(
            WebServerError::Http(ErrorJson::new_400(String::from_str("no fields to update"))),
        ),
    }
}


/// One user row as storage returns it.
pub struct UserRow {
    pub id: u128,
    pub name: String,
    pub avatar: Option<String>,
    pub discriminator: i16,
    pub flags: u64,
    pub pronouns: Option<i16>,
}

/// The snapshot a row assembles to.
pub open spec fn user_of_row(row: UserRow) -> User {
    User {
        id: row.id,
        name: row.name,
        avatar: row.avatar,
        discriminator: row.discriminator,
        flags: row.flags,
        pronouns: row.pronouns,
        is_bot: row.flags & USER_FLAG_BOT != 0,
    }
}

/// Assembles the bots a user owns from their rows, in row order.
pub fn get_bots_by_user(rows: Vec<UserRow>) -> (r: Vec<User>)
    ensures
        r@.len() == rows@.len(),
        forall|i: int| 0 <= i < rows@.len() ==> r@[i] == user_of_row(rows@[i]),
{
    let mut r: Vec<User> = Vec::new();
    let n = rows.len();
    let mut rows = rows;
    let mut i: usize = 0;
    let ghost rows0 = rows@;
    while i < n
        invariant
            i <= n,
            n == rows0.len(),
            rows@ == rows0.skip(i as int),
            r@.len() == i,
            forall|k: int| 0 <= k < i ==> r@[k] == user_of_row(rows0[k]),
        decreases n - i,
    {
        let row = rows.remove(0);
        proof {
            assert(rows0.skip(i as int)[0] == rows0[i as int]);
            assert(rows0.skip(i as int).skip(1) =~= rows0.skip(i + 1));
        }
        let user = make_author(
            row.id,
            row.name,
            row.avatar,
            row.discriminator,
            row.flags,
            row.pronouns,
        );
        r.push(user);
        i = i + 1;
    }
    r
}

} // verus!
