//! Capability flags and sets of them.

use vstd::prelude::*;
use crate::diff::{Diff, DiffModel};
use crate::error::{Error, ErrorModel};
use crate::lookup::{
    first_index, lemma_first_index, lemma_try_map_fails, lemma_try_map_take, try_map,
};
use crate::text::{decimal, decimal_digits, digits_value, is_number, parse_decimal, same_text};

verus! {

/// A named capability that a role may hold, or that an overwrite allows or denies.
#[allow(non_camel_case_types)]
#[derive(Clone, Copy, Debug, PartialEq, Eq, Structural)]
pub enum Permission {
    CREATE_INSTANT_INVITE,
    KICK_MEMBERS,
    BAN_MEMBERS,
    ADMINISTRATOR,
    MANAGE_CHANNELS,
    MANAGE_GUILD,
    ADD_REACTIONS,
    VIEW_AUDIT_LOG,
    PRIORITY_SPEAKER,
    STREAM,
    VIEW_CHANNEL,
    SEND_MESSAGES,
    SEND_TTS_MESSAGES,
    MANAGE_MESSAGES,
    EMBED_LINKS,
    ATTACH_FILES,
    READ_MESSAGE_HISTORY,
    MENTION_EVERYONE,
    USE_EXTERNAL_EMOJIS,
    VIEW_GUILD_INSIGHTS,
    CONNECT,
    SPEAK,
    MUTE_MEMBERS,
    DEAFEN_MEMBERS,
    MOVE_MEMBERS,
    USE_VAD,
    CHANGE_NICKNAME,
    MANAGE_NICKNAMES,
    MANAGE_ROLES,
    MANAGE_WEBHOOKS,
    MANAGE_EMOJIS_AND_STICKERS,
    USE_APPLICATION_COMMANDS,
    REQUEST_TO_SPEAK,
    MANAGE_EVENTS,
    MANAGE_THREADS,
    CREATE_PUBLIC_THREADS,
    CREATE_PRIVATE_THREADS,
    USE_EXTERNAL_STICKERS,
    SEND_MESSAGES_IN_THREADS,
    USE_EMBEDDED_ACTIVITIES,
    MODERATE_MEMBERS,
}

/// How many capability flags there are.
pub const PERMISSIONS: usize = 41;

impl Permission {
    /// The position of the flag among all flags, which is also the position of its bit
    /// in a permission code.
    pub open spec fn spec_index(self) -> nat {
        match self {
            Permission::CREATE_INSTANT_INVITE => 0,
            Permission::KICK_MEMBERS => 1,
            Permission::BAN_MEMBERS => 2,
            Permission::ADMINISTRATOR => 3,
            Permission::MANAGE_CHANNELS => 4,
            Permission::MANAGE_GUILD => 5,
            Permission::ADD_REACTIONS => 6,
            Permission::VIEW_AUDIT_LOG => 7,
            Permission::PRIORITY_SPEAKER => 8,
            Permission::STREAM => 9,
            Permission::VIEW_CHANNEL => 10,
            Permission::SEND_MESSAGES => 11,
            Permission::SEND_TTS_MESSAGES => 12,
            Permission::MANAGE_MESSAGES => 13,
            Permission::EMBED_LINKS => 14,
            Permission::ATTACH_FILES => 15,
            Permission::READ_MESSAGE_HISTORY => 16,
            Permission::MENTION_EVERYONE => 17,
            Permission::USE_EXTERNAL_EMOJIS => 18,
            Permission::VIEW_GUILD_INSIGHTS => 19,
            Permission::CONNECT => 20,
            Permission::SPEAK => 21,
            Permission::MUTE_MEMBERS => 22,
            Permission::DEAFEN_MEMBERS => 23,
            Permission::MOVE_MEMBERS => 24,
            Permission::USE_VAD => 25,
            Permission::CHANGE_NICKNAME => 26,
            Permission::MANAGE_NICKNAMES => 27,
            Permission::MANAGE_ROLES => 28,
            Permission::MANAGE_WEBHOOKS => 29,
            Permission::MANAGE_EMOJIS_AND_STICKERS => 30,
            Permission::USE_APPLICATION_COMMANDS => 31,
            Permission::REQUEST_TO_SPEAK => 32,
            Permission::MANAGE_EVENTS => 33,
            Permission::MANAGE_THREADS => 34,
            Permission::CREATE_PUBLIC_THREADS => 35,
            Permission::CREATE_PRIVATE_THREADS => 36,
            Permission::USE_EXTERNAL_STICKERS => 37,
            Permission::SEND_MESSAGES_IN_THREADS => 38,
            Permission::USE_EMBEDDED_ACTIVITIES => 39,
            Permission::MODERATE_MEMBERS => 40,
        }
    }

    /// The flag at a position; positions past the last flag give the last flag.
    pub open spec fn spec_at(index: int) -> Permission {
        if index == 0 {
            Permission::CREATE_INSTANT_INVITE
        } else if index == 1 {
            Permission::KICK_MEMBERS
        } else if index == 2 {
            Permission::BAN_MEMBERS
        } else if index == 3 {
            Permission::ADMINISTRATOR
        } else if index == 4 {
            Permission::MANAGE_CHANNELS
        } else if index == 5 {
            Permission::MANAGE_GUILD
        } else if index == 6 {
            Permission::ADD_REACTIONS
        } else if index == 7 {
            Permission::VIEW_AUDIT_LOG
        } else if index == 8 {
            Permission::PRIORITY_SPEAKER
        } else if index == 9 {
            Permission::STREAM
        } else if index == 10 {
            Permission::VIEW_CHANNEL
        } else if index == 11 {
            Permission::SEND_MESSAGES
        } else if index == 12 {
            Permission::SEND_TTS_MESSAGES
        } else if index == 13 {
            Permission::MANAGE_MESSAGES
        } else if index == 14 {
            Permission::EMBED_LINKS
        } else if index == 15 {
            Permission::ATTACH_FILES
        } else if index == 16 {
            Permission::READ_MESSAGE_HISTORY
        } else if index == 17 {
            Permission::MENTION_EVERYONE
        } else if index == 18 {
            Permission::USE_EXTERNAL_EMOJIS
        } else if index == 19 {
            Permission::VIEW_GUILD_INSIGHTS
        } else if index == 20 {
            Permission::CONNECT
        } else if index == 21 {
            Permission::SPEAK
        } else if index == 22 {
            Permission::MUTE_MEMBERS
        } else if index == 23 {
            Permission::DEAFEN_MEMBERS
        } else if index == 24 {
            Permission::MOVE_MEMBERS
        } else if index == 25 {
            Permission::USE_VAD
        } else if index == 26 {
            Permission::CHANGE_NICKNAME
        } else if index == 27 {
            Permission::MANAGE_NICKNAMES
        } else if index == 28 {
            Permission::MANAGE_ROLES
        } else if index == 29 {
            Permission::MANAGE_WEBHOOKS
        } else if index == 30 {
            Permission::MANAGE_EMOJIS_AND_STICKERS
        } else if index == 31 {
            Permission::USE_APPLICATION_COMMANDS
        } else if index == 32 {
            Permission::REQUEST_TO_SPEAK
        } else if index == 33 {
            Permission::MANAGE_EVENTS
        } else if index == 34 {
            Permission::MANAGE_THREADS
        } else if index == 35 {
            Permission::CREATE_PUBLIC_THREADS
        } else if index == 36 {
            Permission::CREATE_PRIVATE_THREADS
        } else if index == 37 {
            Permission::USE_EXTERNAL_STICKERS
        } else if index == 38 {
            Permission::SEND_MESSAGES_IN_THREADS
        } else if index == 39 {
            Permission::USE_EMBEDDED_ACTIVITIES
        } else {
            Permission::MODERATE_MEMBERS
        }
    }

    /// The name under which the flag is written.
    pub open spec fn spec_name(self) -> Seq<char> {
        match self {
            Permission::CREATE_INSTANT_INVITE => "CREATE_INSTANT_INVITE"@,
            Permission::KICK_MEMBERS => "KICK_MEMBERS"@,
            Permission::BAN_MEMBERS => "BAN_MEMBERS"@,
            Permission::ADMINISTRATOR => "ADMINISTRATOR"@,
            Permission::MANAGE_CHANNELS => "MANAGE_CHANNELS"@,
            Permission::MANAGE_GUILD => "MANAGE_GUILD"@,
            Permission::ADD_REACTIONS => "ADD_REACTIONS"@,
            Permission::VIEW_AUDIT_LOG => "VIEW_AUDIT_LOG"@,
            Permission::PRIORITY_SPEAKER => "PRIORITY_SPEAKER"@,
            Permission::STREAM => "STREAM"@,
            Permission::VIEW_CHANNEL => "VIEW_CHANNEL"@,
            Permission::SEND_MESSAGES => "SEND_MESSAGES"@,
            Permission::SEND_TTS_MESSAGES => "SEND_TTS_MESSAGES"@,
            Permission::MANAGE_MESSAGES => "MANAGE_MESSAGES"@,
            Permission::EMBED_LINKS => "EMBED_LINKS"@,
            Permission::ATTACH_FILES => "ATTACH_FILES"@,
            Permission::READ_MESSAGE_HISTORY => "READ_MESSAGE_HISTORY"@,
            Permission::MENTION_EVERYONE => "MENTION_EVERYONE"@,
            Permission::USE_EXTERNAL_EMOJIS => "USE_EXTERNAL_EMOJIS"@,
            Permission::VIEW_GUILD_INSIGHTS => "VIEW_GUILD_INSIGHTS"@,
            Permission::CONNECT => "CONNECT"@,
            Permission::SPEAK => "SPEAK"@,
            Permission::MUTE_MEMBERS => "MUTE_MEMBERS"@,
            Permission::DEAFEN_MEMBERS => "DEAFEN_MEMBERS"@,
            Permission::MOVE_MEMBERS => "MOVE_MEMBERS"@,
            Permission::USE_VAD => "USE_VAD"@,
            Permission::CHANGE_NICKNAME => "CHANGE_NICKNAME"@,
            Permission::MANAGE_NICKNAMES => "MANAGE_NICKNAMES"@,
            Permission::MANAGE_ROLES => "MANAGE_ROLES"@,
            Permission::MANAGE_WEBHOOKS => "MANAGE_WEBHOOKS"@,
            Permission::MANAGE_EMOJIS_AND_STICKERS => "MANAGE_EMOJIS_AND_STICKERS"@,
            Permission::USE_APPLICATION_COMMANDS => "USE_APPLICATION_COMMANDS"@,
            Permission::REQUEST_TO_SPEAK => "REQUEST_TO_SPEAK"@,
            Permission::MANAGE_EVENTS => "MANAGE_EVENTS"@,
            Permission::MANAGE_THREADS => "MANAGE_THREADS"@,
            Permission::CREATE_PUBLIC_THREADS => "CREATE_PUBLIC_THREADS"@,
            Permission::CREATE_PRIVATE_THREADS => "CREATE_PRIVATE_THREADS"@,
            Permission::USE_EXTERNAL_STICKERS => "USE_EXTERNAL_STICKERS"@,
            Permission::SEND_MESSAGES_IN_THREADS => "SEND_MESSAGES_IN_THREADS"@,
            Permission::USE_EMBEDDED_ACTIVITIES => "USE_EMBEDDED_ACTIVITIES"@,
            Permission::MODERATE_MEMBERS => "MODERATE_MEMBERS"@,
        }
    }

    /// The weight of the flag in a permission code: two to the power of its position.
    pub open spec fn spec_flag(self) -> nat {
        match self {
            Permission::CREATE_INSTANT_INVITE => 1,
            Permission::KICK_MEMBERS => 2,
            Permission::BAN_MEMBERS => 4,
            Permission::ADMINISTRATOR => 8,
            Permission::MANAGE_CHANNELS => 16,
            Permission::MANAGE_GUILD => 32,
            Permission::ADD_REACTIONS => 64,
            Permission::VIEW_AUDIT_LOG => 128,
            Permission::PRIORITY_SPEAKER => 256,
            Permission::STREAM => 512,
            Permission::VIEW_CHANNEL => 1024,
            Permission::SEND_MESSAGES => 2048,
            Permission::SEND_TTS_MESSAGES => 4096,
            Permission::MANAGE_MESSAGES => 8192,
            Permission::EMBED_LINKS => 16384,
            Permission::ATTACH_FILES => 32768,
            Permission::READ_MESSAGE_HISTORY => 65536,
            Permission::MENTION_EVERYONE => 131072,
            Permission::USE_EXTERNAL_EMOJIS => 262144,
            Permission::VIEW_GUILD_INSIGHTS => 524288,
            Permission::CONNECT => 1048576,
            Permission::SPEAK => 2097152,
            Permission::MUTE_MEMBERS => 4194304,
            Permission::DEAFEN_MEMBERS => 8388608,
            Permission::MOVE_MEMBERS => 16777216,
            Permission::USE_VAD => 33554432,
            Permission::CHANGE_NICKNAME => 67108864,
            Permission::MANAGE_NICKNAMES => 134217728,
            Permission::MANAGE_ROLES => 268435456,
            Permission::MANAGE_WEBHOOKS => 536870912,
            Permission::MANAGE_EMOJIS_AND_STICKERS => 1073741824,
            Permission::USE_APPLICATION_COMMANDS => 2147483648,
            Permission::REQUEST_TO_SPEAK => 4294967296,
            Permission::MANAGE_EVENTS => 8589934592,
            Permission::MANAGE_THREADS => 17179869184,
            Permission::CREATE_PUBLIC_THREADS => 34359738368,
            Permission::CREATE_PRIVATE_THREADS => 68719476736,
            Permission::USE_EXTERNAL_STICKERS => 137438953472,
            Permission::SEND_MESSAGES_IN_THREADS => 274877906944,
            Permission::USE_EMBEDDED_ACTIVITIES => 549755813888,
            Permission::MODERATE_MEMBERS => 1099511627776,
        }
    }

    /// Computes [`Permission::spec_index`].
    pub fn index(self) -> (index: usize)
        ensures
            index == self.spec_index(),
            index < PERMISSIONS,
            Permission::spec_at(index as int) == self,
    {
        match self {
            Permission::CREATE_INSTANT_INVITE => 0,
            Permission::KICK_MEMBERS => 1,
            Permission::BAN_MEMBERS => 2,
            Permission::ADMINISTRATOR => 3,
            Permission::MANAGE_CHANNELS => 4,
            Permission::MANAGE_GUILD => 5,
            Permission::ADD_REACTIONS => 6,
            Permission::VIEW_AUDIT_LOG => 7,
            Permission::PRIORITY_SPEAKER => 8,
            Permission::STREAM => 9,
            Permission::VIEW_CHANNEL => 10,
            Permission::SEND_MESSAGES => 11,
            Permission::SEND_TTS_MESSAGES => 12,
            Permission::MANAGE_MESSAGES => 13,
            Permission::EMBED_LINKS => 14,
            Permission::ATTACH_FILES => 15,
            Permission::READ_MESSAGE_HISTORY => 16,
            Permission::MENTION_EVERYONE => 17,
            Permission::USE_EXTERNAL_EMOJIS => 18,
            Permission::VIEW_GUILD_INSIGHTS => 19,
            Permission::CONNECT => 20,
            Permission::SPEAK => 21,
            Permission::MUTE_MEMBERS => 22,
            Permission::DEAFEN_MEMBERS => 23,
            Permission::MOVE_MEMBERS => 24,
            Permission::USE_VAD => 25,
            Permission::CHANGE_NICKNAME => 26,
            Permission::MANAGE_NICKNAMES => 27,
            Permission::MANAGE_ROLES => 28,
            Permission::MANAGE_WEBHOOKS => 29,
            Permission::MANAGE_EMOJIS_AND_STICKERS => 30,
            Permission::USE_APPLICATION_COMMANDS => 31,
            Permission::REQUEST_TO_SPEAK => 32,
            Permission::MANAGE_EVENTS => 33,
            Permission::MANAGE_THREADS => 34,
            Permission::CREATE_PUBLIC_THREADS => 35,
            Permission::CREATE_PRIVATE_THREADS => 36,
            Permission::USE_EXTERNAL_STICKERS => 37,
            Permission::SEND_MESSAGES_IN_THREADS => 38,
            Permission::USE_EMBEDDED_ACTIVITIES => 39,
            Permission::MODERATE_MEMBERS => 40,
        }
    }

    /// Computes [`Permission::spec_at`].
    pub fn at(index: usize) -> (permission: Permission)
        requires
            index < PERMISSIONS,
        ensures
            permission == Permission::spec_at(index as int),
            permission.spec_index() == index,
    {
        if index == 0 {
            Permission::CREATE_INSTANT_INVITE
        } else if index == 1 {
            Permission::KICK_MEMBERS
        } else if index == 2 {
            Permission::BAN_MEMBERS
        } else if index == 3 {
            Permission::ADMINISTRATOR
        } else if index == 4 {
            Permission::MANAGE_CHANNELS
        } else if index == 5 {
            Permission::MANAGE_GUILD
        } else if index == 6 {
            Permission::ADD_REACTIONS
        } else if index == 7 {
            Permission::VIEW_AUDIT_LOG
        } else if index == 8 {
            Permission::PRIORITY_SPEAKER
        } else if index == 9 {
            Permission::STREAM
        } else if index == 10 {
            Permission::VIEW_CHANNEL
        } else if index == 11 {
            Permission::SEND_MESSAGES
        } else if index == 12 {
            Permission::SEND_TTS_MESSAGES
        } else if index == 13 {
            Permission::MANAGE_MESSAGES
        } else if index == 14 {
            Permission::EMBED_LINKS
        } else if index == 15 {
            Permission::ATTACH_FILES
        } else if index == 16 {
            Permission::READ_MESSAGE_HISTORY
        } else if index == 17 {
            Permission::MENTION_EVERYONE
        } else if index == 18 {
            Permission::USE_EXTERNAL_EMOJIS
        } else if index == 19 {
            Permission::VIEW_GUILD_INSIGHTS
        } else if index == 20 {
            Permission::CONNECT
        } else if index == 21 {
            Permission::SPEAK
        } else if index == 22 {
            Permission::MUTE_MEMBERS
        } else if index == 23 {
            Permission::DEAFEN_MEMBERS
        } else if index == 24 {
            Permission::MOVE_MEMBERS
        } else if index == 25 {
            Permission::USE_VAD
        } else if index == 26 {
            Permission::CHANGE_NICKNAME
        } else if index == 27 {
            Permission::MANAGE_NICKNAMES
        } else if index == 28 {
            Permission::MANAGE_ROLES
        } else if index == 29 {
            Permission::MANAGE_WEBHOOKS
        } else if index == 30 {
            Permission::MANAGE_EMOJIS_AND_STICKERS
        } else if index == 31 {
            Permission::USE_APPLICATION_COMMANDS
        } else if index == 32 {
            Permission::REQUEST_TO_SPEAK
        } else if index == 33 {
            Permission::MANAGE_EVENTS
        } else if index == 34 {
            Permission::MANAGE_THREADS
        } else if index == 35 {
            Permission::CREATE_PUBLIC_THREADS
        } else if index == 36 {
            Permission::CREATE_PRIVATE_THREADS
        } else if index == 37 {
            Permission::USE_EXTERNAL_STICKERS
        } else if index == 38 {
            Permission::SEND_MESSAGES_IN_THREADS
        } else if index == 39 {
            Permission::USE_EMBEDDED_ACTIVITIES
        } else {
            Permission::MODERATE_MEMBERS
        }
    }

    /// Computes [`Permission::spec_name`].
    pub fn name(self) -> (name: &'static str)
        ensures
            name@ == self.spec_name(),
    {
        match self {
            Permission::CREATE_INSTANT_INVITE => "CREATE_INSTANT_INVITE",
            Permission::KICK_MEMBERS => "KICK_MEMBERS",
            Permission::BAN_MEMBERS => "BAN_MEMBERS",
            Permission::ADMINISTRATOR => "ADMINISTRATOR",
            Permission::MANAGE_CHANNELS => "MANAGE_CHANNELS",
            Permission::MANAGE_GUILD => "MANAGE_GUILD",
            Permission::ADD_REACTIONS => "ADD_REACTIONS",
            Permission::VIEW_AUDIT_LOG => "VIEW_AUDIT_LOG",
            Permission::PRIORITY_SPEAKER => "PRIORITY_SPEAKER",
            Permission::STREAM => "STREAM",
            Permission::VIEW_CHANNEL => "VIEW_CHANNEL",
            Permission::SEND_MESSAGES => "SEND_MESSAGES",
            Permission::SEND_TTS_MESSAGES => "SEND_TTS_MESSAGES",
            Permission::MANAGE_MESSAGES => "MANAGE_MESSAGES",
            Permission::EMBED_LINKS => "EMBED_LINKS",
            Permission::ATTACH_FILES => "ATTACH_FILES",
            Permission::READ_MESSAGE_HISTORY => "READ_MESSAGE_HISTORY",
            Permission::MENTION_EVERYONE => "MENTION_EVERYONE",
            Permission::USE_EXTERNAL_EMOJIS => "USE_EXTERNAL_EMOJIS",
            Permission::VIEW_GUILD_INSIGHTS => "VIEW_GUILD_INSIGHTS",
            Permission::CONNECT => "CONNECT",
            Permission::SPEAK => "SPEAK",
            Permission::MUTE_MEMBERS => "MUTE_MEMBERS",
            Permission::DEAFEN_MEMBERS => "DEAFEN_MEMBERS",
            Permission::MOVE_MEMBERS => "MOVE_MEMBERS",
            Permission::USE_VAD => "USE_VAD",
            Permission::CHANGE_NICKNAME => "CHANGE_NICKNAME",
            Permission::MANAGE_NICKNAMES => "MANAGE_NICKNAMES",
            Permission::MANAGE_ROLES => "MANAGE_ROLES",
            Permission::MANAGE_WEBHOOKS => "MANAGE_WEBHOOKS",
            Permission::MANAGE_EMOJIS_AND_STICKERS => "MANAGE_EMOJIS_AND_STICKERS",
            Permission::USE_APPLICATION_COMMANDS => "USE_APPLICATION_COMMANDS",
            Permission::REQUEST_TO_SPEAK => "REQUEST_TO_SPEAK",
            Permission::MANAGE_EVENTS => "MANAGE_EVENTS",
            Permission::MANAGE_THREADS => "MANAGE_THREADS",
            Permission::CREATE_PUBLIC_THREADS => "CREATE_PUBLIC_THREADS",
            Permission::CREATE_PRIVATE_THREADS => "CREATE_PRIVATE_THREADS",
            Permission::USE_EXTERNAL_STICKERS => "USE_EXTERNAL_STICKERS",
            Permission::SEND_MESSAGES_IN_THREADS => "SEND_MESSAGES_IN_THREADS",
            Permission::USE_EMBEDDED_ACTIVITIES => "USE_EMBEDDED_ACTIVITIES",
            Permission::MODERATE_MEMBERS => "MODERATE_MEMBERS",
        }
    }

    /// Computes [`Permission::spec_flag`].
    pub fn flag(self) -> (flag: u64)
        ensures
            flag == self.spec_flag(),
    {
        match self {
            Permission::CREATE_INSTANT_INVITE => 1,
            Permission::KICK_MEMBERS => 2,
            Permission::BAN_MEMBERS => 4,
            Permission::ADMINISTRATOR => 8,
            Permission::MANAGE_CHANNELS => 16,
            Permission::MANAGE_GUILD => 32,
            Permission::ADD_REACTIONS => 64,
            Permission::VIEW_AUDIT_LOG => 128,
            Permission::PRIORITY_SPEAKER => 256,
            Permission::STREAM => 512,
            Permission::VIEW_CHANNEL => 1024,
            Permission::SEND_MESSAGES => 2048,
            Permission::SEND_TTS_MESSAGES => 4096,
            Permission::MANAGE_MESSAGES => 8192,
            Permission::EMBED_LINKS => 16384,
            Permission::ATTACH_FILES => 32768,
            Permission::READ_MESSAGE_HISTORY => 65536,
            Permission::MENTION_EVERYONE => 131072,
            Permission::USE_EXTERNAL_EMOJIS => 262144,
            Permission::VIEW_GUILD_INSIGHTS => 524288,
            Permission::CONNECT => 1048576,
            Permission::SPEAK => 2097152,
            Permission::MUTE_MEMBERS => 4194304,
            Permission::DEAFEN_MEMBERS => 8388608,
            Permission::MOVE_MEMBERS => 16777216,
            Permission::USE_VAD => 33554432,
            Permission::CHANGE_NICKNAME => 67108864,
            Permission::MANAGE_NICKNAMES => 134217728,
            Permission::MANAGE_ROLES => 268435456,
            Permission::MANAGE_WEBHOOKS => 536870912,
            Permission::MANAGE_EMOJIS_AND_STICKERS => 1073741824,
            Permission::USE_APPLICATION_COMMANDS => 2147483648,
            Permission::REQUEST_TO_SPEAK => 4294967296,
            Permission::MANAGE_EVENTS => 8589934592,
            Permission::MANAGE_THREADS => 17179869184,
            Permission::CREATE_PUBLIC_THREADS => 34359738368,
            Permission::CREATE_PRIVATE_THREADS => 68719476736,
            Permission::USE_EXTERNAL_STICKERS => 137438953472,
            Permission::SEND_MESSAGES_IN_THREADS => 274877906944,
            Permission::USE_EMBEDDED_ACTIVITIES => 549755813888,
            Permission::MODERATE_MEMBERS => 1099511627776,
        }
    }

    /// The name of the flag, as an owned text.
    pub fn to_string(&self) -> (name: String)
        ensures
            name@ == self.spec_name(),
    {
        self.name().to_owned()
    }

    /// Reads a flag from its name: computes [`named_permission`]. A text that names
    /// no flag is refused.
    pub fn from_str(name: &str) -> (parsed: Result<Permission, Error>)
        ensures
            match named_permission(name@) {
                Ok(permission) => parsed == Ok::<Permission, Error>(permission),
                Err(error) => parsed matches Err(e) && e@ == error,
            },
            parsed matches Ok(permission) ==> permission.spec_name() == name@,
            parsed is Err ==> forall|permission: Permission| permission.spec_name() != name@,
    {
        let ghost names = all_names();
        let mut i: usize = 0;
        while i < PERMISSIONS
            invariant
                names == all_names(),
                i <= PERMISSIONS,
                forall|j: int| 0 <= j < i ==> names[j] != name@,
            decreases PERMISSIONS - i,
        {
            let permission = Permission::at(i);
            proof {
                assert(names[i as int] == Permission::spec_at(i as int).spec_name());
            }
            if same_text(permission.name(), name) {
                proof {
                    assert(names[i as int] == permission.spec_name());
                    lemma_first_index(names, name@);
                }
                return Ok(permission);
            }
            i += 1;
        }
        proof {
            lemma_first_index(names, name@);
            assert forall|permission: Permission| permission.spec_name() != name@ by {
                lemma_position(permission);
                assert(names[permission.spec_index() as int] == permission.spec_name());
            }
        }
        Err(Error::UnknownPermission(name.to_owned()))
    }
}

/// The names of all flags, in the order of their positions.
pub open spec fn all_names() -> Seq<Seq<char>> {
    Seq::new(PERMISSIONS as nat, |i: int| Permission::spec_at(i).spec_name())
}

/// The flag that a name names: the first flag, in the order of the positions, that is
/// written so. A text that names no flag is a failure.
pub open spec fn named_permission(name: Seq<char>) -> Result<Permission, ErrorModel> {
    match first_index(all_names(), name) {
        Some(i) => Ok(Permission::spec_at(i)),
        None => Err(ErrorModel::UnknownPermission(name)),
    }
}

/// Every flag sits at its own position, and positions stay below the number of flags.
pub proof fn lemma_position(permission: Permission)
    ensures
        permission.spec_index() < PERMISSIONS,
        Permission::spec_at(permission.spec_index() as int) == permission,
{
}

/// Each flag weighs twice as much as the flag before it, and the first weighs one.
pub proof fn lemma_flag_doubles(index: int)
    requires
        0 <= index < PERMISSIONS,
    ensures
        index == 0 ==> Permission::spec_at(index).spec_flag() == 1,
        index > 0 ==> Permission::spec_at(index).spec_flag() == 2 * Permission::spec_at(
            index - 1,
        ).spec_flag(),
        Permission::spec_at(index).spec_flag() <= 1099511627776,
{
}

/// A set of capability flags, kept in the order in which they were given.
///
/// Two lists stand for the same set when each flag is in both or in neither; the
/// order and repetitions never matter when lists are compared.
#[derive(Debug, PartialEq)]
pub struct PermissionsList {
    pub items: Vec<Permission>,
}

impl View for PermissionsList {
    type V = Seq<Permission>;

    open spec fn view(&self) -> Seq<Permission> {
        self.items@
    }
}

impl DeepView for PermissionsList {
    type V = Seq<Permission>;

    open spec fn deep_view(&self) -> Seq<Permission> {
        self@
    }
}

impl Clone for PermissionsList {
    fn clone(&self) -> (copy: Self)
        ensures
            copy@ == self@,
    {
        PermissionsList { items: self.items.clone() }
    }
}

impl From<Vec<Permission>> for PermissionsList {
    fn from(items: Vec<Permission>) -> (list: PermissionsList) {
        PermissionsList { items }
    }
}

impl vstd::std_specs::convert::FromSpecImpl<Vec<Permission>> for PermissionsList {
    open spec fn obeys_from_spec() -> bool {
        true
    }

    open spec fn from_spec(items: Vec<Permission>) -> PermissionsList {
        PermissionsList { items }
    }
}

/// The names of a sequence of flags, in the same order.
pub open spec fn names_of(permissions: Seq<Permission>) -> Seq<Seq<char>> {
    permissions.map_values(|permission: Permission| permission.spec_name())
}

/// The flags that some names name, in the same order. The first name that names no
/// flag gives the failure of the whole.
pub open spec fn permissions_named(names: Seq<Seq<char>>) -> Result<Seq<Permission>, ErrorModel> {
    try_map(names, |name: Seq<char>| named_permission(name))
}

/// The flags of a set that differ between two sets, as changes in the order of the
/// flags' positions: `gone` tells whether the flags that left the first set are meant,
/// or those that joined the second. Only the first `count` positions are looked at.
pub open spec fn changed_permissions(
    from: Set<Permission>,
    to: Set<Permission>,
    gone: bool,
    count: nat,
) -> Seq<DiffModel>
    decreases count,
{
    if count == 0 {
        Seq::empty()
    } else {
        let permission = Permission::spec_at(count - 1);
        let before = changed_permissions(from, to, gone, (count - 1) as nat);
        if gone && from.contains(permission) && !to.contains(permission) {
            before.push(DiffModel::Change(Some(permission.spec_name()), None))
        } else if !gone && !from.contains(permission) && to.contains(permission) {
            before.push(DiffModel::Change(None, Some(permission.spec_name())))
        } else {
            before
        }
    }
}

/// The differences between two sets of flags: first the flags that only the first set
/// holds, each changed to nothing, then the flags that only the second set holds, each
/// changed from nothing.
pub open spec fn permissions_diff(from: Seq<Permission>, to: Seq<Permission>) -> Seq<DiffModel> {
    changed_permissions(from.to_set(), to.to_set(), true, PERMISSIONS as nat)
        + changed_permissions(from.to_set(), to.to_set(), false, PERMISSIONS as nat)
}

/// The sum of the weights of those flags of a set that sit at the first `count` positions.
pub open spec fn mask_upto(permissions: Set<Permission>, count: nat) -> nat
    decreases count,
{
    if count == 0 {
        0
    } else {
        let permission = Permission::spec_at(count - 1);
        mask_upto(permissions, (count - 1) as nat) + if permissions.contains(permission) {
            permission.spec_flag()
        } else {
            0
        }
    }
}

/// The number that stands for a set of flags: the sum of the weights of its flags.
pub open spec fn mask(permissions: Seq<Permission>) -> nat {
    mask_upto(permissions.to_set(), PERMISSIONS as nat)
}

/// The flags at the first `count` positions whose bit is set in a number, in the
/// order of their positions.
pub open spec fn flags_upto(value: nat, count: nat) -> Seq<Permission>
    decreases count,
{
    if count == 0 {
        Seq::empty()
    } else {
        let permission = Permission::spec_at(count - 1);
        let before = flags_upto(value, (count - 1) as nat);
        if (value / permission.spec_flag()) % 2 == 1 {
            before.push(permission)
        } else {
            before
        }
    }
}

impl PermissionsList {
    /// Whether the list holds a flag.
    pub fn contains(&self, permission: Permission) -> (found: bool)
        ensures
            found == self@.contains(permission),
            found == self@.to_set().contains(permission),
    {
        let mut i: usize = 0;
        while i < self.items.len()
            invariant
                i <= self.items@.len(),
                forall|j: int| 0 <= j < i ==> self.items@[j] != permission,
            decreases self.items@.len() - i,
        {
            if self.items[i] == permission {
                return true;
            }
            i += 1;
        }
        false
    }

    /// Whether two lists stand for the same set of flags.
    pub fn same_as(&self, other: &PermissionsList) -> (same: bool)
        ensures
            same == (self@.to_set() == other@.to_set()),
    {
        let mut i: usize = 0;
        while i < PERMISSIONS
            invariant
                i <= PERMISSIONS,
                forall|j: int|
                    0 <= j < i ==> self@.to_set().contains(#[trigger] Permission::spec_at(j))
                        == other@.to_set().contains(Permission::spec_at(j)),
            decreases PERMISSIONS - i,
        {
            let permission = Permission::at(i);
            if self.contains(permission) != other.contains(permission) {
                return false;
            }
            i += 1;
        }
        proof {
            assert forall|permission: Permission|
                self@.to_set().contains(permission) == other@.to_set().contains(permission) by {
                lemma_position(permission);
            }
            assert(self@.to_set() =~= other@.to_set());
        }
        true
    }

    /// The list of the flags that some names name: computes [`permissions_named`].
    /// The first name that names no flag is refused.
    pub fn from_names(names: &Vec<String>) -> (parsed: Result<PermissionsList, Error>)
        ensures
            match permissions_named(names.deep_view()) {
                Ok(permissions) => parsed matches Ok(list) && list@ == permissions,
                Err(error) => parsed matches Err(e) && e@ == error,
            },
    {
        let ghost texts = names.deep_view();
        let ghost convert = |name: Seq<char>| named_permission(name);
        let mut items: Vec<Permission> = Vec::new();
        let mut i: usize = 0;
        assert(texts.take(0) =~= Seq::empty());
        while i < names.len()
            invariant
                texts == names.deep_view(),
                convert == |name: Seq<char>| named_permission(name),
                i <= names@.len(),
                try_map(texts.take(i as int), convert) == Ok::<Seq<Permission>, ErrorModel>(
                    items@,
                ),
            decreases names@.len() - i,
        {
            proof {
                lemma_try_map_take(texts, i as int, convert);
                assert(texts[i as int] == names@[i as int]@);
            }
            match Permission::from_str(names[i].as_str()) {
                Ok(permission) => {
                    items.push(permission);
                },
                Err(error) => {
                    proof {
                        lemma_try_map_fails(texts, i + 1, convert);
                    }
                    return Err(error);
                },
            }
            i += 1;
        }
        proof {
            assert(texts.take(i as int) =~= texts);
        }
        Ok(PermissionsList { items })
    }

    /// The names of the flags of the list, in its order.
    pub fn names(&self) -> (names: Vec<String>)
        ensures
            names.deep_view() == names_of(self@),
    {
        let mut names: Vec<String> = Vec::new();
        let mut i: usize = 0;
        while i < self.items.len()
            invariant
                i <= self.items@.len(),
                names@.len() == i,
                forall|j: int| 0 <= j < i ==> names@[j]@ == self.items@[j].spec_name(),
            decreases self.items@.len() - i,
        {
            names.push(self.items[i].to_string());
            i += 1;
        }
        assert(names.deep_view() =~= names_of(self@));
        names
    }

    fn changes_with(&self, target: &PermissionsList, gone: bool) -> (diffs: Vec<Diff>)
        ensures
            diffs.deep_view() == changed_permissions(
                self@.to_set(),
                target@.to_set(),
                gone,
                PERMISSIONS as nat,
            ),
    {
        let mut diffs: Vec<Diff> = Vec::new();
        let mut i: usize = 0;
        assert(diffs.deep_view() =~= Seq::empty());
        while i < PERMISSIONS
            invariant
                i <= PERMISSIONS,
                diffs.deep_view() == changed_permissions(
                    self@.to_set(),
                    target@.to_set(),
                    gone,
                    i as nat,
                ),
            decreases PERMISSIONS - i,
        {
            let permission = Permission::at(i);
            let here = self.contains(permission);
            let there = target.contains(permission);
            let ghost before = diffs.deep_view();
            if gone && here && !there {
                diffs.push(Diff::Change(Some(permission.to_string()), None));
                assert(diffs.deep_view() =~= before.push(
                    DiffModel::Change(Some(permission.spec_name()), None),
                ));
            } else if !gone && !here && there {
                diffs.push(Diff::Change(None, Some(permission.to_string())));
                assert(diffs.deep_view() =~= before.push(
                    DiffModel::Change(None, Some(permission.spec_name())),
                ));
            }
            i += 1;
        }
        diffs
    }

    /// Computes [`permissions_diff`] against the list that is wanted.
    pub fn diffs_with(&self, target: &PermissionsList) -> (diffs: Vec<Diff>)
        ensures
            diffs.deep_view() == permissions_diff(self@, target@),
    {
        let mut diffs = self.changes_with(target, true);
        let mut joined = self.changes_with(target, false);
        let ghost left = diffs.deep_view();
        let ghost right = joined.deep_view();
        diffs.append(&mut joined);
        assert(diffs.deep_view() =~= left + right);
        diffs
    }

    /// The permission code of the list: its [`mask`] in decimal notation.
    pub fn code(&self) -> (code: String)
        ensures
            code@ == decimal_digits(mask(self@)),
    {
        let mut sum: u64 = 0;
        let mut i: usize = 0;
        while i < PERMISSIONS
            invariant
                i <= PERMISSIONS,
                sum == mask_upto(self@.to_set(), i as nat),
                i == 0 ==> sum == 0,
                i > 0 ==> sum < 2 * Permission::spec_at(i - 1).spec_flag(),
            decreases PERMISSIONS - i,
        {
            let permission = Permission::at(i);
            proof {
                lemma_flag_doubles(i as int);
            }
            if self.contains(permission) {
                sum = sum + permission.flag();
            }
            i += 1;
        }
        decimal(sum)
    }

    /// The list of the flags whose bit is set in a permission code, in the order of
    /// their positions. Bits that belong to no flag are passed over. A text that is no
    /// decimal number of 64 bits is refused.
    pub fn from_code(code: &str) -> (parsed: Result<PermissionsList, Error>)
        ensures
            parsed.is_ok() <==> is_number(code@) && digits_value(code@) <= u64::MAX,
            match parsed {
                Ok(list) => list@ == flags_upto(digits_value(code@), PERMISSIONS as nat),
                Err(error) => error@ == ErrorModel::InvalidPermissionsCode(code@),
            },
    {
        match parse_decimal(code) {
            None => Err(Error::InvalidPermissionsCode(code.to_owned())),
            Some(value) => {
                let mut items: Vec<Permission> = Vec::new();
                let mut i: usize = 0;
                while i < PERMISSIONS
                    invariant
                        i <= PERMISSIONS,
                        items@ == flags_upto(value as nat, i as nat),
                    decreases PERMISSIONS - i,
                {
                    let permission = Permission::at(i);
                    if (value / permission.flag()) % 2 == 1 {
                        items.push(permission);
                    }
                    i += 1;
                }
                Ok(PermissionsList { items })
            },
        }
    }
}

/// Two lists that stand for the same set of flags do not differ.
pub proof fn lemma_same_permissions_no_diff(from: Seq<Permission>, to: Seq<Permission>)
    requires
        from.to_set() == to.to_set(),
    ensures
        permissions_diff(from, to) == Seq::<DiffModel>::empty(),
{
    lemma_unchanged_permissions(from.to_set(), true, PERMISSIONS as nat);
    lemma_unchanged_permissions(from.to_set(), false, PERMISSIONS as nat);
}

proof fn lemma_unchanged_permissions(permissions: Set<Permission>, gone: bool, count: nat)
    ensures
        changed_permissions(permissions, permissions, gone, count) == Seq::<DiffModel>::empty(),
    decreases count,
{
    if count > 0 {
        lemma_unchanged_permissions(permissions, gone, (count - 1) as nat);
    }
}

/// Two lists that do not differ stand for the same set of flags.
pub proof fn lemma_no_diff_same_permissions(from: Seq<Permission>, to: Seq<Permission>)
    requires
        permissions_diff(from, to).len() == 0,
    ensures
        from.to_set() == to.to_set(),
{
    assert forall|permission: Permission|
        from.to_set().contains(permission) == to.to_set().contains(permission) by {
        lemma_position(permission);
        if from.to_set().contains(permission) && !to.to_set().contains(permission) {
            lemma_changed_permissions_found(
                from.to_set(),
                to.to_set(),
                true,
                PERMISSIONS as nat,
                permission,
            );
        } else if !from.to_set().contains(permission) && to.to_set().contains(permission) {
            lemma_changed_permissions_found(
                from.to_set(),
                to.to_set(),
                false,
                PERMISSIONS as nat,
                permission,
            );
        }
    }
    assert(from.to_set() =~= to.to_set());
}

proof fn lemma_changed_permissions_found(
    from: Set<Permission>,
    to: Set<Permission>,
    gone: bool,
    count: nat,
    permission: Permission,
)
    requires
        permission.spec_index() < count <= PERMISSIONS,
        gone ==> from.contains(permission) && !to.contains(permission),
        !gone ==> !from.contains(permission) && to.contains(permission),
    ensures
        changed_permissions(from, to, gone, count).len() > 0,
    decreases count,
{
    lemma_position(permission);
    if permission.spec_index() < count - 1 {
        lemma_changed_permissions_found(from, to, gone, (count - 1) as nat, permission);
    }
}

/// No two flags are written alike, so a flag is read back from its name.
pub proof fn lemma_names_differ(a: Permission, b: Permission)
    requires
        a != b,
    ensures
        a.spec_name() != b.spec_name(),
{
    reveal_strlit("CREATE_INSTANT_INVITE");
    reveal_strlit("KICK_MEMBERS");
    reveal_strlit("BAN_MEMBERS");
    reveal_strlit("ADMINISTRATOR");
    reveal_strlit("MANAGE_CHANNELS");
    reveal_strlit("MANAGE_GUILD");
    reveal_strlit("ADD_REACTIONS");
    reveal_strlit("VIEW_AUDIT_LOG");
    reveal_strlit("PRIORITY_SPEAKER");
    reveal_strlit("STREAM");
    reveal_strlit("VIEW_CHANNEL");
    reveal_strlit("SEND_MESSAGES");
    reveal_strlit("SEND_TTS_MESSAGES");
    reveal_strlit("MANAGE_MESSAGES");
    reveal_strlit("EMBED_LINKS");
    reveal_strlit("ATTACH_FILES");
    reveal_strlit("READ_MESSAGE_HISTORY");
    reveal_strlit("MENTION_EVERYONE");
    reveal_strlit("USE_EXTERNAL_EMOJIS");
    reveal_strlit("VIEW_GUILD_INSIGHTS");
    reveal_strlit("CONNECT");
    reveal_strlit("SPEAK");
    reveal_strlit("MUTE_MEMBERS");
    reveal_strlit("DEAFEN_MEMBERS");
    reveal_strlit("MOVE_MEMBERS");
    reveal_strlit("USE_VAD");
    reveal_strlit("CHANGE_NICKNAME");
    reveal_strlit("MANAGE_NICKNAMES");
    reveal_strlit("MANAGE_ROLES");
    reveal_strlit("MANAGE_WEBHOOKS");
    reveal_strlit("MANAGE_EMOJIS_AND_STICKERS");
    reveal_strlit("USE_APPLICATION_COMMANDS");
    reveal_strlit("REQUEST_TO_SPEAK");
    reveal_strlit("MANAGE_EVENTS");
    reveal_strlit("MANAGE_THREADS");
    reveal_strlit("CREATE_PUBLIC_THREADS");
    reveal_strlit("CREATE_PRIVATE_THREADS");
    reveal_strlit("USE_EXTERNAL_STICKERS");
    reveal_strlit("SEND_MESSAGES_IN_THREADS");
    reveal_strlit("USE_EMBEDDED_ACTIVITIES");
    reveal_strlit("MODERATE_MEMBERS");
    let x = a.spec_name();
    let y = b.spec_name();
    if x.len() == y.len() {
        // Names of one length differ near their beginning or near their end.
        let last = x.len() - 1;
        assert(x[0] != y[0] || x[1] != y[1] || x[2] != y[2] || x[3] != y[3] || x[4] != y[4]
            || x[last] != y[last] || x[last - 1] != y[last - 1] || x[last - 2] != y[last - 2]
            || x[last - 3] != y[last - 3]);
    }
}

/// A flag is read back from its name.
pub proof fn lemma_named_permission(permission: Permission)
    ensures
        named_permission(permission.spec_name()) == Ok::<Permission, ErrorModel>(permission),
{
    let names = all_names();
    let at = permission.spec_index() as int;
    lemma_position(permission);
    lemma_first_index(names, permission.spec_name());
    assert(names[at] == permission.spec_name());
    let found = first_index(names, permission.spec_name()).unwrap();
    if Permission::spec_at(found) != permission {
        lemma_names_differ(Permission::spec_at(found), permission);
    }
}

} // verus!
