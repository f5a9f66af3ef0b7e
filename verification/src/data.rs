//! Typed records: what the server tells of its groups, clients and channels.

use vstd::prelude::*;
use crate::error::{Ts3Error, Ts3ErrorView};
use crate::escape::{escape_arg, escape_spec};
use crate::raw::{
    bool_field, bool_val_parser, int_field, int_list_field, int_list_val_parser, int_val_parser,
    ints_view, string_field, string_field_opt, string_val_parser, string_val_parser_opt,
};
use crate::number::FieldInt;
use crate::record::{value_view, Record};
use crate::text::{push_sign_magnitude, signed_decimal_spec};

verus! {

// The server uses whatever its database has for ids; every foreign key is
// unsigned.
pub type ServerId = u64;

pub type ServerGroupID = u64;

pub type ChannelId = u64;

/// Temporary, per connection id of a client, reused upon disconnect. Not to
/// be confused with a client database, myteamspeak or identity id.
pub type ClientId = u16;

/// Server internal id of a client, not its identity or myteamspeak id.
pub type ClientDBId = u64;

pub type ChannelGroupId = u64;

/// CRC32 checksum of the channel icon, received as a signed number.
pub type IconHash = i64;

/// The error of a result, if it is one.
pub open spec fn error_of<T>(r: Result<T, Ts3ErrorView>) -> Option<Ts3ErrorView> {
    match r {
        Ok(_) => None,
        Err(e) => Some(e),
    }
}

/// The record `d` is what is left of `m` after the fields `taken` were taken
/// out: on every other name the two agree.
#[verifier::opaque]
spec fn left_of(
    d: Map<Seq<char>, Option<Seq<char>>>,
    m: Map<Seq<char>, Option<Seq<char>>>,
    taken: Set<Seq<char>>,
) -> bool {
    forall|k: Seq<char>|
        !taken.contains(k) ==> (d.contains_key(k) == m.contains_key(k) && d[k] == m[k])
}

proof fn lemma_nothing_taken(m: Map<Seq<char>, Option<Seq<char>>>)
    ensures
        left_of(m, m, Set::empty()),
{
    reveal(left_of);
}

proof fn lemma_take(
    d: Map<Seq<char>, Option<Seq<char>>>,
    m: Map<Seq<char>, Option<Seq<char>>>,
    taken: Set<Seq<char>>,
    key: Seq<char>,
)
    requires
        left_of(d, m, taken),
        !taken.contains(key),
    ensures
        left_of(d.remove(key), m, taken.insert(key)),
        d.contains_key(key) == m.contains_key(key),
        d[key] == m[key],
{
    reveal(left_of);
}

/// Takes an integer field that was not taken before: the result is what the
/// whole record `m` gives for it.
fn take_int<T: FieldInt>(
    data: &mut Record,
    key: &'static str,
    Ghost(m): Ghost<Map<Seq<char>, Option<Seq<char>>>>,
    Ghost(taken): Ghost<Set<Seq<char>>>,
) -> (r: Result<T, Ts3Error>)
    requires
        left_of(old(data)@, m, taken),
        !taken.contains(key@),
    ensures
        left_of(final(data)@, m, taken.insert(key@)),
        match r {
            Ok(x) => int_field::<T>(m, key@) == Ok::<_, Ts3ErrorView>(x.as_int()),
            Err(e) => int_field::<T>(m, key@) == Err::<int, _>(e@),
        },
{
    proof {
        lemma_take(data@, m, taken, key@);
    }
    int_val_parser::<T>(data, key)
}

/// Takes a text field that was not taken before.
fn take_string(
    data: &mut Record,
    key: &'static str,
    Ghost(m): Ghost<Map<Seq<char>, Option<Seq<char>>>>,
    Ghost(taken): Ghost<Set<Seq<char>>>,
) -> (r: Result<String, Ts3Error>)
    requires
        left_of(old(data)@, m, taken),
        !taken.contains(key@),
    ensures
        left_of(final(data)@, m, taken.insert(key@)),
        match r {
            Ok(x) => string_field(m, key@) == Ok::<_, Ts3ErrorView>(x@),
            Err(e) => string_field(m, key@) == Err::<Seq<char>, _>(e@),
        },
{
    proof {
        lemma_take(data@, m, taken, key@);
    }
    string_val_parser(data, key)
}

/// Takes a text field that may come without value and was not taken before.
fn take_string_opt(
    data: &mut Record,
    key: &'static str,
    Ghost(m): Ghost<Map<Seq<char>, Option<Seq<char>>>>,
    Ghost(taken): Ghost<Set<Seq<char>>>,
) -> (r: Result<Option<String>, Ts3Error>)
    requires
        left_of(old(data)@, m, taken),
        !taken.contains(key@),
    ensures
        left_of(final(data)@, m, taken.insert(key@)),
        match r {
            Ok(x) => string_field_opt(m, key@) == Ok::<_, Ts3ErrorView>(value_view(x)),
            Err(e) => string_field_opt(m, key@) == Err::<Option<Seq<char>>, _>(e@),
        },
{
    proof {
        lemma_take(data@, m, taken, key@);
    }
    string_val_parser_opt(data, key)
}

/// Takes a truth value that was not taken before.
fn take_bool(
    data: &mut Record,
    key: &'static str,
    Ghost(m): Ghost<Map<Seq<char>, Option<Seq<char>>>>,
    Ghost(taken): Ghost<Set<Seq<char>>>,
) -> (r: Result<bool, Ts3Error>)
    requires
        left_of(old(data)@, m, taken),
        !taken.contains(key@),
    ensures
        left_of(final(data)@, m, taken.insert(key@)),
        match r {
            Ok(x) => bool_field(m, key@) == Ok::<_, Ts3ErrorView>(x),
            Err(e) => bool_field(m, key@) == Err::<bool, _>(e@),
        },
{
    proof {
        lemma_take(data@, m, taken, key@);
    }
    bool_val_parser(data, key)
}

/// Takes a list of integers that was not taken before.
fn take_int_list<T: FieldInt>(
    data: &mut Record,
    key: &'static str,
    Ghost(m): Ghost<Map<Seq<char>, Option<Seq<char>>>>,
    Ghost(taken): Ghost<Set<Seq<char>>>,
) -> (r: Result<Vec<T>, Ts3Error>)
    requires
        left_of(old(data)@, m, taken),
        !taken.contains(key@),
    ensures
        left_of(final(data)@, m, taken.insert(key@)),
        match r {
            Ok(x) => int_list_field::<T>(m, key@) == Ok::<_, Ts3ErrorView>(ints_view(x@)),
            Err(e) => int_list_field::<T>(m, key@) == Err::<Seq<int>, _>(e@),
        },
{
    proof {
        lemma_take(data@, m, taken, key@);
    }
    int_list_val_parser::<T>(data, key)
}

/// Server Group returned from `server_group_list`. Field names are according to the query protocol.
#[derive(Debug)]
pub struct ServerGroup {
    /// Identifier for this server group
    pub sgid: ServerGroupID,
    pub name: String,
    /// Group type: template, regular, query; the field `type` of the protocol
    pub group_type: i32,
    pub iconid: IconHash,
    /// Whether the group is stored to the database
    pub savedb: bool,
}

/// The error that the reading of a `ServerGroup` from the record `m` ends with:
/// that of the first field, in the order of the struct, that cannot be read;
/// `None` where every field can be read.
pub open spec fn server_group_error(m: Map<Seq<char>, Option<Seq<char>>>) -> Option<Ts3ErrorView> {
    let e0 = error_of(int_field::<ServerGroupID>(m, "sgid"@));
    let e1 = error_of(string_field(m, "name"@));
    let e2 = error_of(int_field::<i32>(m, "type"@));
    let e3 = error_of(int_field::<IconHash>(m, "iconid"@));
    let e4 = error_of(bool_field(m, "savedb"@));
    if e0 is Some {
        e0
    } else if e1 is Some {
        e1
    } else if e2 is Some {
        e2
    } else if e3 is Some {
        e3
    } else if e4 is Some {
        e4
    } else {
        None
    }
}

impl ServerGroup {
    /// Every field holds what the record `m` has under the field's name.
    pub open spec fn read_from(&self, m: Map<Seq<char>, Option<Seq<char>>>) -> bool {
        &&& int_field::<ServerGroupID>(m, "sgid"@) == Ok::<_, Ts3ErrorView>(self.sgid as int)
        &&& string_field(m, "name"@) == Ok::<_, Ts3ErrorView>(self.name@)
        &&& int_field::<i32>(m, "type"@) == Ok::<_, Ts3ErrorView>(self.group_type as int)
        &&& int_field::<IconHash>(m, "iconid"@) == Ok::<_, Ts3ErrorView>(self.iconid as int)
        &&& bool_field(m, "savedb"@) == Ok::<_, Ts3ErrorView>(self.savedb)
    }

    /// Reads the server group from the fields of `data`, which was parsed without
    /// unescaping. Fields that the struct does not have are ignored.
    pub fn from_raw(data: Record) -> (r: Result<ServerGroup, Ts3Error>)
        ensures
            match r {
                Ok(v) => v.read_from(data@),
                Err(e) => server_group_error(data@) == Some(e@),
            },
    {
        let ghost m = data@;
        let ghost mut taken: Set<Seq<char>> = Set::empty();
        let mut data = data;
        proof {
            lemma_nothing_taken(m);
            // No two names are the same: they differ in length, or at one of the
            // places looked at here.
            reveal_strlit("sgid");
            assert("sgid"@.len() == 4 && "sgid"@[0] == 's');
            reveal_strlit("name");
            assert("name"@.len() == 4 && "name"@[0] == 'n');
            reveal_strlit("type");
            assert("type"@.len() == 4 && "type"@[0] == 't');
            reveal_strlit("iconid");
            assert("iconid"@.len() == 6 && "iconid"@[0] == 'i');
            reveal_strlit("savedb");
            assert("savedb"@.len() == 6 && "savedb"@[0] == 's');
        }
        let sgid = take_int::<ServerGroupID>(&mut data, "sgid", Ghost(m), Ghost(taken))?;
        proof {
            taken = taken.insert("sgid"@);
            assert(error_of(int_field::<ServerGroupID>(m, "sgid"@)) is None);
        }
        let name = take_string(&mut data, "name", Ghost(m), Ghost(taken))?;
        proof {
            taken = taken.insert("name"@);
            assert(error_of(string_field(m, "name"@)) is None);
        }
        let group_type = take_int::<i32>(&mut data, "type", Ghost(m), Ghost(taken))?;
        proof {
            taken = taken.insert("type"@);
            assert(error_of(int_field::<i32>(m, "type"@)) is None);
        }
        let iconid = take_int::<IconHash>(&mut data, "iconid", Ghost(m), Ghost(taken))?;
        proof {
            taken = taken.insert("iconid"@);
            assert(error_of(int_field::<IconHash>(m, "iconid"@)) is None);
        }
        let savedb = take_bool(&mut data, "savedb", Ghost(m), Ghost(taken))?;
        proof {
            taken = taken.insert("savedb"@);
            assert(error_of(bool_field(m, "savedb"@)) is None);
        }
        Ok(ServerGroup {
            sgid,
            name,
            group_type,
            iconid,
            savedb,
        })
    }
}

/// A client that is online, as `clientlist` gives it.
#[derive(Debug)]
pub struct OnlineClient {
    pub clid: ClientId,
    pub cid: ChannelId,
    pub client_database_id: ClientDBId,
    pub client_nickname: String,
    /// 0 For normal client, 1 for query
    pub client_type: i8,
}

/// The error that the reading of a `OnlineClient` from the record `m` ends with:
/// that of the first field, in the order of the struct, that cannot be read;
/// `None` where every field can be read.
pub open spec fn online_client_error(m: Map<Seq<char>, Option<Seq<char>>>) -> Option<Ts3ErrorView> {
    let e0 = error_of(int_field::<ClientId>(m, "clid"@));
    let e1 = error_of(int_field::<ChannelId>(m, "cid"@));
    let e2 = error_of(int_field::<ClientDBId>(m, "client_database_id"@));
    let e3 = error_of(string_field(m, "client_nickname"@));
    let e4 = error_of(int_field::<i8>(m, "client_type"@));
    if e0 is Some {
        e0
    } else if e1 is Some {
        e1
    } else if e2 is Some {
        e2
    } else if e3 is Some {
        e3
    } else if e4 is Some {
        e4
    } else {
        None
    }
}

impl OnlineClient {
    /// Every field holds what the record `m` has under the field's name.
    pub open spec fn read_from(&self, m: Map<Seq<char>, Option<Seq<char>>>) -> bool {
        &&& int_field::<ClientId>(m, "clid"@) == Ok::<_, Ts3ErrorView>(self.clid as int)
        &&& int_field::<ChannelId>(m, "cid"@) == Ok::<_, Ts3ErrorView>(self.cid as int)
        &&& int_field::<ClientDBId>(m, "client_database_id"@) == Ok::<_, Ts3ErrorView>(self.client_database_id as int)
        &&& string_field(m, "client_nickname"@) == Ok::<_, Ts3ErrorView>(self.client_nickname@)
        &&& int_field::<i8>(m, "client_type"@) == Ok::<_, Ts3ErrorView>(self.client_type as int)
    }

    /// Reads the online client from the fields of `data`, which was parsed without
    /// unescaping. Fields that the struct does not have are ignored.
    pub fn from_raw(data: Record) -> (r: Result<OnlineClient, Ts3Error>)
        ensures
            match r {
                Ok(v) => v.read_from(data@),
                Err(e) => online_client_error(data@) == Some(e@),
            },
    {
        let ghost m = data@;
        let ghost mut taken: Set<Seq<char>> = Set::empty();
        let mut data = data;
        proof {
            lemma_nothing_taken(m);
            // No two names are the same: they differ in length, or at one of the
            // places looked at here.
            reveal_strlit("clid");
            assert("clid"@.len() == 4);
            reveal_strlit("cid");
            assert("cid"@.len() == 3);
            reveal_strlit("client_database_id");
            assert("client_database_id"@.len() == 18);
            reveal_strlit("client_nickname");
            assert("client_nickname"@.len() == 15);
            reveal_strlit("client_type");
            assert("client_type"@.len() == 11);
        }
        let clid = take_int::<ClientId>(&mut data, "clid", Ghost(m), Ghost(taken))?;
        proof {
            taken = taken.insert("clid"@);
            assert(error_of(int_field::<ClientId>(m, "clid"@)) is None);
        }
        let cid = take_int::<ChannelId>(&mut data, "cid", Ghost(m), Ghost(taken))?;
        proof {
            taken = taken.insert("cid"@);
            assert(error_of(int_field::<ChannelId>(m, "cid"@)) is None);
        }
        let client_database_id = take_int::<ClientDBId>(&mut data, "client_database_id", Ghost(m), Ghost(taken))?;
        proof {
            taken = taken.insert("client_database_id"@);
            assert(error_of(int_field::<ClientDBId>(m, "client_database_id"@)) is None);
        }
        let client_nickname = take_string(&mut data, "client_nickname", Ghost(m), Ghost(taken))?;
        proof {
            taken = taken.insert("client_nickname"@);
            assert(error_of(string_field(m, "client_nickname"@)) is None);
        }
        let client_type = take_int::<i8>(&mut data, "client_type", Ghost(m), Ghost(taken))?;
        proof {
            taken = taken.insert("client_type"@);
            assert(error_of(int_field::<i8>(m, "client_type"@)) is None);
        }
        Ok(OnlineClient {
            clid,
            cid,
            client_database_id,
            client_nickname,
            client_type,
        })
    }
}

/// A client that is online, with everything that `clientlist` can give of it.
#[derive(Debug)]
pub struct OnlineClientFull {
    pub clid: ClientId,
    pub cid: ChannelId,
    pub client_database_id: ClientDBId,
    pub client_nickname: String,
    /// 0 For normal client, 1 for query
    pub client_type: i8,
    pub client_away: bool,
    pub client_away_message: Option<String>,
    pub client_flag_talking: bool,
    pub client_input_muted: bool,
    pub client_output_muted: bool,
    pub client_input_hardware: bool,
    pub client_output_hardware: bool,
    pub client_talk_power: i32,
    pub client_is_talker: bool,
    pub client_is_priority_speaker: bool,
    pub client_is_recording: bool,
    pub client_is_channel_commander: bool,
    pub client_unique_identifier: String,
    pub client_servergroups: Vec<ServerGroupID>,
    pub client_channel_group_id: ChannelGroupId,
    pub client_channel_group_inherited_channel_id: ChannelGroupId,
    pub client_version: String,
    pub client_platform: String,
    pub client_idle_time: i64,
    pub client_created: i64,
    pub client_lastconnected: i64,
    pub client_country: String,
    pub connection_client_ip: String,
    pub client_badges: Option<String>,
}

/// The error that the reading of a `OnlineClientFull` from the record `m` ends with:
/// that of the first field, in the order of the struct, that cannot be read;
/// `None` where every field can be read.
pub open spec fn online_client_full_error(m: Map<Seq<char>, Option<Seq<char>>>) -> Option<Ts3ErrorView> {
    let e0 = error_of(int_field::<ClientId>(m, "clid"@));
    let e1 = error_of(int_field::<ChannelId>(m, "cid"@));
    let e2 = error_of(int_field::<ClientDBId>(m, "client_database_id"@));
    let e3 = error_of(string_field(m, "client_nickname"@));
    let e4 = error_of(int_field::<i8>(m, "client_type"@));
    let e5 = error_of(bool_field(m, "client_away"@));
    let e6 = error_of(string_field_opt(m, "client_away_message"@));
    let e7 = error_of(bool_field(m, "client_flag_talking"@));
    let e8 = error_of(bool_field(m, "client_input_muted"@));
    let e9 = error_of(bool_field(m, "client_output_muted"@));
    let e10 = error_of(bool_field(m, "client_input_hardware"@));
    let e11 = error_of(bool_field(m, "client_output_hardware"@));
    let e12 = error_of(int_field::<i32>(m, "client_talk_power"@));
    let e13 = error_of(bool_field(m, "client_is_talker"@));
    let e14 = error_of(bool_field(m, "client_is_priority_speaker"@));
    let e15 = error_of(bool_field(m, "client_is_recording"@));
    let e16 = error_of(bool_field(m, "client_is_channel_commander"@));
    let e17 = error_of(string_field(m, "client_unique_identifier"@));
    let e18 = error_of(int_list_field::<ServerGroupID>(m, "client_servergroups"@));
    let e19 = error_of(int_field::<ChannelGroupId>(m, "client_channel_group_id"@));
    let e20 = error_of(int_field::<ChannelGroupId>(m, "client_channel_group_inherited_channel_id"@));
    let e21 = error_of(string_field(m, "client_version"@));
    let e22 = error_of(string_field(m, "client_platform"@));
    let e23 = error_of(int_field::<i64>(m, "client_idle_time"@));
    let e24 = error_of(int_field::<i64>(m, "client_created"@));
    let e25 = error_of(int_field::<i64>(m, "client_lastconnected"@));
    let e26 = error_of(string_field(m, "client_country"@));
    let e27 = error_of(string_field(m, "connection_client_ip"@));
    let e28 = error_of(string_field_opt(m, "client_badges"@));
    if e0 is Some {
        e0
    } else if e1 is Some {
        e1
    } else if e2 is Some {
        e2
    } else if e3 is Some {
        e3
    } else if e4 is Some {
        e4
    } else if e5 is Some {
        e5
    } else if e6 is Some {
        e6
    } else if e7 is Some {
        e7
    } else if e8 is Some {
        e8
    } else if e9 is Some {
        e9
    } else if e10 is Some {
        e10
    } else if e11 is Some {
        e11
    } else if e12 is Some {
        e12
    } else if e13 is Some {
        e13
    } else if e14 is Some {
        e14
    } else if e15 is Some {
        e15
    } else if e16 is Some {
        e16
    } else if e17 is Some {
        e17
    } else if e18 is Some {
        e18
    } else if e19 is Some {
        e19
    } else if e20 is Some {
        e20
    } else if e21 is Some {
        e21
    } else if e22 is Some {
        e22
    } else if e23 is Some {
        e23
    } else if e24 is Some {
        e24
    } else if e25 is Some {
        e25
    } else if e26 is Some {
        e26
    } else if e27 is Some {
        e27
    } else if e28 is Some {
        e28
    } else {
        None
    }
}

impl OnlineClientFull {
    /// Every field holds what the record `m` has under the field's name.
    pub open spec fn read_from(&self, m: Map<Seq<char>, Option<Seq<char>>>) -> bool {
        &&& int_field::<ClientId>(m, "clid"@) == Ok::<_, Ts3ErrorView>(self.clid as int)
        &&& int_field::<ChannelId>(m, "cid"@) == Ok::<_, Ts3ErrorView>(self.cid as int)
        &&& int_field::<ClientDBId>(m, "client_database_id"@) == Ok::<_, Ts3ErrorView>(self.client_database_id as int)
        &&& string_field(m, "client_nickname"@) == Ok::<_, Ts3ErrorView>(self.client_nickname@)
        &&& int_field::<i8>(m, "client_type"@) == Ok::<_, Ts3ErrorView>(self.client_type as int)
        &&& bool_field(m, "client_away"@) == Ok::<_, Ts3ErrorView>(self.client_away)
        &&& string_field_opt(m, "client_away_message"@) == Ok::<_, Ts3ErrorView>(value_view(self.client_away_message))
        &&& bool_field(m, "client_flag_talking"@) == Ok::<_, Ts3ErrorView>(self.client_flag_talking)
        &&& bool_field(m, "client_input_muted"@) == Ok::<_, Ts3ErrorView>(self.client_input_muted)
        &&& bool_field(m, "client_output_muted"@) == Ok::<_, Ts3ErrorView>(self.client_output_muted)
        &&& bool_field(m, "client_input_hardware"@) == Ok::<_, Ts3ErrorView>(self.client_input_hardware)
        &&& bool_field(m, "client_output_hardware"@) == Ok::<_, Ts3ErrorView>(self.client_output_hardware)
        &&& int_field::<i32>(m, "client_talk_power"@) == Ok::<_, Ts3ErrorView>(self.client_talk_power as int)
        &&& bool_field(m, "client_is_talker"@) == Ok::<_, Ts3ErrorView>(self.client_is_talker)
        &&& bool_field(m, "client_is_priority_speaker"@) == Ok::<_, Ts3ErrorView>(self.client_is_priority_speaker)
        &&& bool_field(m, "client_is_recording"@) == Ok::<_, Ts3ErrorView>(self.client_is_recording)
        &&& bool_field(m, "client_is_channel_commander"@) == Ok::<_, Ts3ErrorView>(self.client_is_channel_commander)
        &&& string_field(m, "client_unique_identifier"@) == Ok::<_, Ts3ErrorView>(self.client_unique_identifier@)
        &&& int_list_field::<ServerGroupID>(m, "client_servergroups"@) == Ok::<_, Ts3ErrorView>(ints_view(self.client_servergroups@))
        &&& int_field::<ChannelGroupId>(m, "client_channel_group_id"@) == Ok::<_, Ts3ErrorView>(self.client_channel_group_id as int)
        &&& int_field::<ChannelGroupId>(m, "client_channel_group_inherited_channel_id"@) == Ok::<_, Ts3ErrorView>(self.client_channel_group_inherited_channel_id as int)
        &&& string_field(m, "client_version"@) == Ok::<_, Ts3ErrorView>(self.client_version@)
        &&& string_field(m, "client_platform"@) == Ok::<_, Ts3ErrorView>(self.client_platform@)
        &&& int_field::<i64>(m, "client_idle_time"@) == Ok::<_, Ts3ErrorView>(self.client_idle_time as int)
        &&& int_field::<i64>(m, "client_created"@) == Ok::<_, Ts3ErrorView>(self.client_created as int)
        &&& int_field::<i64>(m, "client_lastconnected"@) == Ok::<_, Ts3ErrorView>(self.client_lastconnected as int)
        &&& string_field(m, "client_country"@) == Ok::<_, Ts3ErrorView>(self.client_country@)
        &&& string_field(m, "connection_client_ip"@) == Ok::<_, Ts3ErrorView>(self.connection_client_ip@)
        &&& string_field_opt(m, "client_badges"@) == Ok::<_, Ts3ErrorView>(value_view(self.client_badges))
    }

    /// Reads the online client from the fields of `data`, which was parsed without
    /// unescaping. Fields that the struct does not have are ignored.
    pub fn from_raw(data: Record) -> (r: Result<OnlineClientFull, Ts3Error>)
        ensures
            match r {
                Ok(v) => v.read_from(data@),
                Err(e) => online_client_full_error(data@) == Some(e@),
            },
    {
        let ghost m = data@;
        let ghost mut taken: Set<Seq<char>> = Set::empty();
        let mut data = data;
        proof {
            lemma_nothing_taken(m);
            // No two names are the same: they differ in length, or at one of the
            // places looked at here.
            reveal_strlit("clid");
            assert("clid"@.len() == 4);
            reveal_strlit("cid");
            assert("cid"@.len() == 3);
            reveal_strlit("client_database_id");
            assert("client_database_id"@.len() == 18 && "client_database_id"@[8] == 'a');
            reveal_strlit("client_nickname");
            assert("client_nickname"@.len() == 15 && "client_nickname"@[8] == 'i');
            reveal_strlit("client_type");
            assert("client_type"@.len() == 11 && "client_type"@[8] == 'y');
            reveal_strlit("client_away");
            assert("client_away"@.len() == 11 && "client_away"@[8] == 'w');
            reveal_strlit("client_away_message");
            assert("client_away_message"@.len() == 19 && "client_away_message"@[8] == 'w');
            reveal_strlit("client_flag_talking");
            assert("client_flag_talking"@.len() == 19 && "client_flag_talking"@[8] == 'l');
            reveal_strlit("client_input_muted");
            assert("client_input_muted"@.len() == 18 && "client_input_muted"@[8] == 'n');
            reveal_strlit("client_output_muted");
            assert("client_output_muted"@.len() == 19 && "client_output_muted"@[8] == 'u');
            reveal_strlit("client_input_hardware");
            assert("client_input_hardware"@.len() == 21);
            reveal_strlit("client_output_hardware");
            assert("client_output_hardware"@.len() == 22);
            reveal_strlit("client_talk_power");
            assert("client_talk_power"@.len() == 17);
            reveal_strlit("client_is_talker");
            assert("client_is_talker"@.len() == 16 && "client_is_talker"@[8] == 's');
            reveal_strlit("client_is_priority_speaker");
            assert("client_is_priority_speaker"@.len() == 26);
            reveal_strlit("client_is_recording");
            assert("client_is_recording"@.len() == 19 && "client_is_recording"@[8] == 's');
            reveal_strlit("client_is_channel_commander");
            assert("client_is_channel_commander"@.len() == 27);
            reveal_strlit("client_unique_identifier");
            assert("client_unique_identifier"@.len() == 24);
            reveal_strlit("client_servergroups");
            assert("client_servergroups"@.len() == 19 && "client_servergroups"@[8] == 'e');
            reveal_strlit("client_channel_group_id");
            assert("client_channel_group_id"@.len() == 23);
            reveal_strlit("client_channel_group_inherited_channel_id");
            assert("client_channel_group_inherited_channel_id"@.len() == 41);
            reveal_strlit("client_version");
            assert("client_version"@.len() == 14 && "client_version"@[8] == 'e');
            reveal_strlit("client_platform");
            assert("client_platform"@.len() == 15 && "client_platform"@[8] == 'l');
            reveal_strlit("client_idle_time");
            assert("client_idle_time"@.len() == 16 && "client_idle_time"@[8] == 'd');
            reveal_strlit("client_created");
            assert("client_created"@.len() == 14 && "client_created"@[8] == 'r');
            reveal_strlit("client_lastconnected");
            assert("client_lastconnected"@.len() == 20 && "client_lastconnected"@[8] == 'a');
            reveal_strlit("client_country");
            assert("client_country"@.len() == 14 && "client_country"@[8] == 'o');
            reveal_strlit("connection_client_ip");
            assert("connection_client_ip"@.len() == 20 && "connection_client_ip"@[8] == 'o');
            reveal_strlit("client_badges");
            assert("client_badges"@.len() == 13);
        }
        let clid = take_int::<ClientId>(&mut data, "clid", Ghost(m), Ghost(taken))?;
        proof {
            taken = taken.insert("clid"@);
            assert(error_of(int_field::<ClientId>(m, "clid"@)) is None);
        }
        let cid = take_int::<ChannelId>(&mut data, "cid", Ghost(m), Ghost(taken))?;
        proof {
            taken = taken.insert("cid"@);
            assert(error_of(int_field::<ChannelId>(m, "cid"@)) is None);
        }
        let client_database_id = take_int::<ClientDBId>(&mut data, "client_database_id", Ghost(m), Ghost(taken))?;
        proof {
            taken = taken.insert("client_database_id"@);
            assert(error_of(int_field::<ClientDBId>(m, "client_database_id"@)) is None);
        }
        let client_nickname = take_string(&mut data, "client_nickname", Ghost(m), Ghost(taken))?;
        proof {
            taken = taken.insert("client_nickname"@);
            assert(error_of(string_field(m, "client_nickname"@)) is None);
        }
        let client_type = take_int::<i8>(&mut data, "client_type", Ghost(m), Ghost(taken))?;
        proof {
            taken = taken.insert("client_type"@);
            assert(error_of(int_field::<i8>(m, "client_type"@)) is None);
        }
        let client_away = take_bool(&mut data, "client_away", Ghost(m), Ghost(taken))?;
        proof {
            taken = taken.insert("client_away"@);
            assert(error_of(bool_field(m, "client_away"@)) is None);
        }
        let client_away_message = take_string_opt(&mut data, "client_away_message", Ghost(m), Ghost(taken))?;
        proof {
            taken = taken.insert("client_away_message"@);
            assert(error_of(string_field_opt(m, "client_away_message"@)) is None);
        }
        let client_flag_talking = take_bool(&mut data, "client_flag_talking", Ghost(m), Ghost(taken))?;
        proof {
            taken = taken.insert("client_flag_talking"@);
            assert(error_of(bool_field(m, "client_flag_talking"@)) is None);
        }
        let client_input_muted = take_bool(&mut data, "client_input_muted", Ghost(m), Ghost(taken))?;
        proof {
            taken = taken.insert("client_input_muted"@);
            assert(error_of(bool_field(m, "client_input_muted"@)) is None);
        }
        let client_output_muted = take_bool(&mut data, "client_output_muted", Ghost(m), Ghost(taken))?;
        proof {
            taken = taken.insert("client_output_muted"@);
            assert(error_of(bool_field(m, "client_output_muted"@)) is None);
        }
        let client_input_hardware = take_bool(&mut data, "client_input_hardware", Ghost(m), Ghost(taken))?;
        proof {
            taken = taken.insert("client_input_hardware"@);
            assert(error_of(bool_field(m, "client_input_hardware"@)) is None);
        }
        let client_output_hardware = take_bool(&mut data, "client_output_hardware", Ghost(m), Ghost(taken))?;
        proof {
            taken = taken.insert("client_output_hardware"@);
            assert(error_of(bool_field(m, "client_output_hardware"@)) is None);
        }
        let client_talk_power = take_int::<i32>(&mut data, "client_talk_power", Ghost(m), Ghost(taken))?;
        proof {
            taken = taken.insert("client_talk_power"@);
            assert(error_of(int_field::<i32>(m, "client_talk_power"@)) is None);
        }
        let client_is_talker = take_bool(&mut data, "client_is_talker", Ghost(m), Ghost(taken))?;
        proof {
            taken = taken.insert("client_is_talker"@);
            assert(error_of(bool_field(m, "client_is_talker"@)) is None);
        }
        let client_is_priority_speaker = take_bool(&mut data, "client_is_priority_speaker", Ghost(m), Ghost(taken))?;
        proof {
            taken = taken.insert("client_is_priority_speaker"@);
            assert(error_of(bool_field(m, "client_is_priority_speaker"@)) is None);
        }
        let client_is_recording = take_bool(&mut data, "client_is_recording", Ghost(m), Ghost(taken))?;
        proof {
            taken = taken.insert("client_is_recording"@);
            assert(error_of(bool_field(m, "client_is_recording"@)) is None);
        }
        let client_is_channel_commander = take_bool(&mut data, "client_is_channel_commander", Ghost(m), Ghost(taken))?;
        proof {
            taken = taken.insert("client_is_channel_commander"@);
            assert(error_of(bool_field(m, "client_is_channel_commander"@)) is None);
        }
        let client_unique_identifier = take_string(&mut data, "client_unique_identifier", Ghost(m), Ghost(taken))?;
        proof {
            taken = taken.insert("client_unique_identifier"@);
            assert(error_of(string_field(m, "client_unique_identifier"@)) is None);
        }
        let client_servergroups = take_int_list::<ServerGroupID>(&mut data, "client_servergroups", Ghost(m), Ghost(taken))?;
        proof {
            taken = taken.insert("client_servergroups"@);
            assert(error_of(int_list_field::<ServerGroupID>(m, "client_servergroups"@)) is None);
        }
        let client_channel_group_id = take_int::<ChannelGroupId>(&mut data, "client_channel_group_id", Ghost(m), Ghost(taken))?;
        proof {
            taken = taken.insert("client_channel_group_id"@);
            assert(error_of(int_field::<ChannelGroupId>(m, "client_channel_group_id"@)) is None);
        }
        let client_channel_group_inherited_channel_id = take_int::<ChannelGroupId>(&mut data, "client_channel_group_inherited_channel_id", Ghost(m), Ghost(taken))?;
        proof {
            taken = taken.insert("client_channel_group_inherited_channel_id"@);
            assert(error_of(int_field::<ChannelGroupId>(m, "client_channel_group_inherited_channel_id"@)) is None);
        }
        let client_version = take_string(&mut data, "client_version", Ghost(m), Ghost(taken))?;
        proof {
            taken = taken.insert("client_version"@);
            assert(error_of(string_field(m, "client_version"@)) is None);
        }
        let client_platform = take_string(&mut data, "client_platform", Ghost(m), Ghost(taken))?;
        proof {
            taken = taken.insert("client_platform"@);
            assert(error_of(string_field(m, "client_platform"@)) is None);
        }
        let client_idle_time = take_int::<i64>(&mut data, "client_idle_time", Ghost(m), Ghost(taken))?;
        proof {
            taken = taken.insert("client_idle_time"@);
            assert(error_of(int_field::<i64>(m, "client_idle_time"@)) is None);
        }
        let client_created = take_int::<i64>(&mut data, "client_created", Ghost(m), Ghost(taken))?;
        proof {
            taken = taken.insert("client_created"@);
            assert(error_of(int_field::<i64>(m, "client_created"@)) is None);
        }
        let client_lastconnected = take_int::<i64>(&mut data, "client_lastconnected", Ghost(m), Ghost(taken))?;
        proof {
            taken = taken.insert("client_lastconnected"@);
            assert(error_of(int_field::<i64>(m, "client_lastconnected"@)) is None);
        }
        let client_country = take_string(&mut data, "client_country", Ghost(m), Ghost(taken))?;
        proof {
            taken = taken.insert("client_country"@);
            assert(error_of(string_field(m, "client_country"@)) is None);
        }
        let connection_client_ip = take_string(&mut data, "connection_client_ip", Ghost(m), Ghost(taken))?;
        proof {
            taken = taken.insert("connection_client_ip"@);
            assert(error_of(string_field(m, "connection_client_ip"@)) is None);
        }
        let client_badges = take_string_opt(&mut data, "client_badges", Ghost(m), Ghost(taken))?;
        proof {
            taken = taken.insert("client_badges"@);
            assert(error_of(string_field_opt(m, "client_badges"@)) is None);
        }
        Ok(OnlineClientFull {
            clid,
            cid,
            client_database_id,
            client_nickname,
            client_type,
            client_away,
            client_away_message,
            client_flag_talking,
            client_input_muted,
            client_output_muted,
            client_input_hardware,
            client_output_hardware,
            client_talk_power,
            client_is_talker,
            client_is_priority_speaker,
            client_is_recording,
            client_is_channel_commander,
            client_unique_identifier,
            client_servergroups,
            client_channel_group_id,
            client_channel_group_inherited_channel_id,
            client_version,
            client_platform,
            client_idle_time,
            client_created,
            client_lastconnected,
            client_country,
            connection_client_ip,
            client_badges,
        })
    }
}

/// A channel, as `channellist` gives it.
#[derive(Debug)]
pub struct Channel {
    /// Channel ID
    pub cid: ChannelId,
    /// Channel parent, 0 for server
    pub pid: ChannelId,
    /// ID of the channel that this one comes after
    pub channel_order: ChannelId,
    pub channel_name: String,
    pub total_clients: i32,
    pub channel_needed_subscribe_power: i32,
}

/// The error that the reading of a `Channel` from the record `m` ends with:
/// that of the first field, in the order of the struct, that cannot be read;
/// `None` where every field can be read.
pub open spec fn channel_error(m: Map<Seq<char>, Option<Seq<char>>>) -> Option<Ts3ErrorView> {
    let e0 = error_of(int_field::<ChannelId>(m, "cid"@));
    let e1 = error_of(int_field::<ChannelId>(m, "pid"@));
    let e2 = error_of(int_field::<ChannelId>(m, "channel_order"@));
    let e3 = error_of(string_field(m, "channel_name"@));
    let e4 = error_of(int_field::<i32>(m, "total_clients"@));
    let e5 = error_of(int_field::<i32>(m, "channel_needed_subscribe_power"@));
    if e0 is Some {
        e0
    } else if e1 is Some {
        e1
    } else if e2 is Some {
        e2
    } else if e3 is Some {
        e3
    } else if e4 is Some {
        e4
    } else if e5 is Some {
        e5
    } else {
        None
    }
}

impl Channel {
    /// Every field holds what the record `m` has under the field's name.
    pub open spec fn read_from(&self, m: Map<Seq<char>, Option<Seq<char>>>) -> bool {
        &&& int_field::<ChannelId>(m, "cid"@) == Ok::<_, Ts3ErrorView>(self.cid as int)
        &&& int_field::<ChannelId>(m, "pid"@) == Ok::<_, Ts3ErrorView>(self.pid as int)
        &&& int_field::<ChannelId>(m, "channel_order"@) == Ok::<_, Ts3ErrorView>(self.channel_order as int)
        &&& string_field(m, "channel_name"@) == Ok::<_, Ts3ErrorView>(self.channel_name@)
        &&& int_field::<i32>(m, "total_clients"@) == Ok::<_, Ts3ErrorView>(self.total_clients as int)
        &&& int_field::<i32>(m, "channel_needed_subscribe_power"@) == Ok::<_, Ts3ErrorView>(self.channel_needed_subscribe_power as int)
    }

    /// Reads the channel from the fields of `data`, which was parsed without
    /// unescaping. Fields that the struct does not have are ignored.
    pub fn from_raw(data: Record) -> (r: Result<Channel, Ts3Error>)
        ensures
            match r {
                Ok(v) => v.read_from(data@),
                Err(e) => channel_error(data@) == Some(e@),
            },
    {
        let ghost m = data@;
        let ghost mut taken: Set<Seq<char>> = Set::empty();
        let mut data = data;
        proof {
            lemma_nothing_taken(m);
            // No two names are the same: they differ in length, or at one of the
            // places looked at here.
            reveal_strlit("cid");
            assert("cid"@.len() == 3 && "cid"@[0] == 'c');
            reveal_strlit("pid");
            assert("pid"@.len() == 3 && "pid"@[0] == 'p');
            reveal_strlit("channel_order");
            assert("channel_order"@.len() == 13 && "channel_order"@[0] == 'c');
            reveal_strlit("channel_name");
            assert("channel_name"@.len() == 12);
            reveal_strlit("total_clients");
            assert("total_clients"@.len() == 13 && "total_clients"@[0] == 't');
            reveal_strlit("channel_needed_subscribe_power");
            assert("channel_needed_subscribe_power"@.len() == 30);
        }
        let cid = take_int::<ChannelId>(&mut data, "cid", Ghost(m), Ghost(taken))?;
        proof {
            taken = taken.insert("cid"@);
            assert(error_of(int_field::<ChannelId>(m, "cid"@)) is None);
        }
        let pid = take_int::<ChannelId>(&mut data, "pid", Ghost(m), Ghost(taken))?;
        proof {
            taken = taken.insert("pid"@);
            assert(error_of(int_field::<ChannelId>(m, "pid"@)) is None);
        }
        let channel_order = take_int::<ChannelId>(&mut data, "channel_order", Ghost(m), Ghost(taken))?;
        proof {
            taken = taken.insert("channel_order"@);
            assert(error_of(int_field::<ChannelId>(m, "channel_order"@)) is None);
        }
        let channel_name = take_string(&mut data, "channel_name", Ghost(m), Ghost(taken))?;
        proof {
            taken = taken.insert("channel_name"@);
            assert(error_of(string_field(m, "channel_name"@)) is None);
        }
        let total_clients = take_int::<i32>(&mut data, "total_clients", Ghost(m), Ghost(taken))?;
        proof {
            taken = taken.insert("total_clients"@);
            assert(error_of(int_field::<i32>(m, "total_clients"@)) is None);
        }
        let channel_needed_subscribe_power = take_int::<i32>(&mut data, "channel_needed_subscribe_power", Ghost(m), Ghost(taken))?;
        proof {
            taken = taken.insert("channel_needed_subscribe_power"@);
            assert(error_of(int_field::<i32>(m, "channel_needed_subscribe_power"@)) is None);
        }
        Ok(Channel {
            cid,
            pid,
            channel_order,
            channel_name,
            total_clients,
            channel_needed_subscribe_power,
        })
    }
}

/// A channel, with everything that `channellist` can give of it.
#[derive(Debug)]
pub struct ChannelFull {
    /// Channel ID
    pub cid: ChannelId,
    /// Channel parent
    pub pid: ChannelId,
    /// ID of the channel that this one comes after
    pub channel_order: ChannelId,
    pub channel_name: String,
    pub total_clients: i32,
    pub channel_needed_subscribe_power: i32,
    pub channel_topic: Option<String>,
    pub channel_flag_default: bool,
    pub channel_flag_password: bool,
    pub channel_flag_permanent: bool,
    pub channel_flag_semi_permanent: bool,
    pub channel_codec: i32,
    pub channel_codec_quality: u8,
    pub channel_needed_talk_power: i32,
    pub channel_icon_id: IconHash,
    pub seconds_empty: i64,
    pub total_clients_family: i32,
    pub channel_maxclients: i32,
    pub channel_maxfamilyclients: i32,
}

/// The error that the reading of a `ChannelFull` from the record `m` ends with:
/// that of the first field, in the order of the struct, that cannot be read;
/// `None` where every field can be read.
pub open spec fn channel_full_error(m: Map<Seq<char>, Option<Seq<char>>>) -> Option<Ts3ErrorView> {
    let e0 = error_of(int_field::<ChannelId>(m, "cid"@));
    let e1 = error_of(int_field::<ChannelId>(m, "pid"@));
    let e2 = error_of(int_field::<ChannelId>(m, "channel_order"@));
    let e3 = error_of(string_field(m, "channel_name"@));
    let e4 = error_of(int_field::<i32>(m, "total_clients"@));
    let e5 = error_of(int_field::<i32>(m, "channel_needed_subscribe_power"@));
    let e6 = error_of(string_field_opt(m, "channel_topic"@));
    let e7 = error_of(bool_field(m, "channel_flag_default"@));
    let e8 = error_of(bool_field(m, "channel_flag_password"@));
    let e9 = error_of(bool_field(m, "channel_flag_permanent"@));
    let e10 = error_of(bool_field(m, "channel_flag_semi_permanent"@));
    let e11 = error_of(int_field::<i32>(m, "channel_codec"@));
    let e12 = error_of(int_field::<u8>(m, "channel_codec_quality"@));
    let e13 = error_of(int_field::<i32>(m, "channel_needed_talk_power"@));
    let e14 = error_of(int_field::<IconHash>(m, "channel_icon_id"@));
    let e15 = error_of(int_field::<i64>(m, "seconds_empty"@));
    let e16 = error_of(int_field::<i32>(m, "total_clients_family"@));
    let e17 = error_of(int_field::<i32>(m, "channel_maxclients"@));
    let e18 = error_of(int_field::<i32>(m, "channel_maxfamilyclients"@));
    if e0 is Some {
        e0
    } else if e1 is Some {
        e1
    } else if e2 is Some {
        e2
    } else if e3 is Some {
        e3
    } else if e4 is Some {
        e4
    } else if e5 is Some {
        e5
    } else if e6 is Some {
        e6
    } else if e7 is Some {
        e7
    } else if e8 is Some {
        e8
    } else if e9 is Some {
        e9
    } else if e10 is Some {
        e10
    } else if e11 is Some {
        e11
    } else if e12 is Some {
        e12
    } else if e13 is Some {
        e13
    } else if e14 is Some {
        e14
    } else if e15 is Some {
        e15
    } else if e16 is Some {
        e16
    } else if e17 is Some {
        e17
    } else if e18 is Some {
        e18
    } else {
        None
    }
}

impl ChannelFull {
    /// Every field holds what the record `m` has under the field's name.
    pub open spec fn read_from(&self, m: Map<Seq<char>, Option<Seq<char>>>) -> bool {
        &&& int_field::<ChannelId>(m, "cid"@) == Ok::<_, Ts3ErrorView>(self.cid as int)
        &&& int_field::<ChannelId>(m, "pid"@) == Ok::<_, Ts3ErrorView>(self.pid as int)
        &&& int_field::<ChannelId>(m, "channel_order"@) == Ok::<_, Ts3ErrorView>(self.channel_order as int)
        &&& string_field(m, "channel_name"@) == Ok::<_, Ts3ErrorView>(self.channel_name@)
        &&& int_field::<i32>(m, "total_clients"@) == Ok::<_, Ts3ErrorView>(self.total_clients as int)
        &&& int_field::<i32>(m, "channel_needed_subscribe_power"@) == Ok::<_, Ts3ErrorView>(self.channel_needed_subscribe_power as int)
        &&& string_field_opt(m, "channel_topic"@) == Ok::<_, Ts3ErrorView>(value_view(self.channel_topic))
        &&& bool_field(m, "channel_flag_default"@) == Ok::<_, Ts3ErrorView>(self.channel_flag_default)
        &&& bool_field(m, "channel_flag_password"@) == Ok::<_, Ts3ErrorView>(self.channel_flag_password)
        &&& bool_field(m, "channel_flag_permanent"@) == Ok::<_, Ts3ErrorView>(self.channel_flag_permanent)
        &&& bool_field(m, "channel_flag_semi_permanent"@) == Ok::<_, Ts3ErrorView>(self.channel_flag_semi_permanent)
        &&& int_field::<i32>(m, "channel_codec"@) == Ok::<_, Ts3ErrorView>(self.channel_codec as int)
        &&& int_field::<u8>(m, "channel_codec_quality"@) == Ok::<_, Ts3ErrorView>(self.channel_codec_quality as int)
        &&& int_field::<i32>(m, "channel_needed_talk_power"@) == Ok::<_, Ts3ErrorView>(self.channel_needed_talk_power as int)
        &&& int_field::<IconHash>(m, "channel_icon_id"@) == Ok::<_, Ts3ErrorView>(self.channel_icon_id as int)
        &&& int_field::<i64>(m, "seconds_empty"@) == Ok::<_, Ts3ErrorView>(self.seconds_empty as int)
        &&& int_field::<i32>(m, "total_clients_family"@) == Ok::<_, Ts3ErrorView>(self.total_clients_family as int)
        &&& int_field::<i32>(m, "channel_maxclients"@) == Ok::<_, Ts3ErrorView>(self.channel_maxclients as int)
        &&& int_field::<i32>(m, "channel_maxfamilyclients"@) == Ok::<_, Ts3ErrorView>(self.channel_maxfamilyclients as int)
    }

    /// Reads the channel from the fields of `data`, which was parsed without
    /// unescaping. Fields that the struct does not have are ignored.
    pub fn from_raw(data: Record) -> (r: Result<ChannelFull, Ts3Error>)
        ensures
            match r {
                Ok(v) => v.read_from(data@),
                Err(e) => channel_full_error(data@) == Some(e@),
            },
    {
        let ghost m = data@;
        let ghost mut taken: Set<Seq<char>> = Set::empty();
        let mut data = data;
        proof {
            lemma_nothing_taken(m);
            // No two names are the same: they differ in length, or at one of the
            // places looked at here.
            reveal_strlit("cid");
            assert("cid"@.len() == 3 && "cid"@[0] == 'c');
            reveal_strlit("pid");
            assert("pid"@.len() == 3 && "pid"@[0] == 'p');
            reveal_strlit("channel_order");
            assert("channel_order"@.len() == 13 && "channel_order"@[0] == 'c' && "channel_order"@[8] == 'o');
            reveal_strlit("channel_name");
            assert("channel_name"@.len() == 12);
            reveal_strlit("total_clients");
            assert("total_clients"@.len() == 13 && "total_clients"@[0] == 't' && "total_clients"@[8] == 'i');
            reveal_strlit("channel_needed_subscribe_power");
            assert("channel_needed_subscribe_power"@.len() == 30);
            reveal_strlit("channel_topic");
            assert("channel_topic"@.len() == 13 && "channel_topic"@[0] == 'c' && "channel_topic"@[8] == 't');
            reveal_strlit("channel_flag_default");
            assert("channel_flag_default"@.len() == 20 && "channel_flag_default"@[0] == 'c' && "channel_flag_default"@[8] == 'f');
            reveal_strlit("channel_flag_password");
            assert("channel_flag_password"@.len() == 21 && "channel_flag_password"@[0] == 'c' && "channel_flag_password"@[8] == 'f');
            reveal_strlit("channel_flag_permanent");
            assert("channel_flag_permanent"@.len() == 22);
            reveal_strlit("channel_flag_semi_permanent");
            assert("channel_flag_semi_permanent"@.len() == 27);
            reveal_strlit("channel_codec");
            assert("channel_codec"@.len() == 13 && "channel_codec"@[0] == 'c' && "channel_codec"@[8] == 'c');
            reveal_strlit("channel_codec_quality");
            assert("channel_codec_quality"@.len() == 21 && "channel_codec_quality"@[0] == 'c' && "channel_codec_quality"@[8] == 'c');
            reveal_strlit("channel_needed_talk_power");
            assert("channel_needed_talk_power"@.len() == 25);
            reveal_strlit("channel_icon_id");
            assert("channel_icon_id"@.len() == 15);
            reveal_strlit("seconds_empty");
            assert("seconds_empty"@.len() == 13 && "seconds_empty"@[0] == 's' && "seconds_empty"@[8] == 'e');
            reveal_strlit("total_clients_family");
            assert("total_clients_family"@.len() == 20 && "total_clients_family"@[0] == 't' && "total_clients_family"@[8] == 'i');
            reveal_strlit("channel_maxclients");
            assert("channel_maxclients"@.len() == 18);
            reveal_strlit("channel_maxfamilyclients");
            assert("channel_maxfamilyclients"@.len() == 24);
        }
        let cid = take_int::<ChannelId>(&mut data, "cid", Ghost(m), Ghost(taken))?;
        proof {
            taken = taken.insert("cid"@);
            assert(error_of(int_field::<ChannelId>(m, "cid"@)) is None);
        }
        let pid = take_int::<ChannelId>(&mut data, "pid", Ghost(m), Ghost(taken))?;
        proof {
            taken = taken.insert("pid"@);
            assert(error_of(int_field::<ChannelId>(m, "pid"@)) is None);
        }
        let channel_order = take_int::<ChannelId>(&mut data, "channel_order", Ghost(m), Ghost(taken))?;
        proof {
            taken = taken.insert("channel_order"@);
            assert(error_of(int_field::<ChannelId>(m, "channel_order"@)) is None);
        }
        let channel_name = take_string(&mut data, "channel_name", Ghost(m), Ghost(taken))?;
        proof {
            taken = taken.insert("channel_name"@);
            assert(error_of(string_field(m, "channel_name"@)) is None);
        }
        let total_clients = take_int::<i32>(&mut data, "total_clients", Ghost(m), Ghost(taken))?;
        proof {
            taken = taken.insert("total_clients"@);
            assert(error_of(int_field::<i32>(m, "total_clients"@)) is None);
        }
        let channel_needed_subscribe_power = take_int::<i32>(&mut data, "channel_needed_subscribe_power", Ghost(m), Ghost(taken))?;
        proof {
            taken = taken.insert("channel_needed_subscribe_power"@);
            assert(error_of(int_field::<i32>(m, "channel_needed_subscribe_power"@)) is None);
        }
        let channel_topic = take_string_opt(&mut data, "channel_topic", Ghost(m), Ghost(taken))?;
        proof {
            taken = taken.insert("channel_topic"@);
            assert(error_of(string_field_opt(m, "channel_topic"@)) is None);
        }
        let channel_flag_default = take_bool(&mut data, "channel_flag_default", Ghost(m), Ghost(taken))?;
        proof {
            taken = taken.insert("channel_flag_default"@);
            assert(error_of(bool_field(m, "channel_flag_default"@)) is None);
        }
        let channel_flag_password = take_bool(&mut data, "channel_flag_password", Ghost(m), Ghost(taken))?;
        proof {
            taken = taken.insert("channel_flag_password"@);
            assert(error_of(bool_field(m, "channel_flag_password"@)) is None);
        }
        let channel_flag_permanent = take_bool(&mut data, "channel_flag_permanent", Ghost(m), Ghost(taken))?;
        proof {
            taken = taken.insert("channel_flag_permanent"@);
            assert(error_of(bool_field(m, "channel_flag_permanent"@)) is None);
        }
        let channel_flag_semi_permanent = take_bool(&mut data, "channel_flag_semi_permanent", Ghost(m), Ghost(taken))?;
        proof {
            taken = taken.insert("channel_flag_semi_permanent"@);
            assert(error_of(bool_field(m, "channel_flag_semi_permanent"@)) is None);
        }
        let channel_codec = take_int::<i32>(&mut data, "channel_codec", Ghost(m), Ghost(taken))?;
        proof {
            taken = taken.insert("channel_codec"@);
            assert(error_of(int_field::<i32>(m, "channel_codec"@)) is None);
        }
        let channel_codec_quality = take_int::<u8>(&mut data, "channel_codec_quality", Ghost(m), Ghost(taken))?;
        proof {
            taken = taken.insert("channel_codec_quality"@);
            assert(error_of(int_field::<u8>(m, "channel_codec_quality"@)) is None);
        }
        let channel_needed_talk_power = take_int::<i32>(&mut data, "channel_needed_talk_power", Ghost(m), Ghost(taken))?;
        proof {
            taken = taken.insert("channel_needed_talk_power"@);
            assert(error_of(int_field::<i32>(m, "channel_needed_talk_power"@)) is None);
        }
        let channel_icon_id = take_int::<IconHash>(&mut data, "channel_icon_id", Ghost(m), Ghost(taken))?;
        proof {
            taken = taken.insert("channel_icon_id"@);
            assert(error_of(int_field::<IconHash>(m, "channel_icon_id"@)) is None);
        }
        let seconds_empty = take_int::<i64>(&mut data, "seconds_empty", Ghost(m), Ghost(taken))?;
        proof {
            taken = taken.insert("seconds_empty"@);
            assert(error_of(int_field::<i64>(m, "seconds_empty"@)) is None);
        }
        let total_clients_family = take_int::<i32>(&mut data, "total_clients_family", Ghost(m), Ghost(taken))?;
        proof {
            taken = taken.insert("total_clients_family"@);
            assert(error_of(int_field::<i32>(m, "total_clients_family"@)) is None);
        }
        let channel_maxclients = take_int::<i32>(&mut data, "channel_maxclients", Ghost(m), Ghost(taken))?;
        proof {
            taken = taken.insert("channel_maxclients"@);
            assert(error_of(int_field::<i32>(m, "channel_maxclients"@)) is None);
        }
        let channel_maxfamilyclients = take_int::<i32>(&mut data, "channel_maxfamilyclients", Ghost(m), Ghost(taken))?;
        proof {
            taken = taken.insert("channel_maxfamilyclients"@);
            assert(error_of(int_field::<i32>(m, "channel_maxfamilyclients"@)) is None);
        }
        Ok(ChannelFull {
            cid,
            pid,
            channel_order,
            channel_name,
            total_clients,
            channel_needed_subscribe_power,
            channel_topic,
            channel_flag_default,
            channel_flag_password,
            channel_flag_permanent,
            channel_flag_semi_permanent,
            channel_codec,
            channel_codec_quality,
            channel_needed_talk_power,
            channel_icon_id,
            seconds_empty,
            total_clients_family,
            channel_maxclients,
            channel_maxfamilyclients,
        })
    }
}

/// How long a channel lives.
#[derive(Debug, Clone, Copy, PartialEq, Eq, Structural)]
pub enum ChannelLife {
    /// The channel stays until it is deleted.
    Permanent,
    /// The channel stays until the server restarts.
    SemiPermanent,
    /// The channel goes when its last client leaves.
    Temporary,
}

/// What a channel is created or changed with. Only the name and the life are
/// always sent; every other property is sent where it is set.
#[derive(Debug)]
pub struct ChannelEdit {
    pub channel_name: String,
    pub channel_life: ChannelLife,
    pub pid: Option<ChannelId>,
    pub channel_order: Option<ChannelId>,
    pub channel_topic: Option<String>,
    pub channel_password: Option<String>,
    pub channel_maxclients: Option<i32>,
    pub channel_maxfamilyclients: Option<i32>,
    pub channel_flag_default: bool,
    pub channel_codec: Option<i32>,
    pub channel_codec_quality: Option<u8>,
    pub channel_needed_talk_power: Option<i32>,
    pub channel_icon_id: Option<IconHash>,
}

/// The argument that sets a channel's life.
pub open spec fn life_arg(life: ChannelLife) -> Seq<char> {
    match life {
        ChannelLife::Permanent => " CHANNEL_FLAG_PERMANENT=1"@,
        ChannelLife::SemiPermanent => " CHANNEL_FLAG_SEMI_PERMANENT=1"@,
        ChannelLife::Temporary => " CHANNEL_FLAG_TEMPORARY=1"@,
    }
}

/// The argument `label` with the number `v` in decimal; nothing where `v` is
/// not set.
pub open spec fn num_arg<T: FieldInt>(label: Seq<char>, v: Option<T>) -> Seq<char> {
    match v {
        Some(x) => label + signed_decimal_spec(x.as_int()),
        None => Seq::empty(),
    }
}

/// The argument `label` with the escaped text `v`; nothing where `v` is not
/// set.
pub open spec fn text_arg(label: Seq<char>, v: Option<String>) -> Seq<char> {
    match v {
        Some(x) => label + escape_spec(x@),
        None => Seq::empty(),
    }
}

/// Appends the argument `label` with the number `v`, where `v` is set.
fn push_num_arg<T: FieldInt>(out: &mut String, label: &str, v: &Option<T>)
    ensures
        final(out)@ == old(out)@ + num_arg(label@, *v),
{
    match v {
        Some(x) => {
            out.append(label);
            let parts = x.to_parts();
            push_sign_magnitude(out, parts.0, parts.1);
            proof {
                assert(old(out)@ + label@ + signed_decimal_spec(x.as_int()) == old(out)@ + (label@
                    + signed_decimal_spec(x.as_int())));
            }
        },
        None => {
            proof {
                assert(old(out)@ + Seq::<char>::empty() == old(out)@);
            }
        },
    }
}

/// Appends the argument `label` with the escaped text `v`, where `v` is set.
fn push_text_arg(out: &mut String, label: &str, v: &Option<String>)
    ensures
        final(out)@ == old(out)@ + text_arg(label@, *v),
{
    match v {
        Some(x) => {
            out.append(label);
            out.append(escape_arg(x.as_str()).as_str());
            proof {
                assert(old(out)@ + label@ + escape_spec(x@) == old(out)@ + (label@ + escape_spec(
                    x@,
                )));
            }
        },
        None => {
            proof {
                assert(old(out)@ + Seq::<char>::empty() == old(out)@);
            }
        },
    }
}

impl ChannelEdit {
    /// The arguments that `to_raw` gives.
    pub open spec fn to_raw_spec(&self) -> Seq<char> {
        " channel_name="@ + escape_spec(self.channel_name@) + life_arg(self.channel_life)
            + num_arg(" pid="@, self.pid) + num_arg(" channel_order="@, self.channel_order)
            + text_arg(" channel_topic="@, self.channel_topic) + text_arg(
            " channel_password="@,
            self.channel_password,
        ) + num_arg(" channel_maxclients="@, self.channel_maxclients) + num_arg(
            " channel_maxfamilyclients="@,
            self.channel_maxfamilyclients,
        ) + (if self.channel_flag_default {
            " CHANNEL_FLAG_DEFAULT=1"@
        } else {
            Seq::empty()
        }) + num_arg(" channel_codec="@, self.channel_codec) + num_arg(
            " channel_codec_quality="@,
            self.channel_codec_quality,
        ) + num_arg(" channel_needed_talk_power="@, self.channel_needed_talk_power) + num_arg(
            " channel_icon_id="@,
            self.channel_icon_id,
        )
    }

    /// The arguments of a command that creates or changes a channel: each
    /// starts with a space, texts are escaped.
    pub fn to_raw(&self) -> (r: String)
        ensures
            r@ == self.to_raw_spec(),
    {
        let mut result = " channel_name=".to_owned();
        result.append(escape_arg(self.channel_name.as_str()).as_str());
        match self.channel_life {
            ChannelLife::Permanent => result.append(" CHANNEL_FLAG_PERMANENT=1"),
            ChannelLife::SemiPermanent => result.append(" CHANNEL_FLAG_SEMI_PERMANENT=1"),
            ChannelLife::Temporary => result.append(" CHANNEL_FLAG_TEMPORARY=1"),
        }
        push_num_arg(&mut result, " pid=", &self.pid);
        push_num_arg(&mut result, " channel_order=", &self.channel_order);
        push_text_arg(&mut result, " channel_topic=", &self.channel_topic);
        push_text_arg(&mut result, " channel_password=", &self.channel_password);
        push_num_arg(&mut result, " channel_maxclients=", &self.channel_maxclients);
        push_num_arg(&mut result, " channel_maxfamilyclients=", &self.channel_maxfamilyclients);
        let ghost before = result@;
        if self.channel_flag_default {
            result.append(" CHANNEL_FLAG_DEFAULT=1");
        }
        proof {
            assert(before + Seq::<char>::empty() == before);
        }
        push_num_arg(&mut result, " channel_codec=", &self.channel_codec);
        push_num_arg(&mut result, " channel_codec_quality=", &self.channel_codec_quality);
        push_num_arg(&mut result, " channel_needed_talk_power=", &self.channel_needed_talk_power);
        push_num_arg(&mut result, " channel_icon_id=", &self.channel_icon_id);
        result
    }
}

} // verus!
