//! Reading a Gateway text frame: the JSON payload, and the parts of it that
//! the scrape reads.
use super::error::CollectorError;
use super::gateway::{ReadyChannel, ReadyEvent, ReadyGuild};
use super::session::GatewayPayload;
use super::sidebar::{ListItem, ListMember, ListOperation, ListUser, MemberListData, MemberListEvent};
use crate::json::{
    self, array_at, array_in, field, field_of, json_of, member_of, parse_json, str_in, string_at,
    text_matches, u64_at, u64_in, JsonValue,
};
use crate::text::concat_str;
use vstd::prelude::*;

verus! {

/// `user` is read from `v`: its `id` when a string.
pub open spec fn user_from(user: ListUser, v: JsonValue) -> bool {
    text_matches(user.id, str_in(field_of(v, "id"@)))
}

/// `roles` is read from the optional array `v`: each entry when a string.
pub open spec fn roles_from(roles: Option<Vec<Option<String>>>, v: Option<Seq<JsonValue>>) -> bool {
    match (roles, v) {
        (None, None) => true,
        (Some(rs), Some(items)) => rs@.len() == items.len() && forall|i: int|
            0 <= i < items.len() ==> text_matches(#[trigger] rs@[i], str_in(Some(items[i]))),
        _ => false,
    }
}

/// `member` is read from `v`: `user` when present, `nick` when a string,
/// `roles` when an array.
pub open spec fn member_from(member: ListMember, v: JsonValue) -> bool {
    &&& match (member.user, field_of(v, "user"@)) {
        (None, None) => true,
        (Some(u), Some(uv)) => user_from(u, uv),
        _ => false,
    }
    &&& text_matches(member.nick, str_in(field_of(v, "nick"@)))
    &&& roles_from(member.roles, array_in(field_of(v, "roles"@)))
}

/// `item` is read from `v`: whether it has a `group`, and its `member`.
pub open spec fn item_from(item: ListItem, v: JsonValue) -> bool {
    &&& item.has_group == field_of(v, "group"@) is Some
    &&& match (item.member, field_of(v, "member"@)) {
        (None, None) => true,
        (Some(m), Some(mv)) => member_from(m, mv),
        _ => false,
    }
}

/// `range` is read from the optional array `v`: each entry when an unsigned integer.
pub open spec fn range_from(range: Option<Vec<Option<u64>>>, v: Option<Seq<JsonValue>>) -> bool {
    match (range, v) {
        (None, None) => true,
        (Some(r), Some(items)) => r@.len() == items.len() && forall|i: int|
            0 <= i < items.len() ==> #[trigger] r@[i] == u64_in(Some(items[i])),
        _ => false,
    }
}

/// `items` is read from the optional array `v`, item by item.
pub open spec fn items_from(items: Option<Vec<ListItem>>, v: Option<Seq<JsonValue>>) -> bool {
    match (items, v) {
        (None, None) => true,
        (Some(its), Some(vs)) => its@.len() == vs.len() && forall|i: int|
            0 <= i < vs.len() ==> item_from(#[trigger] its@[i], vs[i]),
        _ => false,
    }
}

/// `operation` is read from `v`: `op` when a string, `range` and `items`
/// when arrays.
pub open spec fn operation_from(operation: ListOperation, v: JsonValue) -> bool {
    &&& text_matches(operation.op, str_in(field_of(v, "op"@)))
    &&& range_from(operation.range, array_in(field_of(v, "range"@)))
    &&& items_from(operation.items, array_in(field_of(v, "items"@)))
}

/// `ops` is read from the optional array `v`, operation by operation.
pub open spec fn ops_from(ops: Option<Vec<ListOperation>>, v: Option<Seq<JsonValue>>) -> bool {
    match (ops, v) {
        (None, None) => true,
        (Some(os), Some(vs)) => os@.len() == vs.len() && forall|i: int|
            0 <= i < vs.len() ==> operation_from(#[trigger] os@[i], vs[i]),
        _ => false,
    }
}

/// `data` is read from the `d` object `v`: `guild_id` when a string,
/// `member_count` when an unsigned integer, `ops` when an array.
pub open spec fn data_from(data: MemberListData, v: JsonValue) -> bool {
    &&& text_matches(data.guild_id, str_in(field_of(v, "guild_id"@)))
    &&& data.member_count == u64_in(field_of(v, "member_count"@))
    &&& ops_from(data.ops, array_in(field_of(v, "ops"@)))
}

/// `event` is read from the payload `v`: its `d` object when present.
pub open spec fn member_list_from(event: MemberListEvent, v: JsonValue) -> bool {
    match (event.data, field_of(v, "d"@)) {
        (None, None) => true,
        (Some(d), Some(dv)) => data_from(d, dv),
        _ => false,
    }
}

/// `channel` is read from `v`: its `type` when an unsigned integer, its
/// `id` when a string.
pub open spec fn channel_from(channel: ReadyChannel, v: JsonValue) -> bool {
    &&& channel.kind == u64_in(field_of(v, "type"@))
    &&& text_matches(channel.id, str_in(field_of(v, "id"@)))
}

/// `channels` is read from the optional array `v`, channel by channel.
pub open spec fn channels_from(channels: Option<Vec<ReadyChannel>>, v: Option<Seq<JsonValue>>) -> bool {
    match (channels, v) {
        (None, None) => true,
        (Some(cs), Some(vs)) => cs@.len() == vs.len() && forall|i: int|
            0 <= i < vs.len() ==> channel_from(#[trigger] cs@[i], vs[i]),
        _ => false,
    }
}

/// `guild` is read from `v`: `id` when a string, `member_count` when an
/// unsigned integer, `channels` when an array.
pub open spec fn guild_from(guild: ReadyGuild, v: JsonValue) -> bool {
    &&& text_matches(guild.id, str_in(field_of(v, "id"@)))
    &&& guild.member_count == u64_in(field_of(v, "member_count"@))
    &&& channels_from(guild.channels, array_in(field_of(v, "channels"@)))
}

/// `event` is read from the payload `v`: `d.guilds` when an array, guild by guild.
pub open spec fn ready_from(event: ReadyEvent, v: JsonValue) -> bool {
    match (event.guilds, array_in(member_of(field_of(v, "d"@), "guilds"@))) {
        (None, None) => true,
        (Some(gs), Some(vs)) => gs@.len() == vs.len() && forall|i: int|
            0 <= i < vs.len() ==> guild_from(#[trigger] gs@[i], vs[i]),
        _ => false,
    }
}

/// `p` is read from the payload `v`: `op` and `s` when unsigned integers,
/// `t` when a string, `d.heartbeat_interval` when an unsigned integer, the
/// READY guilds and the member-list data.
pub open spec fn payload_from(p: GatewayPayload, v: JsonValue) -> bool {
    &&& p.op == u64_in(field_of(v, "op"@))
    &&& p.sequence == u64_in(field_of(v, "s"@))
    &&& text_matches(p.event_name, str_in(field_of(v, "t"@)))
    &&& p.heartbeat_interval == u64_in(member_of(field_of(v, "d"@), "heartbeat_interval"@))
    &&& ready_from(p.ready, v)
    &&& member_list_from(p.member_list, v)
}

fn list_user(v: &JsonValue) -> (u: ListUser)
    ensures
        user_from(u, *v),
{
    ListUser { id: string_at(field(Some(v), "id")) }
}

fn strings(items: &Vec<JsonValue>) -> (r: Vec<Option<String>>)
    ensures
        roles_from(Some(r), Some(items@)),
{
    let mut out: Vec<Option<String>> = Vec::new();
    let mut i: usize = 0;
    while i < items.len()
        invariant
            i <= items@.len(),
            out@.len() == i,
            forall|j: int| 0 <= j < i ==> text_matches(#[trigger] out@[j], str_in(Some(items@[j]))),
        decreases items@.len() - i,
    {
        out.push(string_at(Some(&items[i])));
        i = i + 1;
    }
    out
}

fn list_member(v: &JsonValue) -> (m: ListMember)
    ensures
        member_from(m, *v),
{
    let user = match field(Some(v), "user") {
        Some(u) => Some(list_user(u)),
        None => None,
    };
    let nick = string_at(field(Some(v), "nick"));
    let roles = match array_at(field(Some(v), "roles")) {
        Some(items) => Some(strings(items)),
        None => None,
    };
    ListMember { user, nick, roles }
}

fn list_item(v: &JsonValue) -> (it: ListItem)
    ensures
        item_from(it, *v),
{
    let has_group = field(Some(v), "group").is_some();
    let member = match field(Some(v), "member") {
        Some(m) => Some(list_member(m)),
        None => None,
    };
    ListItem { has_group, member }
}

fn range_entries(items: &Vec<JsonValue>) -> (r: Vec<Option<u64>>)
    ensures
        range_from(Some(r), Some(items@)),
{
    let mut out: Vec<Option<u64>> = Vec::new();
    let mut i: usize = 0;
    while i < items.len()
        invariant
            i <= items@.len(),
            out@.len() == i,
            forall|j: int| 0 <= j < i ==> #[trigger] out@[j] == u64_in(Some(items@[j])),
        decreases items@.len() - i,
    {
        out.push(u64_at(Some(&items[i])));
        i = i + 1;
    }
    out
}

fn list_items(items: &Vec<JsonValue>) -> (r: Vec<ListItem>)
    ensures
        items_from(Some(r), Some(items@)),
{
    let mut out: Vec<ListItem> = Vec::new();
    let mut i: usize = 0;
    while i < items.len()
        invariant
            i <= items@.len(),
            out@.len() == i,
            forall|j: int| 0 <= j < i ==> item_from(#[trigger] out@[j], items@[j]),
        decreases items@.len() - i,
    {
        out.push(list_item(&items[i]));
        i = i + 1;
    }
    out
}

fn list_operation(v: &JsonValue) -> (op: ListOperation)
    ensures
        operation_from(op, *v),
{
    let name = string_at(field(Some(v), "op"));
    let range = match array_at(field(Some(v), "range")) {
        Some(items) => Some(range_entries(items)),
        None => None,
    };
    let items = match array_at(field(Some(v), "items")) {
        Some(items) => Some(list_items(items)),
        None => None,
    };
    ListOperation { op: name, range, items }
}

fn list_operations(items: &Vec<JsonValue>) -> (r: Vec<ListOperation>)
    ensures
        ops_from(Some(r), Some(items@)),
{
    let mut out: Vec<ListOperation> = Vec::new();
    let mut i: usize = 0;
    while i < items.len()
        invariant
            i <= items@.len(),
            out@.len() == i,
            forall|j: int| 0 <= j < i ==> operation_from(#[trigger] out@[j], items@[j]),
        decreases items@.len() - i,
    {
        out.push(list_operation(&items[i]));
        i = i + 1;
    }
    out
}

fn member_list_event(v: &JsonValue) -> (e: MemberListEvent)
    ensures
        member_list_from(e, *v),
{
    let data = match field(Some(v), "d") {
        Some(d) => {
            let guild_id = string_at(field(Some(d), "guild_id"));
            let member_count = u64_at(field(Some(d), "member_count"));
            let ops = match array_at(field(Some(d), "ops")) {
                Some(items) => Some(list_operations(items)),
                None => None,
            };
            Some(MemberListData { guild_id, member_count, ops })
        },
        None => None,
    };
    MemberListEvent { data }
}

fn ready_channels(items: &Vec<JsonValue>) -> (r: Vec<ReadyChannel>)
    ensures
        channels_from(Some(r), Some(items@)),
{
    let mut out: Vec<ReadyChannel> = Vec::new();
    let mut i: usize = 0;
    while i < items.len()
        invariant
            i <= items@.len(),
            out@.len() == i,
            forall|j: int| 0 <= j < i ==> channel_from(#[trigger] out@[j], items@[j]),
        decreases items@.len() - i,
    {
        let v = &items[i];
        out.push(ReadyChannel { kind: u64_at(field(Some(v), "type")), id: string_at(field(Some(v), "id")) });
        i = i + 1;
    }
    out
}

fn ready_guild(v: &JsonValue) -> (g: ReadyGuild)
    ensures
        guild_from(g, *v),
{
    let id = string_at(field(Some(v), "id"));
    let member_count = u64_at(field(Some(v), "member_count"));
    let channels = match array_at(field(Some(v), "channels")) {
        Some(items) => Some(ready_channels(items)),
        None => None,
    };
    ReadyGuild { id, member_count, channels }
}

fn ready_event(v: &JsonValue) -> (e: ReadyEvent)
    ensures
        ready_from(e, *v),
{
    let guilds = match array_at(field(field(Some(v), "d"), "guilds")) {
        Some(items) => {
            let mut out: Vec<ReadyGuild> = Vec::new();
            let mut i: usize = 0;
            while i < items.len()
                invariant
                    i <= items@.len(),
                    out@.len() == i,
                    forall|j: int| 0 <= j < i ==> guild_from(#[trigger] out@[j], items@[j]),
                decreases items@.len() - i,
            {
                out.push(ready_guild(&items[i]));
                i = i + 1;
            }
            Some(out)
        },
        None => None,
    };
    ReadyEvent { guilds }
}

/// The parts of the payload `v` that the scrape reads (see `payload_from`).
pub fn gateway_payload(v: &JsonValue) -> (p: GatewayPayload)
    ensures
        payload_from(p, *v),
{
    GatewayPayload {
        op: u64_at(field(Some(v), "op")),
        sequence: u64_at(field(Some(v), "s")),
        event_name: string_at(field(Some(v), "t")),
        heartbeat_interval: u64_at(field(field(Some(v), "d"), "heartbeat_interval")),
        ready: ready_event(v),
        member_list: member_list_event(v),
    }
}

/// Reads a Gateway text frame: its JSON payload, or a `GatewayProtocol`
/// error ("invalid gateway JSON: " and the parser's message) exactly when
/// the text is not JSON.
pub fn decode_frame(text: &str) -> (r: Result<GatewayPayload, CollectorError>)
    ensures
        r is Err <==> json_of(text@) is None,
        r matches Ok(p) ==> (json_of(text@) matches Some(v) && payload_from(p, v)),
        r matches Err(e) ==> (e matches CollectorError::GatewayProtocol(m)
            && "invalid gateway JSON: "@.is_prefix_of(m@)),
{
    match parse_json(text) {
        Ok(v) => Ok(gateway_payload(&v)),
        Err(message) => {
            let m = concat_str("invalid gateway JSON: ", message.as_str());
            proof {
                assert("invalid gateway JSON: "@.is_prefix_of(m@)) by {
                    assert(m@.take("invalid gateway JSON: "@.len() as int) =~= "invalid gateway JSON: "@);
                }
            }
            Err(CollectorError::GatewayProtocol(m))
        },
    }
}

} // verus!
