//! The guild member sidebar: which ranges to request, and what a
//! member-list update event says.
use super::error::{self, CollectorError};
use crate::domain::models::{RawMember, RawMemberView};
use crate::text::{self, is_blank};
use vstd::prelude::*;

verus! {

/// Members per requested sidebar range.
pub const MEMBERS_PER_RANGE: usize = 100;

/// Ranges per subscription request.
pub const RANGES_PER_REQUEST: usize = 3;

/// The `i`-th range of a guild with `member_count` members.
pub open spec fn planned_range(member_count: nat, i: nat) -> (u64, u64) {
    let start = 100 * i;
    let end = if start + 99 < member_count { start + 99 } else { (member_count - 1) as nat };
    (start as u64, end as u64)
}

/// The sidebar ranges covering `member_count` members: consecutive,
/// inclusive ranges of `MEMBERS_PER_RANGE` members, the last one cut at the
/// last member; none for an empty guild.
pub fn plan_ranges(member_count: usize) -> (ranges: Vec<(u64, u64)>)
    ensures
        ranges@.len() == (member_count + 99) / 100,
        forall|i: int|
            0 <= i < ranges@.len() ==> #[trigger] ranges@[i] == planned_range(
                member_count as nat,
                i as nat,
            ),
{
    let count: usize = member_count / 100 + if member_count % 100 != 0 {
        1
    } else {
        0
    };
    assert(count == (member_count + 99) / 100) by (nonlinear_arith)
        requires
            count == member_count / 100 + if member_count % 100 != 0 {
                1int
            } else {
                0int
            },
    ;
    let mut ranges: Vec<(u64, u64)> = Vec::new();
    let mut i: usize = 0;
    while i < count
        invariant
            i <= count,
            count == (member_count + 99) / 100,
            ranges@.len() == i,
            forall|k: int|
                0 <= k < i ==> #[trigger] ranges@[k] == planned_range(member_count as nat, k as nat),
        decreases count - i,
    {
        assert(100 * (i as int) < member_count) by (nonlinear_arith)
            requires
                i < count,
                count == (member_count + 99) / 100,
        ;
        let start: u128 = (i as u128) * 100;
        let last: u128 = (member_count as u128) - 1;
        let end: u128 = if start + 99 < member_count as u128 {
            start + 99
        } else {
            last
        };
        ranges.push((start as u64, end as u64));
        i = i + 1;
    }
    ranges
}

/// What one member-list update event says.
#[derive(Debug)]
pub struct MemberListUpdate {
    pub member_count: Option<usize>,
    pub sync_ranges: Vec<(u64, u64)>,
    pub members: Vec<RawMember>,
}

impl Default for MemberListUpdate {
    fn default() -> (update: Self)
        ensures
            update.member_count is None,
            update.sync_ranges@.len() == 0,
            update.members@.len() == 0,
    {
        MemberListUpdate { member_count: None, sync_ranges: Vec::new(), members: Vec::new() }
    }
}

/// The `user` object of a sidebar member: its `id`, when a string.
#[derive(Debug)]
pub struct ListUser {
    pub id: Option<String>,
}

/// The `member` object of a sidebar item: `user`, `nick` when a string, and
/// `roles` when an array (each entry when a string).
#[derive(Debug)]
pub struct ListMember {
    pub user: Option<ListUser>,
    pub nick: Option<String>,
    pub roles: Option<Vec<Option<String>>>,
}

/// An item of a sidebar operation: whether it holds a `group`, and its `member`.
#[derive(Debug)]
pub struct ListItem {
    pub has_group: bool,
    pub member: Option<ListMember>,
}

/// An operation of a member-list update: `op` when a string, `range` when an
/// array (each entry when an unsigned integer), and `items` when an array.
#[derive(Debug)]
pub struct ListOperation {
    pub op: Option<String>,
    pub range: Option<Vec<Option<u64>>>,
    pub items: Option<Vec<ListItem>>,
}

/// The `d` object of a member-list update: `guild_id` when a string,
/// `member_count` when an unsigned integer, `ops` when an array.
#[derive(Debug)]
pub struct MemberListData {
    pub guild_id: Option<String>,
    pub member_count: Option<u64>,
    pub ops: Option<Vec<ListOperation>>,
}

/// A member-list update event, with its `d` object when present.
#[derive(Debug)]
pub struct MemberListEvent {
    pub data: Option<MemberListData>,
}

/// The range an operation reports: its first two entries, when both are
/// unsigned integers.
pub open spec fn range_of(range: Option<Vec<Option<u64>>>) -> Option<(u64, u64)> {
    match range {
        Some(v) => if v@.len() >= 2 && v@[0] is Some && v@[1] is Some {
            Some((v@[0]->0, v@[1]->0))
        } else {
            None
        },
        None => None,
    }
}

/// The string roles of a member other than the guild's own (`@everyone`) role.
pub open spec fn kept_roles(roles: Seq<Option<String>>, guild_id: Seq<char>) -> Seq<Seq<char>>
    decreases roles.len(),
{
    if roles.len() == 0 {
        seq![]
    } else {
        let prev = kept_roles(roles.drop_last(), guild_id);
        match roles.last() {
            Some(r) => if r@ != guild_id {
                prev.push(r@)
            } else {
                prev
            },
            None => prev,
        }
    }
}

/// The member an item names: none for a group header, or when the user ID or
/// the nickname is missing, or the nickname is blank.
pub open spec fn item_member(item: ListItem, guild_id: Seq<char>) -> Option<RawMemberView> {
    if item.has_group {
        None
    } else {
        match item.member {
            Some(m) => match m.user {
                Some(u) => match u.id {
                    Some(id) => match m.nick {
                        Some(nick) => if text::trim_seq(nick@).len() == 0 {
                            None
                        } else {
                            Some(
                                RawMemberView {
                                    discord_id: id@,
                                    nickname: nick@,
                                    role_ids: match m.roles {
                                        Some(rs) => kept_roles(rs@, guild_id),
                                        None => seq![],
                                    },
                                },
                            )
                        },
                        None => None,
                    },
                    None => None,
                },
                None => None,
            },
            None => None,
        }
    }
}

/// The members named by a sequence of items, in order.
pub open spec fn items_members(items: Seq<ListItem>, guild_id: Seq<char>) -> Seq<RawMemberView>
    decreases items.len(),
{
    if items.len() == 0 {
        seq![]
    } else {
        let prev = items_members(items.drop_last(), guild_id);
        match item_member(items.last(), guild_id) {
            Some(m) => prev.push(m),
            None => prev,
        }
    }
}

/// Whether an operation is a `SYNC`.
pub open spec fn is_sync(op: ListOperation) -> bool {
    op.op matches Some(s) && s@ == "SYNC"@
}

/// The ranges reported by the `SYNC` operations, in order.
pub open spec fn ops_ranges(ops: Seq<ListOperation>) -> Seq<(u64, u64)>
    decreases ops.len(),
{
    if ops.len() == 0 {
        seq![]
    } else {
        let prev = ops_ranges(ops.drop_last());
        let op = ops.last();
        if is_sync(op) && range_of(op.range) is Some {
            prev.push(range_of(op.range)->0)
        } else {
            prev
        }
    }
}

/// The members named by the `SYNC` operations, in order.
pub open spec fn ops_members(ops: Seq<ListOperation>, guild_id: Seq<char>) -> Seq<RawMemberView>
    decreases ops.len(),
{
    if ops.len() == 0 {
        seq![]
    } else {
        let prev = ops_members(ops.drop_last(), guild_id);
        let op = ops.last();
        if is_sync(op) {
            match op.items {
                Some(items) => prev + items_members(items@, guild_id),
                None => prev,
            }
        } else {
            prev
        }
    }
}

/// No two members share a Discord ID.
pub open spec fn ids_unique(members: Seq<RawMemberView>) -> bool {
    forall|i: int, j: int|
        0 <= i < j < members.len() ==> (#[trigger] members[i]).discord_id
            != (#[trigger] members[j]).discord_id
}

/// `members` with `m` stored under its Discord ID: it replaces the member
/// with that ID, or is appended when there is none.
pub open spec fn upsert(members: Seq<RawMemberView>, m: RawMemberView) -> Seq<RawMemberView> {
    if exists|i: int| 0 <= i < members.len() && (#[trigger] members[i]).discord_id == m.discord_id {
        members.update(
            choose|i: int| 0 <= i < members.len() && (#[trigger] members[i]).discord_id == m.discord_id,
            m,
        )
    } else {
        members.push(m)
    }
}

/// `members` with each of `updates` stored in turn; a later member replaces
/// an earlier one with the same Discord ID.
pub open spec fn upsert_all(members: Seq<RawMemberView>, updates: Seq<RawMemberView>) -> Seq<RawMemberView>
    decreases updates.len(),
{
    if updates.len() == 0 {
        members
    } else {
        upsert(upsert_all(members, updates.drop_last()), updates.last())
    }
}

/// The views of a sequence of members.
pub open spec fn raw_members_view(members: Seq<RawMember>) -> Seq<RawMemberView> {
    members.map_values(|m: RawMember| m@)
}

/// Storing a member keeps Discord IDs unique.
pub proof fn lemma_upsert_unique(members: Seq<RawMemberView>, m: RawMemberView)
    requires
        ids_unique(members),
    ensures
        ids_unique(upsert(members, m)),
{
    if exists|i: int| 0 <= i < members.len() && (#[trigger] members[i]).discord_id == m.discord_id {
        let k = choose|i: int| 0 <= i < members.len() && (#[trigger] members[i]).discord_id == m.discord_id;
        let r = members.update(k, m);
        assert forall|i: int, j: int| 0 <= i < j < r.len() implies (#[trigger] r[i]).discord_id
            != (#[trigger] r[j]).discord_id by {
            if i == k {
                assert(members[j].discord_id != members[k].discord_id);
            } else if j == k {
                assert(members[i].discord_id != members[k].discord_id);
            } else {
                assert(members[i].discord_id != members[j].discord_id);
            }
        }
    } else {
        let r = members.push(m);
        assert forall|i: int, j: int| 0 <= i < j < r.len() implies (#[trigger] r[i]).discord_id
            != (#[trigger] r[j]).discord_id by {
            if j == members.len() {
                assert(members[i].discord_id != m.discord_id);
            } else {
                assert(members[i].discord_id != members[j].discord_id);
            }
        }
    }
}

/// Stores `m` under its Discord ID in `members`.
pub fn upsert_member(members: &mut Vec<RawMember>, m: RawMember)
    requires
        ids_unique(raw_members_view(old(members)@)),
    ensures
        raw_members_view(final(members)@) == upsert(raw_members_view(old(members)@), m@),
        ids_unique(raw_members_view(final(members)@)),
{
    let ghost before = raw_members_view(members@);
    let ghost mv = m@;
    proof {
        lemma_upsert_unique(before, mv);
    }
    let mut j: usize = 0;
    while j < members.len()
        invariant
            j <= members@.len(),
            before == raw_members_view(members@),
            before == raw_members_view(old(members)@),
            mv == m@,
            ids_unique(before),
            forall|k: int| 0 <= k < j ==> members@[k].discord_id@ != m.discord_id@,
        decreases members@.len() - j,
    {
        assert(before[j as int] == members@[j as int]@);
        let same = members[j].discord_id == m.discord_id;
        assert(same == (members@[j as int].discord_id@ == m.discord_id@));
        if same {
            proof {
                assert(before[j as int].discord_id == mv.discord_id);
                assert(exists|i: int| 0 <= i < before.len() && (#[trigger] before[i]).discord_id == mv.discord_id);
                let c = choose|i: int| 0 <= i < before.len() && (#[trigger] before[i]).discord_id == mv.discord_id;
                if c != j {
                    if c < j {
                        assert(before[c].discord_id != before[j as int].discord_id);
                    } else {
                        assert(before[j as int].discord_id != before[c].discord_id);
                    }
                }
                assert(c == j);
                assert(upsert(before, mv) == before.update(j as int, mv));
            }
            members.set(j, m);
            assert(raw_members_view(members@) =~= before.update(j as int, mv));
            return;
        }
        j = j + 1;
    }
    proof {
        assert forall|i: int| 0 <= i < before.len() implies (#[trigger] before[i]).discord_id != mv.discord_id by {
            assert(before[i].discord_id == members@[i].discord_id@);
        }
    }
    members.push(m);
    assert(raw_members_view(members@) =~= before.push(mv));
}

/// The range an operation reports, when its first two entries are unsigned integers.
fn parse_range(range: &Option<Vec<Option<u64>>>) -> (r: Option<(u64, u64)>)
    ensures
        r == range_of(*range),
{
    match range {
        Some(v) => {
            if v.len() >= 2 {
                match (v[0], v[1]) {
                    (Some(a), Some(b)) => Some((a, b)),
                    _ => None,
                }
            } else {
                None
            }
        },
        None => None,
    }
}

/// The member an item names, if any (see `item_member`).
fn parse_item(item: &ListItem, guild_id: &String) -> (r: Option<RawMember>)
    ensures
        r matches Some(m) ==> item_member(*item, guild_id@) == Some(m@),
        r is None ==> item_member(*item, guild_id@) is None,
{
    if item.has_group {
        return None;
    }
    let member = match &item.member {
        Some(m) => m,
        None => return None,
    };
    let user = match &member.user {
        Some(u) => u,
        None => return None,
    };
    let discord_id = match &user.id {
        Some(id) => id,
        None => return None,
    };
    let nickname = match &member.nick {
        Some(n) => n,
        None => return None,
    };
    if is_blank(nickname.as_str()) {
        return None;
    }
    let mut role_ids: Vec<String> = Vec::new();
    match &member.roles {
        Some(roles) => {
            let mut k: usize = 0;
            while k < roles.len()
                invariant
                    k <= roles@.len(),
                    role_ids.deep_view() == kept_roles(roles@.take(k as int), guild_id@),
                decreases roles@.len() - k,
            {
                proof {
                    assert(roles@.take(k + 1).drop_last() =~= roles@.take(k as int));
                    assert(roles@.take(k + 1).last() == roles@[k as int]);
                }
                match &roles[k] {
                    Some(role) => {
                        if !(*role == *guild_id) {
                            role_ids.push(role.clone());
                            assert(role_ids.deep_view() =~= kept_roles(roles@.take(k as int), guild_id@).push(role@));
                        }
                    },
                    None => {},
                }
                k = k + 1;
            }
            assert(roles@.take(k as int) =~= roles@);
        },
        None => {
            assert(role_ids.deep_view() =~= Seq::<Seq<char>>::empty());
        },
    }
    Some(RawMember { discord_id: discord_id.clone(), nickname: nickname.clone(), role_ids })
}

/// The update for guild `guild_id` that `data` describes: its member count,
/// the ranges of its `SYNC` operations, and the members those name, one per
/// Discord ID.
pub open spec fn describes(u: MemberListUpdate, data: MemberListData, guild_id: Seq<char>) -> bool {
    &&& u.member_count == (match data.member_count {
        Some(c) => Some(c as usize),
        None => None,
    })
    &&& u.sync_ranges@ == (match data.ops {
        Some(ops) => ops_ranges(ops@),
        None => seq![],
    })
    &&& raw_members_view(u.members@) == upsert_all(
        seq![],
        match data.ops {
            Some(ops) => ops_members(ops@, guild_id),
            None => seq![],
        },
    )
    &&& ids_unique(raw_members_view(u.members@))
}

/// Reads a member-list update for guild `guild_id`. An event without data or
/// without a guild ID is a protocol error; an event for another guild says
/// nothing. Otherwise the update carries the event's member count, the ranges
/// of its `SYNC` operations, and the members those operations name, one per
/// Discord ID (a later item replaces an earlier one).
pub fn parse_update(event: &MemberListEvent, guild_id: &str) -> (r: Result<MemberListUpdate, CollectorError>)
    ensures
        event.data is None ==> (r matches Err(e) && error::is_protocol_error(e, "member list event has no data"@)),
        event.data is Some && event.data->0.guild_id is None ==> (r matches Err(e)
            && error::is_protocol_error(e, "member list event has no guild_id"@)),
        event.data is Some && event.data->0.guild_id is Some && event.data->0.guild_id->0@ != guild_id@
            ==> (r matches Ok(u) && u.member_count is None && u.sync_ranges@.len() == 0
            && u.members@.len() == 0),
        event.data is Some && event.data->0.guild_id is Some && event.data->0.guild_id->0@ == guild_id@
            ==> (r matches Ok(u) && describes(u, event.data->0, guild_id@)),
{
    let data = match &event.data {
        Some(d) => d,
        None => return Err(CollectorError::GatewayProtocol("member list event has no data".to_owned())),
    };
    let event_guild_id = match &data.guild_id {
        Some(g) => g,
        None => return Err(CollectorError::GatewayProtocol("member list event has no guild_id".to_owned())),
    };
    let guild = guild_id.to_owned();
    if *event_guild_id != guild {
        return Ok(MemberListUpdate::default());
    }
    let member_count = match data.member_count {
        Some(c) => {
            #[verifier::truncate]
            let count = c as usize;
            Some(count)
        },
        None => None,
    };
    let mut sync_ranges: Vec<(u64, u64)> = Vec::new();
    let mut members: Vec<RawMember> = Vec::new();
    let sync = "SYNC".to_owned();
    proof {
        assert(upsert_all(seq![], seq![]) =~= Seq::<RawMemberView>::empty());
        assert(raw_members_view(members@) =~= Seq::<RawMemberView>::empty());
    }
    match &data.ops {
        Some(ops) => {
            let mut k: usize = 0;
            while k < ops.len()
                invariant
                    k <= ops@.len(),
                    guild@ == guild_id@,
                    sync@ == "SYNC"@,
                    sync_ranges@ == ops_ranges(ops@.take(k as int)),
                    raw_members_view(members@) == upsert_all(seq![], ops_members(ops@.take(k as int), guild@)),
                    ids_unique(raw_members_view(members@)),
                decreases ops@.len() - k,
            {
                let op = &ops[k];
                let ghost pre = ops@.take(k as int);
                proof {
                    assert(ops@.take(k + 1).drop_last() =~= pre);
                    assert(ops@.take(k + 1).last() == ops@[k as int]);
                }
                let is_sync_op = match &op.op {
                    Some(s) => *s == sync,
                    None => false,
                };
                if is_sync_op {
                    match parse_range(&op.range) {
                        Some(range) => sync_ranges.push(range),
                        None => {},
                    }
                    match &op.items {
                        Some(items) => {
                            let ghost start = ops_members(pre, guild@);
                            let mut t: usize = 0;
                            while t < items.len()
                                invariant
                                    t <= items@.len(),
                                    raw_members_view(members@) == upsert_all(
                                        seq![],
                                        start + items_members(items@.take(t as int), guild@),
                                    ),
                                    ids_unique(raw_members_view(members@)),
                                decreases items@.len() - t,
                            {
                                let ghost done = start + items_members(items@.take(t as int), guild@);
                                proof {
                                    assert(items@.take(t + 1).drop_last() =~= items@.take(t as int));
                                    assert(items@.take(t + 1).last() == items@[t as int]);
                                }
                                match parse_item(&items[t], &guild) {
                                    Some(m) => {
                                        let ghost mv = m@;
                                        upsert_member(&mut members, m);
                                        proof {
                                            let next = start + items_members(items@.take(t + 1), guild@);
                                            assert(next =~= done.push(mv));
                                            assert(next.drop_last() =~= done);
                                        }
                                    },
                                    None => {
                                        assert(start + items_members(items@.take(t + 1), guild@) =~= done);
                                    },
                                }
                                t = t + 1;
                            }
                            assert(items@.take(t as int) =~= items@);
                        },
                        None => {},
                    }
                }
                k = k + 1;
            }
            assert(ops@.take(k as int) =~= ops@);
        },
        None => {},
    }
    Ok(MemberListUpdate { member_count, sync_ranges, members })
}

/// The planned ranges cover the members `0..member_count` exactly, in order:
/// the first starts at 0, each starts right after the previous one ends,
/// the last ends at the last member, and none spans more than
/// `MEMBERS_PER_RANGE` members.
pub proof fn lemma_plan_partitions_members(member_count: nat)
    requires
        member_count <= usize::MAX,
    ensures
        member_count > 0 ==> planned_range(member_count, 0).0 == 0 && planned_range(
            member_count,
            ((member_count + 99) / 100 - 1) as nat,
        ).1 == member_count - 1,
        forall|i: nat|
            i + 1 < (member_count + 99) / 100 ==> (#[trigger] planned_range(member_count, i + 1)).0
                == planned_range(member_count, i).1 + 1,
        forall|i: nat|
            i < (member_count + 99) / 100 ==> (#[trigger] planned_range(member_count, i)).0
                <= planned_range(member_count, i).1 && planned_range(member_count, i).1
                - planned_range(member_count, i).0 < 100,
{
    let n = (member_count + 99) / 100;
    assert forall|i: nat| i < n implies (#[trigger] planned_range(member_count, i)).0
        <= planned_range(member_count, i).1 && planned_range(member_count, i).1
        - planned_range(member_count, i).0 < 100 by {
        assert(100 * i < member_count) by (nonlinear_arith)
            requires
                i < n,
                n == (member_count + 99) / 100,
        ;
    }
    assert forall|i: nat| i + 1 < n implies (#[trigger] planned_range(member_count, i + 1)).0
        == planned_range(member_count, i).1 + 1 by {
        assert(100 * (i + 1) < member_count) by (nonlinear_arith)
            requires
                i + 1 < n,
                n == (member_count + 99) / 100,
        ;
    }
    if member_count > 0 {
        let last = (n - 1) as nat;
        assert(100 * last + 99 >= member_count - 1) by (nonlinear_arith)
            requires
                last + 1 == n,
                n == (member_count + 99) / 100,
                member_count > 0,
        ;
        assert(n > 0) by (nonlinear_arith)
            requires
                n == (member_count + 99) / 100,
                member_count > 0,
        ;
    }
}

/// After a member is stored, the stored members hold it, under its Discord ID.
pub proof fn lemma_upsert_holds(members: Seq<RawMemberView>, m: RawMemberView)
    ensures
        upsert(members, m).contains(m),
        upsert(members, m).len() == members.len() || upsert(members, m).len() == members.len() + 1,
{
    if exists|i: int| 0 <= i < members.len() && (#[trigger] members[i]).discord_id == m.discord_id {
        let k = choose|i: int| 0 <= i < members.len() && (#[trigger] members[i]).discord_id == m.discord_id;
        assert(members.update(k, m)[k] == m);
    } else {
        assert(members.push(m)[members.len() as int] == m);
    }
}

} // verus!
