//! The Discord Gateway sidebar scrape, as a state machine: the caller runs
//! the websocket and the heartbeat timer, hands every event to
//! [`GatewaySession::step`], and carries out the commands it returns.
use super::error::{self, CollectorError};
use super::sidebar::{
    self, parse_update, plan_ranges, upsert_member, MemberListEvent, MemberListUpdate,
    RANGES_PER_REQUEST,
};
use crate::domain::models::{RawMember, RawMemberView};
use crate::text::{self, concat_str, decimal_string, is_blank};
use std::collections::VecDeque;
use vstd::prelude::*;

verus! {

pub const OP_DISPATCH: u64 = 0;
pub const OP_HEARTBEAT: u64 = 1;
pub const OP_IDENTIFY: u64 = 2;
pub const OP_RECONNECT: u64 = 7;
pub const OP_INVALID_SESSION: u64 = 9;
pub const OP_HELLO: u64 = 10;
pub const OP_HEARTBEAT_ACK: u64 = 11;
pub const OP_BULK_GUILD_SUBSCRIBE: u64 = 37;
pub const OP_QOS_HEARTBEAT: u64 = 40;

/// The largest guild the scrape accepts.
pub const MAX_MEMBERS: usize = 100_000;

/// The fewest nicknamed members a scrape must find.
pub const MIN_NICKED_MEMBERS: usize = 1;

/// The public Discord Gateway endpoint.
pub const GATEWAY_URL: &'static str = "wss://gateway.discord.gg/?v=9&encoding=json";

/// Takes the next batch of ranges to request: up to `RANGES_PER_REQUEST`
/// from the front of `ranges`.
pub fn take_ranges(ranges: &mut VecDeque<(u64, u64)>) -> (taken: Vec<(u64, u64)>)
    ensures
        taken@.len() == if old(ranges)@.len() < 3 { old(ranges)@.len() } else { 3 },
        taken@ == old(ranges)@.take(taken@.len() as int),
        final(ranges)@ == old(ranges)@.skip(taken@.len() as int),
{
    let ghost original = ranges@;
    let mut taken: Vec<(u64, u64)> = Vec::new();
    while taken.len() < RANGES_PER_REQUEST
        invariant
            original == old(ranges)@,
            taken@.len() <= 3,
            taken@.len() <= original.len(),
            taken@ == original.take(taken@.len() as int),
            ranges@ == original.skip(taken@.len() as int),
        decreases 3 - taken@.len(),
    {
        match ranges.pop_front() {
            Some(range) => {
                taken.push(range);
                assert(taken@ =~= original.take(taken@.len() as int));
                assert(ranges@ =~= original.skip(taken@.len() as int));
            },
            None => {
                assert(original.len() == taken@.len());
                return taken;
            },
        }
    }
    taken
}

/// `range` lies inside one of the received ranges.
pub open spec fn range_covered(range: (u64, u64), received: Seq<(u64, u64)>) -> bool {
    exists|j: int|
        #![trigger received[j]]
        0 <= j < received.len() && received[j].0 <= range.0 && received[j].1 >= range.1
}

/// Every required range lies inside one received range.
pub open spec fn covered(required: Seq<(u64, u64)>, received: Seq<(u64, u64)>) -> bool {
    forall|i: int| 0 <= i < required.len() ==> range_covered(#[trigger] required[i], received)
}

/// How coverage behaves: received ranges equal to the required ones cover
/// them, and so does one received range that spans them all (the server
/// may coalesce ranges); more received ranges never uncover anything; a
/// required range that no received range reaches to the end of is not
/// covered, and nothing is covered before anything is received (unless
/// nothing is required).
pub proof fn lemma_coverage(
    required: Seq<(u64, u64)>,
    received: Seq<(u64, u64)>,
    more: Seq<(u64, u64)>,
    span: (u64, u64),
)
    ensures
        covered(required, required),
        (forall|i: int| 0 <= i < required.len() ==> span.0 <= (#[trigger] required[i]).0 && required[i].1 <= span.1)
            ==> covered(required, seq![span]),
        covered(required, received) ==> covered(required, received + more),
        forall|i: int|
            0 <= i < required.len() && (forall|j: int| 0 <= j < received.len() ==> (#[trigger] received[j]).1
                < (#[trigger] required[i]).1) ==> !covered(required, received),
        required.len() > 0 ==> !covered(required, Seq::<(u64, u64)>::empty()),
{
    assert forall|i: int| 0 <= i < required.len() implies range_covered(#[trigger] required[i], required) by {
        assert(required[i].0 <= required[i].0);
    }
    if forall|i: int| 0 <= i < required.len() ==> span.0 <= (#[trigger] required[i]).0 && required[i].1 <= span.1 {
        assert forall|i: int| 0 <= i < required.len() implies range_covered(#[trigger] required[i], seq![span]) by {
            assert(seq![span][0] == span);
        }
    }
    if covered(required, received) {
        assert forall|i: int| 0 <= i < required.len() implies range_covered(#[trigger] required[i], received + more) by {
            assert(range_covered(required[i], received));
            let j = choose|j: int| 0 <= j < received.len() && received[j].0 <= required[i].0 && received[j].1 >= required[i].1;
            assert((received + more)[j] == received[j]);
        }
    }
    assert forall|i: int|
        0 <= i < required.len() && (forall|j: int| 0 <= j < received.len() ==> (#[trigger] received[j]).1
            < (#[trigger] required[i]).1) implies !covered(required, received) by {
        assert(!range_covered(required[i], received));
    }
    if required.len() > 0 {
        assert(!range_covered(required[0], Seq::<(u64, u64)>::empty()));
    }
}

/// Whether the server has reported every required range, each inside one
/// received range (the server may coalesce ranges).
pub fn ranges_are_covered(required: &[(u64, u64)], received: &[(u64, u64)]) -> (r: bool)
    ensures
        r == covered(required@, received@),
{
    let mut i: usize = 0;
    while i < required.len()
        invariant
            i <= required@.len(),
            forall|k: int| 0 <= k < i ==> range_covered(#[trigger] required@[k], received@),
        decreases required@.len() - i,
    {
        let need = required[i];
        let mut j: usize = 0;
        let mut found = false;
        while j < received.len()
            invariant
                i < required@.len(),
                j <= received@.len(),
                need == required@[i as int],
                found ==> range_covered(need, received@),
                !found ==> forall|m: int|
                    0 <= m < j ==> !((#[trigger] received@[m]).0 <= need.0 && received@[m].1
                        >= need.1),
            decreases received@.len() - j,
        {
            let got = received[j];
            if got.0 <= need.0 && got.1 >= need.1 {
                found = true;
            }
            j = j + 1;
        }
        if !found {
            assert(!range_covered(required@[i as int], received@));
            return false;
        }
        i = i + 1;
    }
    true
}

/// Adds the members of an update, each stored under its Discord ID.
pub fn merge_update(members: &mut Vec<RawMember>, update: &MemberListUpdate)
    requires
        sidebar::ids_unique(sidebar::raw_members_view(old(members)@)),
    ensures
        sidebar::raw_members_view(final(members)@) == sidebar::upsert_all(
            sidebar::raw_members_view(old(members)@),
            sidebar::raw_members_view(update.members@),
        ),
        sidebar::ids_unique(sidebar::raw_members_view(final(members)@)),
{
    let ghost start = sidebar::raw_members_view(members@);
    let ghost added = sidebar::raw_members_view(update.members@);
    let mut i: usize = 0;
    assert(added.take(0) =~= Seq::<RawMemberView>::empty());
    while i < update.members.len()
        invariant
            i <= update.members@.len(),
            added == sidebar::raw_members_view(update.members@),
            sidebar::raw_members_view(members@) == sidebar::upsert_all(start, added.take(i as int)),
            sidebar::ids_unique(sidebar::raw_members_view(members@)),
        decreases update.members@.len() - i,
    {
        proof {
            assert(added.take(i + 1).drop_last() =~= added.take(i as int));
            assert(added.take(i + 1).last() == added[i as int]);
        }
        let m = update.members[i].duplicate();
        upsert_member(members, m);
        i = i + 1;
    }
    assert(added.take(i as int) =~= added);
}

/// A channel of the READY guild: its `type` and `id` when present.
#[derive(Debug)]
pub struct ReadyChannel {
    pub kind: Option<u64>,
    pub id: Option<String>,
}

/// A guild of the READY event: `id`, `member_count`, and `channels` when an array.
#[derive(Debug)]
pub struct ReadyGuild {
    pub id: Option<String>,
    pub member_count: Option<u64>,
    pub channels: Option<Vec<ReadyChannel>>,
}

/// The READY event's data: its `guilds`, when an array.
#[derive(Debug)]
pub struct ReadyEvent {
    pub guilds: Option<Vec<ReadyGuild>>,
}

/// Whether `guilds[i]` is the first guild with ID `guild_id`.
pub open spec fn is_first_guild(guilds: Seq<ReadyGuild>, guild_id: Seq<char>, i: int) -> bool {
    &&& 0 <= i < guilds.len()
    &&& guilds[i].id matches Some(id) && id@ == guild_id
    &&& forall|k: int| 0 <= k < i ==> !((#[trigger] guilds[k]).id matches Some(id) && id@ == guild_id)
}

/// The guild `guild_id` of a READY event: the first one with that ID. Fails
/// with a protocol error when there is none.
pub fn find_guild<'a>(payload: &'a ReadyEvent, guild_id: &str) -> (r: Result<&'a ReadyGuild, CollectorError>)
    ensures
        r matches Ok(g) ==> payload.guilds is Some && exists|i: int|
            is_first_guild(payload.guilds->0@, guild_id@, i) && *g == payload.guilds->0@[i],
        r matches Err(e) ==> error::is_protocol_error(
            e,
            "guild "@ + guild_id@ + " not found in READY"@,
        ) && !(payload.guilds matches Some(gs) && exists|i: int| is_first_guild(gs@, guild_id@, i)),
{
    let wanted = guild_id.to_owned();
    match &payload.guilds {
        Some(guilds) => {
            let mut i: usize = 0;
            while i < guilds.len()
                invariant
                    i <= guilds@.len(),
                    wanted@ == guild_id@,
                    payload.guilds is Some,
                    payload.guilds->0@ == guilds@,
                    forall|k: int|
                        0 <= k < i ==> !((#[trigger] guilds@[k]).id matches Some(id) && id@
                            == guild_id@),
                decreases guilds@.len() - i,
            {
                let matches_id = match &guilds[i].id {
                    Some(id) => *id == wanted,
                    None => false,
                };
                if matches_id {
                    assert(is_first_guild(guilds@, guild_id@, i as int));
                    let found = &guilds[i];
                    assert(payload.guilds is Some);
                    assert(payload.guilds->0@ == guilds@);
                    assert(*found == guilds@[i as int]);
                    assert(exists|j: int| is_first_guild(payload.guilds->0@, guild_id@, j) && *found == payload.guilds->0@[j]);
                    return Ok(found);
                }
                i = i + 1;
            }
        },
        None => {},
    }
    let message = concat_str(concat_str("guild ", guild_id).as_str(), " not found in READY");
    Err(CollectorError::GatewayProtocol(message))
}

/// The IDs of the text (type 0) and announcement (type 5) channels, in order.
pub open spec fn text_channel_ids(channels: Seq<ReadyChannel>) -> Seq<Seq<char>>
    decreases channels.len(),
{
    if channels.len() == 0 {
        seq![]
    } else {
        let prev = text_channel_ids(channels.drop_last());
        let c = channels.last();
        if (c.kind == Some(0u64) || c.kind == Some(5u64)) && c.id is Some {
            prev.push(c.id->0@)
        } else {
            prev
        }
    }
}

/// At most the first five of `ids`.
pub open spec fn first_five(ids: Seq<Seq<char>>) -> Seq<Seq<char>> {
    if ids.len() <= 5 {
        ids
    } else {
        ids.take(5)
    }
}

/// The channels whose member sidebar the scrape subscribes to: the first
/// five text or announcement channels of the guild. Fails when there is none.
pub fn channels(guild: &ReadyGuild) -> (r: Result<Vec<String>, CollectorError>)
    ensures
        r matches Ok(ids) ==> ids.deep_view() == first_five(
            match guild.channels {
                Some(cs) => text_channel_ids(cs@),
                None => seq![],
            },
        ) && ids@.len() > 0,
        r matches Err(e) ==> error::is_configuration_error(
            e,
            "no text channels available for member sidebar"@,
        ) && (match guild.channels {
            Some(cs) => text_channel_ids(cs@),
            None => seq![],
        }).len() == 0,
{
    let mut ids: Vec<String> = Vec::new();
    match &guild.channels {
        Some(channels) => {
            let mut k: usize = 0;
            while k < channels.len() && ids.len() < 5
                invariant
                    k <= channels@.len(),
                    ids.deep_view() == first_five(text_channel_ids(channels@.take(k as int))),
                    ids@.len() <= 5,
                    ids@.len() < 5 ==> ids.deep_view() == text_channel_ids(channels@.take(k as int)),
                decreases channels@.len() - k,
            {
                proof {
                    assert(channels@.take(k + 1).drop_last() =~= channels@.take(k as int));
                    assert(channels@.take(k + 1).last() == channels@[k as int]);
                }
                let channel = &channels[k];
                let text_kind = channel.kind == Some(0u64) || channel.kind == Some(5u64);
                if text_kind {
                    match &channel.id {
                        Some(id) => {
                            ids.push(id.clone());
                            assert(ids.deep_view() =~= text_channel_ids(channels@.take(k + 1)));
                        },
                        None => {},
                    }
                }
                k = k + 1;
            }
            proof {
                lemma_first_five_prefix(channels@, k as int);
            }
        },
        None => {
            assert(ids.deep_view() =~= Seq::<Seq<char>>::empty());
        },
    }
    if ids.len() == 0 {
        return Err(CollectorError::Configuration("no text channels available for member sidebar".to_owned()));
    }
    Ok(ids)
}

/// The text channels of a prefix are a prefix of the text channels.
proof fn lemma_text_channels_prefix(channels: Seq<ReadyChannel>, k: int)
    requires
        0 <= k <= channels.len(),
    ensures
        text_channel_ids(channels.take(k)).is_prefix_of(text_channel_ids(channels)),
    decreases channels.len() - k,
{
    if k < channels.len() {
        lemma_text_channels_prefix(channels.drop_last(), k);
        assert(channels.drop_last().take(k) =~= channels.take(k));
        let a = text_channel_ids(channels.take(k));
        let b = text_channel_ids(channels.drop_last());
        let c = text_channel_ids(channels);
        assert(a.len() <= b.len());
        assert forall|i: int| 0 <= i < a.len() implies a[i] == c[i] by {
            assert(a[i] == b[i]);
        }
    } else {
        assert(channels.take(k) =~= channels);
    }
}

/// What the scan of the first `k` channels gives, it gives of all channels
/// once it stops.
proof fn lemma_first_five_prefix(channels: Seq<ReadyChannel>, k: int)
    requires
        0 <= k <= channels.len(),
        k == channels.len() || text_channel_ids(channels.take(k)).len() >= 5,
    ensures
        first_five(text_channel_ids(channels.take(k))) == first_five(text_channel_ids(channels)),
{
    lemma_text_channels_prefix(channels, k);
    if k == channels.len() {
        assert(channels.take(k) =~= channels);
    } else {
        let a = text_channel_ids(channels.take(k));
        let c = text_channel_ids(channels);
        assert(a.take(5) =~= c.take(5));
    }
}

/// A Discord Gateway scrape of one guild's member sidebar.
pub struct DiscordGateway {
    token: String,
    guild_id: String,
    gateway_url: String,
}

/// The view of a [`DiscordGateway`].
pub struct DiscordGatewayView {
    pub token: Seq<char>,
    pub guild_id: Seq<char>,
    pub gateway_url: Seq<char>,
}

impl View for DiscordGateway {
    type V = DiscordGatewayView;

    closed spec fn view(&self) -> DiscordGatewayView {
        DiscordGatewayView {
            token: self.token@,
            guild_id: self.guild_id@,
            gateway_url: self.gateway_url@,
        }
    }
}

impl DiscordGateway {
    /// A scrape through the public Discord Gateway.
    pub fn new(token: String, guild_id: String) -> (g: Self)
        ensures
            g@.token == token@,
            g@.guild_id == guild_id@,
            g@.gateway_url == GATEWAY_URL@,
    {
        DiscordGateway { token, guild_id, gateway_url: GATEWAY_URL.to_owned() }
    }

    /// A scrape through the Gateway at `gateway_url`.
    pub fn new_with_url(token: String, guild_id: String, gateway_url: String) -> (g: Self)
        ensures
            g@.token == token@,
            g@.guild_id == guild_id@,
            g@.gateway_url == gateway_url@,
    {
        DiscordGateway { token, guild_id, gateway_url }
    }

    /// The Gateway endpoint.
    pub fn gateway_url(&self) -> (url: &str)
        ensures
            url@ == self@.gateway_url,
    {
        self.gateway_url.as_str()
    }

    /// The guild being scraped.
    pub fn guild_id(&self) -> (id: &str)
        ensures
            id@ == self@.guild_id,
    {
        self.guild_id.as_str()
    }

    /// A scrape needs a token and a guild ID that are not blank.
    pub fn check_configuration(&self) -> (r: Result<(), CollectorError>)
        ensures
            r is Ok <==> (text::trim_seq(self@.token).len() > 0 && text::trim_seq(self@.guild_id).len() > 0),
            r matches Err(e) ==> error::is_configuration_error(e, "Discord token and guild ID are required"@),
    {
        if is_blank(self.token.as_str()) || is_blank(self.guild_id.as_str()) {
            return Err(CollectorError::Configuration("Discord token and guild ID are required".to_owned()));
        }
        Ok(())
    }

    /// The state machine of a new scrape with this gateway's token and guild.
    pub fn start_session(&self) -> (s: crate::collector::session::GatewaySession)
        ensures
            s.wf(),
            s.token@ == self@.token,
            s.guild_id@ == self@.guild_id,
            s.sequence is None,
            !s.identified,
            !s.ready,
            s.heartbeat_ack,
    {
        crate::collector::session::GatewaySession::new(self.token.clone(), self.guild_id.clone())
    }

    /// A finished scrape must have found at least `MIN_NICKED_MEMBERS` members.
    pub fn check_snapshot(members: Vec<RawMember>) -> (r: Result<Vec<RawMember>, CollectorError>)
        ensures
            members@.len() >= MIN_NICKED_MEMBERS ==> (r matches Ok(ms) && ms@ == members@),
            members@.len() < MIN_NICKED_MEMBERS ==> (r matches Err(CollectorError::SnapshotTooSmall { actual, minimum })
                && actual == members@.len() && minimum == MIN_NICKED_MEMBERS),
    {
        if members.len() < MIN_NICKED_MEMBERS {
            return Err(CollectorError::SnapshotTooSmall { actual: members.len(), minimum: MIN_NICKED_MEMBERS });
        }
        Ok(members)
    }
}

} // verus!
