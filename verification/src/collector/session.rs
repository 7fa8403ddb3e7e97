//! The decisions of one Gateway scrape: from the session's state and an
//! event (a heartbeat falling due, or a decoded Gateway payload) to the next
//! state, the commands to carry out, and whether the scrape is done.
use super::error::{self, CollectorError};
use super::gateway::{
    self, channels, find_guild, merge_update, ranges_are_covered, take_ranges, ReadyEvent,
    MAX_MEMBERS, OP_DISPATCH, OP_HEARTBEAT, OP_HEARTBEAT_ACK, OP_HELLO, OP_INVALID_SESSION,
    OP_RECONNECT,
};
use super::sidebar::{self, parse_update, plan_ranges, MemberListEvent};
use crate::domain::models::{RawMember, RawMemberView};
use crate::text::{self, concat_str, decimal_string};
use std::collections::VecDeque;
use vstd::prelude::*;

verus! {

/// A decoded Gateway payload, read as the scrape reads it: `op` and `s` when
/// unsigned integers, `t` when a string, `d.heartbeat_interval` when an
/// unsigned integer, `d.guilds` as a READY event, and the whole payload as a
/// member-list event.
#[derive(Debug)]
pub struct GatewayPayload {
    pub op: Option<u64>,
    pub sequence: Option<u64>,
    pub event_name: Option<String>,
    pub heartbeat_interval: Option<u64>,
    pub ready: ReadyEvent,
    pub member_list: MemberListEvent,
}

/// What happened: the heartbeat interval elapsed, or a payload arrived.
#[derive(Debug)]
pub enum GatewayEvent {
    HeartbeatDue,
    Payload(GatewayPayload),
}

/// What the caller must do, in order.
#[derive(Debug)]
pub enum GatewayCommand {
    /// (Re)start the heartbeat timer with this period, its first tick consumed.
    StartHeartbeat { interval_ms: u64 },
    /// Send a heartbeat carrying the last sequence number.
    SendHeartbeat { sequence: Option<u64> },
    /// Send IDENTIFY with the token.
    Identify { token: String },
    /// Subscribe to the member sidebar of these channels for these ranges.
    Subscribe { guild_id: String, channel_ids: Vec<String>, ranges: Vec<(u64, u64)> },
}

/// The view of a [`GatewayCommand`].
pub enum GatewayCommandView {
    StartHeartbeat { interval_ms: u64 },
    SendHeartbeat { sequence: Option<u64> },
    Identify { token: Seq<char> },
    Subscribe { guild_id: Seq<char>, channel_ids: Seq<Seq<char>>, ranges: Seq<(u64, u64)> },
}

impl View for GatewayCommand {
    type V = GatewayCommandView;

    open spec fn view(&self) -> GatewayCommandView {
        match self {
            GatewayCommand::StartHeartbeat { interval_ms } => GatewayCommandView::StartHeartbeat {
                interval_ms: *interval_ms,
            },
            GatewayCommand::SendHeartbeat { sequence } => GatewayCommandView::SendHeartbeat {
                sequence: *sequence,
            },
            GatewayCommand::Identify { token } => GatewayCommandView::Identify { token: token@ },
            GatewayCommand::Subscribe { guild_id, channel_ids, ranges } =>
                GatewayCommandView::Subscribe {
                guild_id: guild_id@,
                channel_ids: channel_ids.deep_view(),
                ranges: ranges@,
            },
        }
    }
}

/// The views of a sequence of commands.
pub open spec fn commands_view(commands: Seq<GatewayCommand>) -> Seq<GatewayCommandView> {
    commands.map_values(|c: GatewayCommand| c@)
}

/// Whether the scrape goes on, is complete with the members found, or failed.
#[derive(Debug)]
pub enum GatewayOutcome {
    Pending,
    Complete(Vec<RawMember>),
    Failed(CollectorError),
}

/// The commands to carry out, then the outcome.
#[derive(Debug)]
pub struct GatewayStep {
    pub commands: Vec<GatewayCommand>,
    pub outcome: GatewayOutcome,
}

/// The state of one scrape.
pub struct GatewaySession {
    pub token: String,
    pub guild_id: String,
    pub sequence: Option<u64>,
    pub identified: bool,
    pub ready: bool,
    pub heartbeat_ack: bool,
    /// The planned ranges not requested yet.
    pub pending: VecDeque<(u64, u64)>,
    pub channel_ids: Vec<String>,
    /// The batch of ranges requested last.
    pub requested: Vec<(u64, u64)>,
    /// The ranges reported since that batch was requested.
    pub received: Vec<(u64, u64)>,
    /// The members found so far, one per Discord ID.
    pub members: Vec<RawMember>,
    /// All ranges planned at READY.
    pub planned: Ghost<Seq<(u64, u64)>>,
    /// How many planned ranges, from the front, were requested and reported covered.
    pub covered_count: Ghost<nat>,
}

/// The ranges covering a guild of `count` members.
pub open spec fn plan_of(count: nat) -> Seq<(u64, u64)> {
    Seq::new((count + 99) / 100, |i: int| sidebar::planned_range(count, i as nat))
}

/// The size of the next batch of `n` pending ranges.
pub open spec fn batch_len(n: nat) -> nat {
    if n < 3 {
        n
    } else {
        3
    }
}

impl GatewaySession {
    /// The session's invariant: members are unique by Discord ID; before
    /// READY nothing is requested or found; after it, the planned ranges are,
    /// from the front, the covered ones, the requested batch, and the pending ones.
    pub open spec fn wf(&self) -> bool {
        &&& sidebar::ids_unique(sidebar::raw_members_view(self.members@))
        &&& self.requested@.len() <= 3
        &&& !self.ready ==> {
            &&& self.pending@.len() == 0
            &&& self.requested@.len() == 0
            &&& self.received@.len() == 0
            &&& self.members@.len() == 0
        }
        &&& self.ready ==> {
            &&& 0 < self.channel_ids@.len() <= 5
            &&& self.covered_count@ + self.requested@.len() <= self.planned@.len()
            &&& self.requested@ == self.planned@.subrange(
                self.covered_count@ as int,
                (self.covered_count@ + self.requested@.len()) as int,
            )
            &&& self.pending@ == self.planned@.skip((self.covered_count@ + self.requested@.len()) as int)
        }
    }

    /// The scrape-related parts of two states agree.
    pub open spec fn same_scrape(&self, other: &Self) -> bool {
        &&& self.token@ == other.token@
        &&& self.guild_id@ == other.guild_id@
        &&& self.ready == other.ready
        &&& self.pending@ == other.pending@
        &&& self.channel_ids.deep_view() == other.channel_ids.deep_view()
        &&& self.requested@ == other.requested@
        &&& self.received@ == other.received@
        &&& sidebar::raw_members_view(self.members@) == sidebar::raw_members_view(other.members@)
        &&& self.planned@ == other.planned@
        &&& self.covered_count@ == other.covered_count@
    }

    /// A new scrape for the guild `guild_id`, signing in with `token`.
    pub fn new(token: String, guild_id: String) -> (s: GatewaySession)
        ensures
            s.wf(),
            s.token@ == token@,
            s.guild_id@ == guild_id@,
            s.sequence is None,
            !s.identified,
            !s.ready,
            s.heartbeat_ack,
    {
        let s = GatewaySession {
            token,
            guild_id,
            sequence: None,
            identified: false,
            ready: false,
            heartbeat_ack: true,
            pending: VecDeque::new(),
            channel_ids: Vec::new(),
            requested: Vec::new(),
            received: Vec::new(),
            members: Vec::new(),
            planned: Ghost(Seq::empty()),
            covered_count: Ghost(0),
        };
        assert(sidebar::raw_members_view(s.members@) =~= Seq::<RawMemberView>::empty());
        s
    }
}

/// A step that fails with `e` and asks for nothing.
fn failure(e: CollectorError) -> (s: GatewayStep)
    ensures
        s.commands@.len() == 0,
        s.outcome matches GatewayOutcome::Failed(f) && f == e,
{
    GatewayStep { commands: Vec::new(), outcome: GatewayOutcome::Failed(e) }
}

/// The step failed with a protocol error carrying `message`.
pub open spec fn fails_protocol(s: GatewayStep, message: Seq<char>) -> bool {
    &&& s.commands@.len() == 0
    &&& s.outcome matches GatewayOutcome::Failed(e) && error::is_protocol_error(e, message)
}

/// The step failed with a gateway error carrying `message`.
pub open spec fn fails_gateway(s: GatewayStep, message: Seq<char>) -> bool {
    &&& s.commands@.len() == 0
    &&& s.outcome matches GatewayOutcome::Failed(e) && error::is_gateway_error(e, message)
}

/// The step failed with a configuration error carrying `message`.
pub open spec fn fails_configuration(s: GatewayStep, message: Seq<char>) -> bool {
    &&& s.commands@.len() == 0
    &&& s.outcome matches GatewayOutcome::Failed(e) && error::is_configuration_error(e, message)
}

/// The step goes on and asks for nothing.
pub open spec fn quiet(s: GatewayStep) -> bool {
    s.commands@.len() == 0 && s.outcome is Pending
}

/// Everything but the scrape's progress agrees, too.
pub open spec fn rest_same(a: GatewaySession, b: GatewaySession) -> bool {
    &&& a.same_scrape(&b)
    &&& a.sequence == b.sequence
    &&& a.identified == b.identified
    &&& a.heartbeat_ack == b.heartbeat_ack
}

/// What a due heartbeat does: without an acknowledgement of the previous
/// heartbeat the scrape fails; otherwise a heartbeat goes out and waits for
/// its acknowledgement.
pub open spec fn heartbeat_spec(old: GatewaySession, new: GatewaySession, s: GatewayStep) -> bool {
    if old.heartbeat_ack {
        &&& s.outcome is Pending
        &&& commands_view(s.commands@) == seq![GatewayCommandView::SendHeartbeat { sequence: old.sequence }]
        &&& !new.heartbeat_ack
        &&& new.same_scrape(&old)
        &&& new.sequence == old.sequence
        &&& new.identified == old.identified
    } else {
        fails_gateway(s, "heartbeat was not acknowledged"@)
    }
}

/// What HELLO does: without a heartbeat interval the scrape fails; otherwise
/// the heartbeat (re)starts with that interval (at least 1 ms), and the
/// session identifies itself if it has not yet.
pub open spec fn hello_spec(old: GatewaySession, new: GatewaySession, interval: Option<u64>, s: GatewayStep) -> bool {
    match interval {
        None => fails_protocol(s, "gateway HELLO has no heartbeat interval"@),
        Some(ms) => {
            let start = GatewayCommandView::StartHeartbeat { interval_ms: if ms < 1 { 1 } else { ms } };
            &&& s.outcome is Pending
            &&& commands_view(s.commands@) == if old.identified {
                seq![start]
            } else {
                seq![start, GatewayCommandView::Identify { token: old.token@ }]
            }
            &&& new.identified
            &&& new.same_scrape(&old)
            &&& new.sequence == old.sequence
            &&& new.heartbeat_ack == old.heartbeat_ack
        },
    }
}

/// The READY event names the session's guild.
pub open spec fn has_guild(ev: ReadyEvent, guild_id: Seq<char>) -> bool {
    ev.guilds is Some && exists|i: int| gateway::is_first_guild(ev.guilds->0@, guild_id, i)
}

/// The session's guild in the READY event.
pub open spec fn ready_guild(ev: ReadyEvent, guild_id: Seq<char>) -> gateway::ReadyGuild {
    ev.guilds->0@[choose|i: int| gateway::is_first_guild(ev.guilds->0@, guild_id, i)]
}

/// The text channels of the session's guild.
pub open spec fn guild_text_channels(g: gateway::ReadyGuild) -> Seq<Seq<char>> {
    match g.channels {
        Some(cs) => gateway::text_channel_ids(cs@),
        None => seq![],
    }
}

/// What READY does (before the session is ready): it fails when the guild is
/// missing, has no member count, is too large, or has no text channel;
/// otherwise it plans the ranges of the guild's members and requests the
/// first batch, or completes at once with no members when there is none.
pub open spec fn ready_spec(old: GatewaySession, new: GatewaySession, ev: ReadyEvent, s: GatewayStep) -> bool {
    let g = old.guild_id@;
    if !has_guild(ev, g) {
        fails_protocol(s, "guild "@ + g + " not found in READY"@)
    } else {
        let guild = ready_guild(ev, g);
        match guild.member_count {
            None => fails_protocol(s, "READY guild has no member_count"@),
            Some(c) => {
                let count = c as usize;
                if count > MAX_MEMBERS {
                    fails_configuration(
                        s,
                        "guild has "@ + text::decimal_seq(count as nat) + " members, limit is 100000"@,
                    )
                } else if guild_text_channels(guild).len() == 0 {
                    fails_configuration(s, "no text channels available for member sidebar"@)
                } else {
                    let plan = plan_of(count as nat);
                    &&& new.ready
                    &&& new.channel_ids.deep_view() == gateway::first_five(guild_text_channels(guild))
                    &&& new.planned@ == plan
                    &&& new.covered_count@ == 0
                    &&& new.received@ == old.received@
                    &&& sidebar::raw_members_view(new.members@) == sidebar::raw_members_view(old.members@)
                    &&& new.token@ == old.token@
                    &&& new.guild_id@ == old.guild_id@
                    &&& new.sequence == old.sequence
                    &&& new.identified == old.identified
                    &&& new.heartbeat_ack == old.heartbeat_ack
                    &&& if plan.len() == 0 {
                        &&& s.commands@.len() == 0
                        &&& s.outcome matches GatewayOutcome::Complete(ms) && ms@.len() == 0
                    } else {
                        &&& s.outcome is Pending
                        &&& new.requested@ == plan.take(batch_len(plan.len()) as int)
                        &&& new.pending@ == plan.skip(batch_len(plan.len()) as int)
                        &&& commands_view(s.commands@) == seq![
                            GatewayCommandView::Subscribe {
                                guild_id: g,
                                channel_ids: new.channel_ids.deep_view(),
                                ranges: new.requested@,
                            },
                        ]
                    }
                }
            },
        }
    }
}

/// The ranges a member-list event reports for the session's guild.
pub open spec fn event_ranges(ev: MemberListEvent, guild_id: Seq<char>) -> Seq<(u64, u64)> {
    let d = ev.data->0;
    if d.guild_id->0@ == guild_id {
        match d.ops {
            Some(ops) => sidebar::ops_ranges(ops@),
            None => seq![],
        }
    } else {
        seq![]
    }
}

/// The members a member-list event names for the session's guild, one per
/// Discord ID.
pub open spec fn event_members(ev: MemberListEvent, guild_id: Seq<char>) -> Seq<RawMemberView> {
    let d = ev.data->0;
    if d.guild_id->0@ == guild_id {
        sidebar::upsert_all(
            seq![],
            match d.ops {
                Some(ops) => sidebar::ops_members(ops@, guild_id),
                None => seq![],
            },
        )
    } else {
        seq![]
    }
}

/// What a member-list update does (once the session is ready): it fails when
/// the event has no data or no guild ID; otherwise its members are stored and
/// its ranges recorded, and once the requested batch is covered the next
/// batch is requested, or the scrape completes with all members found when
/// no range is pending.
pub open spec fn update_spec(old: GatewaySession, new: GatewaySession, ev: MemberListEvent, s: GatewayStep) -> bool {
    let g = old.guild_id@;
    if ev.data is None {
        fails_protocol(s, "member list event has no data"@)
    } else if ev.data->0.guild_id is None {
        fails_protocol(s, "member list event has no guild_id"@)
    } else {
        let merged = sidebar::upsert_all(sidebar::raw_members_view(old.members@), event_members(ev, g));
        let received = old.received@ + event_ranges(ev, g);
        if gateway::covered(old.requested@, received) {
            if old.pending@.len() == 0 {
                &&& s.commands@.len() == 0
                &&& s.outcome matches GatewayOutcome::Complete(ms) && sidebar::raw_members_view(ms@) == merged
                &&& new.covered_count@ == old.covered_count@ + old.requested@.len()
                &&& new.planned@ == old.planned@
            } else {
                let k = batch_len(old.pending@.len());
                &&& s.outcome is Pending
                &&& new.requested@ == old.pending@.take(k as int)
                &&& new.pending@ == old.pending@.skip(k as int)
                &&& new.received@.len() == 0
                &&& new.covered_count@ == old.covered_count@ + old.requested@.len()
                &&& sidebar::raw_members_view(new.members@) == merged
                &&& new.ready
                &&& new.channel_ids.deep_view() == old.channel_ids.deep_view()
                &&& new.planned@ == old.planned@
                &&& new.token@ == old.token@
                &&& new.guild_id@ == old.guild_id@
                &&& new.sequence == old.sequence
                &&& new.identified == old.identified
                &&& new.heartbeat_ack == old.heartbeat_ack
                &&& commands_view(s.commands@) == seq![
                    GatewayCommandView::Subscribe {
                        guild_id: g,
                        channel_ids: old.channel_ids.deep_view(),
                        ranges: new.requested@,
                    },
                ]
            }
        } else {
            &&& quiet(s)
            &&& new.received@ == received
            &&& sidebar::raw_members_view(new.members@) == merged
            &&& new.ready
            &&& new.pending@ == old.pending@
            &&& new.requested@ == old.requested@
            &&& new.channel_ids.deep_view() == old.channel_ids.deep_view()
            &&& new.planned@ == old.planned@
            &&& new.covered_count@ == old.covered_count@
            &&& new.token@ == old.token@
            &&& new.guild_id@ == old.guild_id@
            &&& new.sequence == old.sequence
            &&& new.identified == old.identified
            &&& new.heartbeat_ack == old.heartbeat_ack
        }
    }
}

impl GatewaySession {
    /// Handles a due heartbeat (see `heartbeat_spec`).
    pub fn heartbeat_due(&mut self) -> (s: GatewayStep)
        requires
            old(self).wf(),
        ensures
            final(self).wf(),
            heartbeat_spec(*old(self), *final(self), s),
    {
        if !self.heartbeat_ack {
            return failure(CollectorError::Gateway("heartbeat was not acknowledged".to_owned()));
        }
        let mut commands: Vec<GatewayCommand> = Vec::new();
        commands.push(GatewayCommand::SendHeartbeat { sequence: self.sequence });
        self.heartbeat_ack = false;
        assert(commands_view(commands@) =~= seq![GatewayCommandView::SendHeartbeat { sequence: self.sequence }]);
        GatewayStep { commands, outcome: GatewayOutcome::Pending }
    }

    /// Handles HELLO (see `hello_spec`).
    fn hello(&mut self, interval: Option<u64>) -> (s: GatewayStep)
        requires
            old(self).wf(),
        ensures
            final(self).wf(),
            hello_spec(*old(self), *final(self), interval, s),
    {
        let ms = match interval {
            Some(ms) => ms,
            None => {
                return failure(
                    CollectorError::GatewayProtocol("gateway HELLO has no heartbeat interval".to_owned()),
                )
            },
        };
        let mut commands: Vec<GatewayCommand> = Vec::new();
        let period = if ms < 1 { 1 } else { ms };
        commands.push(GatewayCommand::StartHeartbeat { interval_ms: period });
        let ghost start = GatewayCommandView::StartHeartbeat { interval_ms: period };
        if !self.identified {
            commands.push(GatewayCommand::Identify { token: self.token.clone() });
            self.identified = true;
            assert(commands_view(commands@) =~= seq![start, GatewayCommandView::Identify { token: self.token@ }]);
        } else {
            assert(commands_view(commands@) =~= seq![start]);
        }
        GatewayStep { commands, outcome: GatewayOutcome::Pending }
    }

    /// Handles READY before the session is ready (see `ready_spec`).
    fn on_ready(&mut self, ev: &ReadyEvent) -> (s: GatewayStep)
        requires
            old(self).wf(),
            !old(self).ready,
        ensures
            final(self).wf(),
            ready_spec(*old(self), *final(self), *ev, s),
    {
        let ghost g = self.guild_id@;
        let guild = match find_guild(ev, self.guild_id.as_str()) {
            Ok(guild) => guild,
            Err(e) => return failure(e),
        };
        proof {
            let i = choose|i: int| gateway::is_first_guild(ev.guilds->0@, g, i) && *guild == ev.guilds->0@[i];
            let c = choose|i: int| gateway::is_first_guild(ev.guilds->0@, g, i);
            lemma_first_guild_unique(ev.guilds->0@, g, i, c);
            assert(*guild == ready_guild(*ev, g));
        }
        let count = match guild.member_count {
            Some(c) => {
                #[verifier::truncate]
                let count = c as usize;
                count
            },
            None => {
                return failure(CollectorError::GatewayProtocol("READY guild has no member_count".to_owned()))
            },
        };
        if count > MAX_MEMBERS {
            let message = concat_str(
                concat_str("guild has ", decimal_string(count as u64).as_str()).as_str(),
                " members, limit is 100000",
            );
            return failure(CollectorError::Configuration(message));
        }
        let channel_ids = match channels(guild) {
            Ok(ids) => ids,
            Err(e) => return failure(e),
        };
        let plan = plan_ranges(count);
        let mut pending: VecDeque<(u64, u64)> = VecDeque::new();
        let mut k: usize = 0;
        while k < plan.len()
            invariant
                k <= plan@.len(),
                pending@ == plan@.take(k as int),
            decreases plan@.len() - k,
        {
            pending.push_back(plan[k]);
            k = k + 1;
            assert(pending@ =~= plan@.take(k as int));
        }
        proof {
            assert(plan@.take(k as int) =~= plan@);
            assert(plan@ =~= plan_of(count as nat));
        }
        assert(channel_ids.deep_view().len() == channel_ids@.len());
        self.channel_ids = channel_ids;
        self.ready = true;
        self.planned = Ghost(plan@);
        self.covered_count = Ghost(0);
        if pending.len() == 0 {
            self.pending = pending;
            assert(self.pending@ =~= self.planned@.skip(0));
            assert(self.requested@ =~= self.planned@.subrange(0, 0));
            let done: Vec<RawMember> = Vec::new();
            return GatewayStep { commands: Vec::new(), outcome: GatewayOutcome::Complete(done) };
        }
        let requested = take_ranges(&mut pending);
        self.pending = pending;
        self.requested = requested;
        proof {
            assert(self.requested@ =~= self.planned@.subrange(0, self.requested@.len() as int));
            assert(self.pending@ =~= self.planned@.skip(self.requested@.len() as int));
        }
        let mut commands: Vec<GatewayCommand> = Vec::new();
        commands.push(
            GatewayCommand::Subscribe {
                guild_id: self.guild_id.clone(),
                channel_ids: crate::text::copy_strings(&self.channel_ids),
                ranges: copy_ranges(&self.requested),
            },
        );
        assert(commands_view(commands@) =~= seq![
            GatewayCommandView::Subscribe {
                guild_id: g,
                channel_ids: self.channel_ids.deep_view(),
                ranges: self.requested@,
            },
        ]);
        GatewayStep { commands, outcome: GatewayOutcome::Pending }
    }
}

impl GatewaySession {
    /// Handles a member-list update once the session is ready (see `update_spec`).
    fn on_member_list(&mut self, ev: &MemberListEvent) -> (s: GatewayStep)
        requires
            old(self).wf(),
            old(self).ready,
        ensures
            final(self).wf(),
            update_spec(*old(self), *final(self), *ev, s),
    {
        let ghost g = self.guild_id@;
        let update = match parse_update(ev, self.guild_id.as_str()) {
            Ok(u) => u,
            Err(e) => return failure(e),
        };
        proof {
            let d = ev.data->0;
            if d.guild_id->0@ == g {
                assert(sidebar::describes(update, d, g));
            } else {
                assert(sidebar::raw_members_view(update.members@) =~= Seq::<RawMemberView>::empty());
                assert(update.sync_ranges@ =~= Seq::<(u64, u64)>::empty());
            }
            assert(sidebar::raw_members_view(update.members@) == event_members(*ev, g));
            assert(update.sync_ranges@ == event_ranges(*ev, g));
        }
        merge_update(&mut self.members, &update);
        let ghost received_before = self.received@;
        let mut received: Vec<(u64, u64)> = Vec::new();
        std::mem::swap(&mut received, &mut self.received);
        let mut k: usize = 0;
        while k < update.sync_ranges.len()
            invariant
                k <= update.sync_ranges@.len(),
                received@ == received_before + update.sync_ranges@.take(k as int),
            decreases update.sync_ranges@.len() - k,
        {
            received.push(update.sync_ranges[k]);
            k = k + 1;
            assert(received@ =~= received_before + update.sync_ranges@.take(k as int));
        }
        assert(update.sync_ranges@.take(k as int) =~= update.sync_ranges@);
        self.received = received;
        if !ranges_are_covered(self.requested.as_slice(), self.received.as_slice()) {
            return GatewayStep { commands: Vec::new(), outcome: GatewayOutcome::Pending };
        }
        let ghost c = self.covered_count@;
        let ghost r = self.requested@.len();
        let ghost planned = self.planned@;
        self.covered_count = Ghost(c + r);
        if self.pending.len() == 0 {
            let mut found: Vec<RawMember> = Vec::new();
            std::mem::swap(&mut found, &mut self.members);
            self.requested = Vec::new();
            self.received = Vec::new();
            proof {
                assert(sidebar::raw_members_view(self.members@) =~= Seq::<RawMemberView>::empty());
                assert(self.requested@ =~= planned.subrange((c + r) as int, (c + r) as int));
                assert(self.pending@ =~= planned.skip((c + r) as int));
            }
            return GatewayStep { commands: Vec::new(), outcome: GatewayOutcome::Complete(found) };
        }
        let ghost old_pending = self.pending@;
        let next = take_ranges(&mut self.pending);
        self.requested = next;
        self.received = Vec::new();
        proof {
            let n = self.requested@.len();
            assert(self.requested@ =~= planned.subrange((c + r) as int, (c + r + n) as int));
            assert(self.pending@ =~= planned.skip((c + r + n) as int));
        }
        let mut commands: Vec<GatewayCommand> = Vec::new();
        commands.push(
            GatewayCommand::Subscribe {
                guild_id: self.guild_id.clone(),
                channel_ids: crate::text::copy_strings(&self.channel_ids),
                ranges: copy_ranges(&self.requested),
            },
        );
        assert(commands_view(commands@) =~= seq![
            GatewayCommandView::Subscribe {
                guild_id: g,
                channel_ids: self.channel_ids.deep_view(),
                ranges: self.requested@,
            },
        ]);
        GatewayStep { commands, outcome: GatewayOutcome::Pending }
    }
}

/// The session with the sequence number that a payload carries, if any.
pub open spec fn with_sequence(old: GatewaySession, p: GatewayPayload) -> GatewaySession {
    GatewaySession {
        sequence: match p.sequence {
            Some(v) => Some(v),
            None => old.sequence,
        },
        ..old
    }
}

/// What one event does. A payload without an opcode fails the scrape; any
/// other payload first records its sequence number. HELLO, READY and
/// member-list updates go as `hello_spec`, `ready_spec` and `update_spec`
/// say; a heartbeat request is answered at once; an acknowledgement is
/// noted; a reconnect request or an invalid session fails the scrape; every
/// other payload is ignored.
pub open spec fn step_spec(old: GatewaySession, new: GatewaySession, event: GatewayEvent, s: GatewayStep) -> bool {
    match event {
        GatewayEvent::HeartbeatDue => heartbeat_spec(old, new, s),
        GatewayEvent::Payload(p) => match p.op {
            None => fails_protocol(s, "gateway message has no opcode"@),
            Some(op) => {
                let mid = with_sequence(old, p);
                if op == OP_HELLO {
                    hello_spec(mid, new, p.heartbeat_interval, s)
                } else if op == OP_HEARTBEAT {
                    &&& s.outcome is Pending
                    &&& commands_view(s.commands@) == seq![GatewayCommandView::SendHeartbeat { sequence: mid.sequence }]
                    &&& rest_same(mid, new)
                } else if op == OP_HEARTBEAT_ACK {
                    &&& quiet(s)
                    &&& new.heartbeat_ack
                    &&& new.same_scrape(&mid)
                    &&& new.sequence == mid.sequence
                    &&& new.identified == mid.identified
                } else if op == OP_RECONNECT || op == OP_INVALID_SESSION {
                    fails_gateway(s, "gateway requested reconnect (opcode "@ + text::decimal_seq(op as nat) + ")"@)
                } else if op == OP_DISPATCH {
                    let name = match p.event_name {
                        Some(n) => n@,
                        None => Seq::<char>::empty(),
                    };
                    if name == "READY"@ && !old.ready {
                        ready_spec(mid, new, p.ready, s)
                    } else if name == "GUILD_MEMBER_LIST_UPDATE"@ && old.ready {
                        update_spec(mid, new, p.member_list, s)
                    } else {
                        quiet(s) && rest_same(mid, new)
                    }
                } else {
                    quiet(s) && rest_same(mid, new)
                }
            },
        },
    }
}

impl GatewaySession {
    /// Handles one event (see `step_spec`).
    pub fn step(&mut self, event: GatewayEvent) -> (s: GatewayStep)
        requires
            old(self).wf(),
        ensures
            final(self).wf(),
            step_spec(*old(self), *final(self), event, s),
    {
        let p = match event {
            GatewayEvent::HeartbeatDue => return self.heartbeat_due(),
            GatewayEvent::Payload(p) => p,
        };
        let op = match p.op {
            Some(op) => op,
            None => {
                return failure(CollectorError::GatewayProtocol("gateway message has no opcode".to_owned()))
            },
        };
        match p.sequence {
            Some(v) => {
                self.sequence = Some(v);
            },
            None => {},
        }
        if op == OP_HELLO {
            self.hello(p.heartbeat_interval)
        } else if op == OP_HEARTBEAT {
            let mut commands: Vec<GatewayCommand> = Vec::new();
            commands.push(GatewayCommand::SendHeartbeat { sequence: self.sequence });
            assert(commands_view(commands@) =~= seq![GatewayCommandView::SendHeartbeat { sequence: self.sequence }]);
            GatewayStep { commands, outcome: GatewayOutcome::Pending }
        } else if op == OP_HEARTBEAT_ACK {
            self.heartbeat_ack = true;
            GatewayStep { commands: Vec::new(), outcome: GatewayOutcome::Pending }
        } else if op == OP_RECONNECT || op == OP_INVALID_SESSION {
            let message = concat_str(
                concat_str("gateway requested reconnect (opcode ", decimal_string(op).as_str()).as_str(),
                ")",
            );
            failure(CollectorError::Gateway(message))
        } else if op == OP_DISPATCH {
            let name = match &p.event_name {
                Some(n) => n.clone(),
                None => String::new(),
            };
            if name == "READY".to_owned() && !self.ready {
                self.on_ready(&p.ready)
            } else if name == "GUILD_MEMBER_LIST_UPDATE".to_owned() && self.ready {
                self.on_member_list(&p.member_list)
            } else {
                GatewayStep { commands: Vec::new(), outcome: GatewayOutcome::Pending }
            }
        } else {
            GatewayStep { commands: Vec::new(), outcome: GatewayOutcome::Pending }
        }
    }
}

/// The session identifies itself once: on the first HELLO (opcode 10,
/// with a heartbeat interval) it starts the heartbeat and sends IDENTIFY
/// with its token; on a later HELLO it only restarts the heartbeat. A
/// reconnect request (opcode 7) or an invalid session (opcode 9) ends the
/// scrape with a gateway error.
pub proof fn lemma_identifies_once(
    s0: GatewaySession,
    s1: GatewaySession,
    s2: GatewaySession,
    p1: GatewayPayload,
    p2: GatewayPayload,
    st1: GatewayStep,
    st2: GatewayStep,
)
    requires
        !s0.identified,
        p1.op == Some(10u64),
        p1.heartbeat_interval is Some,
        p2.op == Some(10u64),
        p2.heartbeat_interval is Some,
        step_spec(s0, s1, GatewayEvent::Payload(p1), st1),
        step_spec(s1, s2, GatewayEvent::Payload(p2), st2),
    ensures
        st1.outcome is Pending,
        commands_view(st1.commands@).len() == 2,
        commands_view(st1.commands@)[1] == (GatewayCommandView::Identify { token: s0.token@ }),
        commands_view(st1.commands@)[0] is StartHeartbeat,
        st2.outcome is Pending,
        commands_view(st2.commands@).len() == 1,
        commands_view(st2.commands@)[0] is StartHeartbeat,
        s2.identified,
{
}

/// A payload with opcode 7 or 9 ends the scrape with a gateway error and
/// asks for nothing.
pub proof fn lemma_reconnect_request_fails(s0: GatewaySession, s1: GatewaySession, p: GatewayPayload, st: GatewayStep)
    requires
        p.op == Some(7u64) || p.op == Some(9u64),
        step_spec(s0, s1, GatewayEvent::Payload(p), st),
    ensures
        st.commands@.len() == 0,
        st.outcome matches GatewayOutcome::Failed(e) && e is Gateway,
{
}

/// A heartbeat acknowledgement (opcode 11) lets the next heartbeat go out:
/// whatever the session's state before it, after a payload with opcode 11
/// the scrape goes on, asks for nothing, and the next due heartbeat sends a
/// heartbeat carrying the latest sequence number (the payload's, when it has
/// one) instead of failing; that heartbeat then waits for its own
/// acknowledgement.
pub proof fn lemma_acknowledged_heartbeat_goes_out(
    s0: GatewaySession,
    s1: GatewaySession,
    s2: GatewaySession,
    p: GatewayPayload,
    ack: GatewayStep,
    beat: GatewayStep,
)
    requires
        p.op == Some(11u64),
        step_spec(s0, s1, GatewayEvent::Payload(p), ack),
        step_spec(s1, s2, GatewayEvent::HeartbeatDue, beat),
    ensures
        ack.outcome is Pending,
        ack.commands@.len() == 0,
        s1.heartbeat_ack,
        beat.outcome is Pending,
        commands_view(beat.commands@) == seq![
            GatewayCommandView::SendHeartbeat {
                sequence: match p.sequence {
                    Some(v) => Some(v),
                    None => s0.sequence,
                },
            },
        ],
        !s2.heartbeat_ack,
{
}

/// A scrape completes only once every planned range has been requested and
/// reported covered, batch by batch.
pub proof fn lemma_completion_covers_plan(
    old: GatewaySession,
    new: GatewaySession,
    event: GatewayEvent,
    s: GatewayStep,
)
    requires
        old.wf(),
        new.wf(),
        step_spec(old, new, event, s),
        s.outcome is Complete,
    ensures
        new.covered_count@ == new.planned@.len(),
{
    if let GatewayEvent::Payload(p) = event {
        let mid = with_sequence(old, p);
        assert(mid.wf());
        if mid.ready {
            assert(mid.pending@ == mid.planned@.skip((mid.covered_count@ + mid.requested@.len()) as int));
        }
    }
}

/// A copy of a list of ranges.
pub fn copy_ranges(v: &Vec<(u64, u64)>) -> (r: Vec<(u64, u64)>)
    ensures
        r@ == v@,
{
    let mut r: Vec<(u64, u64)> = Vec::new();
    let mut i: usize = 0;
    while i < v.len()
        invariant
            i <= v@.len(),
            r@ == v@.take(i as int),
        decreases v@.len() - i,
    {
        r.push(v[i]);
        i = i + 1;
        assert(r@ =~= v@.take(i as int));
    }
    assert(r@ =~= v@);
    r
}

/// The first guild with an ID is unique.
proof fn lemma_first_guild_unique(guilds: Seq<gateway::ReadyGuild>, guild_id: Seq<char>, i: int, j: int)
    requires
        gateway::is_first_guild(guilds, guild_id, i),
        gateway::is_first_guild(guilds, guild_id, j),
    ensures
        i == j,
{
    if i < j {
        assert(!((guilds[i]).id matches Some(id) && id@ == guild_id));
    } else if j < i {
        assert(!((guilds[j]).id matches Some(id) && id@ == guild_id));
    }
}

} // verus!
