use gytags_roster::collector::gateway::{ReadyChannel, ReadyEvent, ReadyGuild};
use gytags_roster::collector::session::{
    GatewayCommand, GatewayEvent, GatewayOutcome, GatewayPayload, GatewaySession,
};
use gytags_roster::collector::sidebar::{
    ListItem, ListMember, ListOperation, ListUser, MemberListData, MemberListEvent,
};
use gytags_roster::collector::{CollectorError, DiscordGateway};

fn no_ready() -> ReadyEvent {
    ReadyEvent { guilds: None }
}

fn no_list() -> MemberListEvent {
    MemberListEvent { data: None }
}

fn payload(op: u64, sequence: Option<u64>, name: Option<&str>) -> GatewayPayload {
    GatewayPayload {
        op: Some(op),
        sequence,
        event_name: name.map(str::to_owned),
        heartbeat_interval: None,
        ready: no_ready(),
        member_list: no_list(),
    }
}

fn hello(interval: u64) -> GatewayEvent {
    let mut p = payload(10, None, None);
    p.heartbeat_interval = Some(interval);
    GatewayEvent::Payload(p)
}

fn ready(guild: &str, member_count: u64, channels: Vec<(u64, &str)>) -> GatewayEvent {
    let mut p = payload(0, Some(1), Some("READY"));
    p.ready = ReadyEvent {
        guilds: Some(vec![ReadyGuild {
            id: Some(guild.to_owned()),
            member_count: Some(member_count),
            channels: Some(
                channels
                    .into_iter()
                    .map(|(kind, id)| ReadyChannel {
                        kind: Some(kind),
                        id: Some(id.to_owned()),
                    })
                    .collect(),
            ),
        }]),
    };
    GatewayEvent::Payload(p)
}

fn member(id: &str, nick: Option<&str>, roles: &[&str]) -> ListItem {
    ListItem {
        has_group: false,
        member: Some(ListMember {
            user: Some(ListUser {
                id: Some(id.to_owned()),
            }),
            nick: nick.map(str::to_owned),
            roles: Some(roles.iter().map(|r| Some((*r).to_owned())).collect()),
        }),
    }
}

fn list_update(guild: &str, range: (u64, u64), items: Vec<ListItem>) -> GatewayEvent {
    let mut p = payload(0, Some(2), Some("GUILD_MEMBER_LIST_UPDATE"));
    p.member_list = MemberListEvent {
        data: Some(MemberListData {
            guild_id: Some(guild.to_owned()),
            member_count: None,
            ops: Some(vec![ListOperation {
                op: Some("SYNC".to_owned()),
                range: Some(vec![Some(range.0), Some(range.1)]),
                items: Some(items),
            }]),
        }),
    };
    GatewayEvent::Payload(p)
}

fn session() -> GatewaySession {
    DiscordGateway::new_with_url("user-token".into(), "guild".into(), "ws://x".into())
        .start_session()
}

#[test]
fn collects_sidebar_members_from_gateway() {
    let mut s = session();
    let step = s.step(hello(60_000));
    assert!(matches!(step.outcome, GatewayOutcome::Pending));
    assert!(matches!(step.commands[0], GatewayCommand::StartHeartbeat { interval_ms: 60_000 }));
    match &step.commands[1] {
        GatewayCommand::Identify { token } => assert_eq!(token, "user-token"),
        other => panic!("unexpected {other:?}"),
    }

    let step = s.step(ready("guild", 2, vec![(0, "channel")]));
    assert!(matches!(step.outcome, GatewayOutcome::Pending));
    match &step.commands[0] {
        GatewayCommand::Subscribe {
            guild_id,
            channel_ids,
            ranges,
        } => {
            assert_eq!(guild_id, "guild");
            assert_eq!(channel_ids, &vec!["channel".to_owned()]);
            assert_eq!(ranges, &vec![(0, 1)]);
        }
        other => panic!("unexpected {other:?}"),
    }
    assert_eq!(s.sequence, Some(1));

    let step = s.step(list_update(
        "guild",
        (0, 1),
        vec![
            member("100", Some("PlayerOne"), &["guild", "role"]),
            member("101", None, &[]),
        ],
    ));
    match step.outcome {
        GatewayOutcome::Complete(members) => {
            assert_eq!(members.len(), 1);
            assert_eq!(members[0].discord_id, "100");
            assert_eq!(members[0].nickname, "PlayerOne");
            assert_eq!(members[0].role_ids, vec!["role"]);
        }
        other => panic!("unexpected {other:?}"),
    }
}

#[test]
fn requests_ranges_in_batches_of_three() {
    let mut s = session();
    s.step(hello(1000));
    let step = s.step(ready("guild", 450, vec![(2, "voice"), (5, "news"), (0, "text")]));
    match &step.commands[0] {
        GatewayCommand::Subscribe {
            channel_ids,
            ranges,
            ..
        } => {
            assert_eq!(channel_ids, &vec!["news".to_owned(), "text".to_owned()]);
            assert_eq!(ranges, &vec![(0, 99), (100, 199), (200, 299)]);
        }
        other => panic!("unexpected {other:?}"),
    }
    // A partial answer requests nothing new.
    let step = s.step(list_update("guild", (0, 199), vec![member("1", Some("A"), &[])]));
    assert!(step.commands.is_empty());
    assert!(matches!(step.outcome, GatewayOutcome::Pending));
    // Covering the batch requests the next one.
    let step = s.step(list_update("guild", (200, 299), vec![member("2", Some("B"), &[])]));
    match &step.commands[0] {
        GatewayCommand::Subscribe { ranges, .. } => {
            assert_eq!(ranges, &vec![(300, 399), (400, 449)])
        }
        other => panic!("unexpected {other:?}"),
    }
    let step = s.step(list_update("guild", (300, 449), vec![member("1", Some("A2"), &[])]));
    match step.outcome {
        GatewayOutcome::Complete(members) => {
            assert_eq!(members.len(), 2);
            let a = members.iter().find(|m| m.discord_id == "1").unwrap();
            assert_eq!(a.nickname, "A2");
        }
        other => panic!("unexpected {other:?}"),
    }
}

#[test]
fn heartbeats_wait_for_acknowledgement() {
    let mut s = session();
    s.step(hello(1000));
    let step = s.heartbeat_due();
    assert!(matches!(step.commands[0], GatewayCommand::SendHeartbeat { sequence: None }));
    let step = s.step(GatewayEvent::HeartbeatDue);
    match step.outcome {
        GatewayOutcome::Failed(CollectorError::Gateway(message)) => {
            assert_eq!(message, "heartbeat was not acknowledged")
        }
        other => panic!("unexpected {other:?}"),
    }
    let mut s = session();
    s.step(GatewayEvent::Payload(payload(11, Some(4), None)));
    let step = s.step(GatewayEvent::Payload(payload(1, None, None)));
    assert!(matches!(step.commands[0], GatewayCommand::SendHeartbeat { sequence: Some(4) }));
}

#[test]
fn identifies_only_once() {
    let mut s = session();
    assert_eq!(s.step(hello(0)).commands.len(), 2);
    let step = s.step(hello(500));
    assert_eq!(step.commands.len(), 1);
    assert!(matches!(step.commands[0], GatewayCommand::StartHeartbeat { interval_ms: 500 }));
}

#[test]
fn zero_interval_heartbeats_every_millisecond() {
    let mut s = session();
    let step = s.step(hello(0));
    assert!(matches!(step.commands[0], GatewayCommand::StartHeartbeat { interval_ms: 1 }));
}

#[test]
fn reconnect_requests_and_bad_payloads_fail() {
    let mut s = session();
    match s.step(GatewayEvent::Payload(payload(7, None, None))).outcome {
        GatewayOutcome::Failed(CollectorError::Gateway(message)) => {
            assert_eq!(message, "gateway requested reconnect (opcode 7)")
        }
        other => panic!("unexpected {other:?}"),
    }
    let mut p = payload(0, None, None);
    p.op = None;
    match s.step(GatewayEvent::Payload(p)).outcome {
        GatewayOutcome::Failed(CollectorError::GatewayProtocol(message)) => {
            assert_eq!(message, "gateway message has no opcode")
        }
        other => panic!("unexpected {other:?}"),
    }
    match s.step(GatewayEvent::Payload(payload(10, None, None))).outcome {
        GatewayOutcome::Failed(CollectorError::GatewayProtocol(message)) => {
            assert_eq!(message, "gateway HELLO has no heartbeat interval")
        }
        other => panic!("unexpected {other:?}"),
    }
}

#[test]
fn ready_errors_name_the_problem() {
    let mut s = session();
    match s.step(ready("elsewhere", 2, vec![(0, "c")])).outcome {
        GatewayOutcome::Failed(CollectorError::GatewayProtocol(message)) => {
            assert_eq!(message, "guild guild not found in READY")
        }
        other => panic!("unexpected {other:?}"),
    }
    let mut s = session();
    match s.step(ready("guild", 100_001, vec![(0, "c")])).outcome {
        GatewayOutcome::Failed(CollectorError::Configuration(message)) => {
            assert_eq!(message, "guild has 100001 members, limit is 100000")
        }
        other => panic!("unexpected {other:?}"),
    }
    let mut s = session();
    match s.step(ready("guild", 3, vec![(2, "voice")])).outcome {
        GatewayOutcome::Failed(CollectorError::Configuration(message)) => {
            assert_eq!(message, "no text channels available for member sidebar")
        }
        other => panic!("unexpected {other:?}"),
    }
}

#[test]
fn empty_guild_completes_at_ready() {
    let mut s = session();
    match s.step(ready("guild", 0, vec![(0, "c")])).outcome {
        GatewayOutcome::Complete(members) => assert!(members.is_empty()),
        other => panic!("unexpected {other:?}"),
    }
}

#[test]
fn gateway_configuration_and_snapshot_checks() {
    let gateway = DiscordGateway::new(" ".into(), "guild".into());
    match gateway.check_configuration() {
        Err(CollectorError::Configuration(message)) => {
            assert_eq!(message, "Discord token and guild ID are required")
        }
        other => panic!("unexpected {other:?}"),
    }
    let gateway = DiscordGateway::new("token".into(), "guild".into());
    assert!(gateway.check_configuration().is_ok());
    assert_eq!(
        gateway.gateway_url(),
        "wss://gateway.discord.gg/?v=9&encoding=json"
    );
    assert!(matches!(
        DiscordGateway::check_snapshot(Vec::new()),
        Err(CollectorError::SnapshotTooSmall {
            actual: 0,
            minimum: 1
        })
    ));
}
