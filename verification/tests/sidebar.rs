use gytags_roster::collector::sidebar::{
    ListItem, ListMember, ListOperation, ListUser, MEMBERS_PER_RANGE, MemberListData,
    MemberListEvent,
};
use gytags_roster::collector::{CollectorError, parse_update, plan_ranges};

fn member_item(id: &str, nick: Option<&str>, roles: &[&str]) -> ListItem {
    ListItem {
        has_group: false,
        member: Some(ListMember {
            user: Some(ListUser {
                id: Some(id.to_owned()),
            }),
            nick: nick.map(str::to_owned),
            roles: Some(roles.iter().map(|r| Some((*r).to_owned())).collect()),
        }),
    }
}

fn group_item() -> ListItem {
    ListItem {
        has_group: true,
        member: None,
    }
}

fn sync_op(range: Option<(u64, u64)>, items: Vec<ListItem>) -> ListOperation {
    ListOperation {
        op: Some("SYNC".to_owned()),
        range: range.map(|(a, b)| vec![Some(a), Some(b)]),
        items: Some(items),
    }
}

fn event(guild_id: &str, member_count: Option<u64>, ops: Vec<ListOperation>) -> MemberListEvent {
    MemberListEvent {
        data: Some(MemberListData {
            guild_id: Some(guild_id.to_owned()),
            member_count,
            ops: Some(ops),
        }),
    }
}

#[test]
fn plans_full_ranges() {
    assert_eq!(plan_ranges(550).len(), 6);
    assert_eq!(plan_ranges(550)[0], (0, 99));
    assert_eq!(plan_ranges(550)[5], (500, 549));
    assert_eq!(plan_ranges(0), Vec::new());
    assert_eq!(MEMBERS_PER_RANGE, 100);
}

#[test]
fn parses_nicknames_roles_and_skips_groups() {
    // {"d": {"guild_id": "guild", "member_count": 2, "ops": [{"op": "SYNC",
    //  "range": [0, 99], "items": [{"group": {"id": "role"}},
    //  {"member": {"user": {"id": "1"}, "nick": " Player ", "roles": ["guild", "role"]}},
    //  {"member": {"user": {"id": "2"}, "nick": null, "roles": []}}]}]}}
    let event = event(
        "guild",
        Some(2),
        vec![sync_op(
            Some((0, 99)),
            vec![
                group_item(),
                member_item("1", Some(" Player "), &["guild", "role"]),
                member_item("2", None, &[]),
            ],
        )],
    );

    let update = parse_update(&event, "guild").unwrap();
    assert_eq!(update.member_count, Some(2));
    assert_eq!(update.sync_ranges, vec![(0, 99)]);
    assert_eq!(update.members.len(), 1);
    assert_eq!(update.members[0].role_ids, vec!["role"]);
}

#[test]
fn plans_exact_and_single_ranges() {
    assert_eq!(plan_ranges(1), vec![(0, 0)]);
    assert_eq!(plan_ranges(100), vec![(0, 99)]);
    assert_eq!(plan_ranges(101), vec![(0, 99), (100, 100)]);
}

#[test]
fn updates_for_other_guilds_say_nothing() {
    let event = event(
        "other",
        Some(5),
        vec![sync_op(Some((0, 99)), vec![member_item("1", Some("Player"), &[])])],
    );
    let update = parse_update(&event, "guild").unwrap();
    assert_eq!(update.member_count, None);
    assert!(update.sync_ranges.is_empty());
    assert!(update.members.is_empty());
}

#[test]
fn events_without_data_or_guild_are_protocol_errors() {
    let missing = MemberListEvent { data: None };
    match parse_update(&missing, "guild") {
        Err(CollectorError::GatewayProtocol(message)) => {
            assert_eq!(message, "member list event has no data")
        }
        other => panic!("unexpected {other:?}"),
    }
    let no_guild = MemberListEvent {
        data: Some(MemberListData {
            guild_id: None,
            member_count: None,
            ops: None,
        }),
    };
    match parse_update(&no_guild, "guild") {
        Err(CollectorError::GatewayProtocol(message)) => {
            assert_eq!(message, "member list event has no guild_id")
        }
        other => panic!("unexpected {other:?}"),
    }
}

#[test]
fn later_items_replace_earlier_ones_and_other_ops_are_skipped() {
    let event = event(
        "guild",
        None,
        vec![
            sync_op(Some((0, 99)), vec![member_item("1", Some("Old"), &["a"])]),
            ListOperation {
                op: Some("INSERT".to_owned()),
                range: Some(vec![Some(100), Some(199)]),
                items: Some(vec![member_item("9", Some("Skipped"), &[])]),
            },
            sync_op(
                Some((100, 199)),
                vec![
                    member_item("1", Some("New"), &["b"]),
                    member_item("3", Some("   "), &[]),
                ],
            ),
            sync_op(None, vec![member_item("2", Some("Second"), &[])]),
        ],
    );
    let update = parse_update(&event, "guild").unwrap();
    assert_eq!(update.sync_ranges, vec![(0, 99), (100, 199)]);
    assert_eq!(update.members.len(), 2);
    let first = update.members.iter().find(|m| m.discord_id == "1").unwrap();
    assert_eq!(first.nickname, "New");
    assert_eq!(first.role_ids, vec!["b"]);
    assert!(update.members.iter().any(|m| m.discord_id == "2"));
}
