use gytags_roster::collector::sync::{SnapshotDecision, minimum_snapshot_size};
use gytags_roster::collector::{
    CollectorError, apply_overrides, build_snapshot_records, decide_snapshot, override_ids,
    snapshot_size_without_overrides, snapshots_equal, validate_unique_discord_ids,
};
use gytags_roster::domain::{DomainError, MemberRecord, RawMember};
use gytags_roster::storage::MemberOverride;

fn member(discord_id: &str, nickname: &str, role_id: &str) -> RawMember {
    RawMember {
        discord_id: discord_id.into(),
        nickname: nickname.into(),
        role_ids: vec![role_id.into()],
    }
}

fn records(members: Vec<RawMember>, observed_at: i64) -> Vec<MemberRecord> {
    build_snapshot_records(members, &[], observed_at).unwrap()
}

#[test]
fn rejects_duplicate_discord_ids_and_detects_raw_nickname_changes() {
    let error = validate_unique_discord_ids(&[
        member("1", "Player", "staff"),
        member(" 1 ", "Other", "staff"),
    ])
    .unwrap_err();
    match error {
        CollectorError::Domain(DomainError::DuplicateDiscordId(id)) => assert_eq!(id, "1"),
        other => panic!("unexpected {other:?}"),
    }
    assert!(validate_unique_discord_ids(&[member("1", "a", "r"), member("2", "b", "r")]).is_ok());

    let stored = records(vec![member("1", "Player", "staff")], 1);
    let upper = records(vec![member("1", "PLAYER", "staff")], 2);
    assert!(matches!(
        decide_snapshot(&stored, upper, &[]).unwrap(),
        SnapshotDecision::Replace(_)
    ));
}

#[test]
fn skips_unchanged_snapshots_and_reports_revision() {
    let stored = records(vec![member("1", "Player", "staff")], 1);
    let same = records(vec![member("1", "Player", "staff")], 2);
    assert!(snapshots_equal(&stored, &same));
    assert!(matches!(
        decide_snapshot(&stored, same, &[]).unwrap(),
        SnapshotDecision::Unchanged
    ));
    let renamed = records(vec![member("1", "Renamed", "staff")], 2);
    assert!(matches!(
        decide_snapshot(&stored, renamed, &[]).unwrap(),
        SnapshotDecision::Replace(_)
    ));
    let upper = records(vec![member("1", "PLAYER", "staff")], 2);
    assert!(!snapshots_equal(&stored, &upper));
}

#[test]
fn snapshot_order_does_not_matter() {
    let a = records(vec![member("1", "A", "r"), member("2", "B", "r")], 1);
    let b = records(vec![member("2", "B", "r"), member("1", "A", "r")], 1);
    assert!(snapshots_equal(&a, &b));
    let c = records(vec![member("1", "A", "r")], 1);
    assert!(!snapshots_equal(&a, &c));
}

#[test]
fn rejects_snapshot_that_loses_more_than_half_of_roster() {
    let initial: Vec<RawMember> = (0..6)
        .map(|index| member(&index.to_string(), &format!("Player{index}"), "staff"))
        .collect();
    let stored = records(initial, 1);
    let partial = records(
        (0..2)
            .map(|index| member(&index.to_string(), &format!("Player{index}"), "staff"))
            .collect(),
        2,
    );
    assert!(matches!(
        decide_snapshot(&stored, partial, &[]),
        Err(CollectorError::SnapshotTooSmall {
            actual: 2,
            minimum: 3
        })
    ));
    let half = records(
        (0..3)
            .map(|index| member(&index.to_string(), &format!("Player{index}"), "staff"))
            .collect(),
        2,
    );
    assert!(matches!(
        decide_snapshot(&stored, half, &[]).unwrap(),
        SnapshotDecision::Replace(_)
    ));
}

#[test]
fn overridden_members_do_not_count_towards_the_minimum() {
    let stored = records(
        vec![member("1", "A", "r"), member("2", "B", "r"), member("3", "C", "r")],
        1,
    );
    let ids = vec!["1".to_owned(), "2".to_owned()];
    assert_eq!(snapshot_size_without_overrides(&stored, &ids), 1);
    let next = records(vec![member("1", "A", "r"), member("2", "B", "r")], 2);
    assert!(matches!(
        decide_snapshot(&stored, next, &ids),
        Err(CollectorError::SnapshotTooSmall {
            actual: 0,
            minimum: 1
        })
    ));
}

#[test]
fn minimum_is_half_rounded_up() {
    assert_eq!(minimum_snapshot_size(0), 0);
    assert_eq!(minimum_snapshot_size(1), 1);
    assert_eq!(minimum_snapshot_size(6), 3);
    assert_eq!(minimum_snapshot_size(7), 4);
    assert_eq!(minimum_snapshot_size(usize::MAX), usize::MAX / 100 + 1);
}

#[test]
fn applies_admin_overrides_to_discord_snapshots() {
    let built = records(
        vec![member("376674641676206080", "OldDiscordName", "staff")],
        5,
    );
    let overrides = vec![MemberOverride {
        discord_id: "376674641676206080".into(),
        nickname_raw: " Likholesye ".into(),
        role_ids: vec!["staff".into()],
        badges: vec!["staff".into()],
    }];
    assert_eq!(override_ids(&overrides), vec!["376674641676206080"]);
    let result = apply_overrides(built, overrides, 5).unwrap();
    assert_eq!(result.len(), 1);
    assert_eq!(result[0].discord_id, "376674641676206080");
    assert_eq!(result[0].nickname_raw, "Likholesye");
    assert_eq!(result[0].nickname_key, "likholesye");
    assert_eq!(result[0].badges, vec!["staff"]);

    let appended = apply_overrides(
        Vec::new(),
        vec![MemberOverride {
            discord_id: "9".into(),
            nickname_raw: "Nine".into(),
            role_ids: Vec::new(),
            badges: Vec::new(),
        }],
        1,
    )
    .unwrap();
    assert_eq!(appended.len(), 1);
    assert_eq!(appended[0].nickname_key, "nine");

    let refused = apply_overrides(
        Vec::new(),
        vec![MemberOverride {
            discord_id: "9".into(),
            nickname_raw: "  ".into(),
            role_ids: Vec::new(),
            badges: Vec::new(),
        }],
        1,
    );
    assert!(matches!(
        refused,
        Err(CollectorError::Domain(DomainError::EmptyNickname))
    ));
}

#[test]
fn building_records_stops_at_the_first_bad_member() {
    let error = build_snapshot_records(
        vec![member("1", "A", "r"), member("", "B", "r"), member("3", " ", "r")],
        &[],
        0,
    )
    .unwrap_err();
    assert!(matches!(
        error,
        CollectorError::Domain(DomainError::EmptyDiscordId)
    ));
}
