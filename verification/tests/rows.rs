use gytags_roster::domain::MemberRecord;
use gytags_roster::storage::{
    StorageError, member_override_from_row, member_record_from_row, member_row_lists,
};

fn record() -> MemberRecord {
    MemberRecord {
        discord_id: "42".to_owned(),
        nickname_raw: "Royalty72".to_owned(),
        nickname_key: "royalty72".to_owned(),
        role_ids: vec!["r1".to_owned(), "r\"2".to_owned()],
        badges: vec!["academ".to_owned()],
        observed_at: 1_700_000_000,
    }
}

#[test]
fn stored_lists_are_json_arrays() {
    let (roles, badges) = member_row_lists(&record()).expect("lists encode");
    assert_eq!(roles, r#"["r1","r\"2"]"#);
    assert_eq!(badges, r#"["academ"]"#);
}

#[test]
fn stored_record_reads_back_as_written() {
    let original = record();
    let (roles, badges) = member_row_lists(&original).expect("lists encode");
    let read = member_record_from_row(
        original.discord_id.clone(),
        original.nickname_raw.clone(),
        original.nickname_key.clone(),
        &roles,
        &badges,
        original.observed_at,
    )
    .expect("row decodes");
    assert_eq!(read, original);
}

#[test]
fn row_with_empty_lists_decodes() {
    let read = member_record_from_row(
        "1".to_owned(),
        "A".to_owned(),
        "a".to_owned(),
        "[]",
        "[]",
        5,
    )
    .expect("row decodes");
    assert!(read.role_ids.is_empty());
    assert!(read.badges.is_empty());
    assert_eq!(read.observed_at, 5);
}

#[test]
fn rejects_list_columns_that_are_not_string_arrays() {
    let bad_roles = member_record_from_row("1".into(), "A".into(), "a".into(), "[1]", "[]", 0);
    assert!(matches!(bad_roles, Err(StorageError::InvalidMemberJson(_))));
    let bad_badges = member_record_from_row("1".into(), "A".into(), "a".into(), "[]", "{", 0);
    assert!(matches!(bad_badges, Err(StorageError::InvalidMemberJson(_))));
    let bad_override = member_override_from_row("1".into(), "A".into(), "nope", "[]");
    assert!(matches!(bad_override, Err(StorageError::InvalidMemberJson(_))));
}

#[test]
fn stored_override_reads_its_lists() {
    let o = member_override_from_row("7".into(), "Setunicode".into(), r#"["x"]"#, r#"["head","team"]"#)
        .expect("row decodes");
    assert_eq!(o.discord_id, "7");
    assert_eq!(o.nickname_raw, "Setunicode");
    assert_eq!(o.role_ids, vec!["x".to_owned()]);
    assert_eq!(o.badges, vec!["head".to_owned(), "team".to_owned()]);
}
