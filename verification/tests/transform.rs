use gytags_roster::api::public_members;
use gytags_roster::domain::MemberRecord;
use gytags_roster::protocol::PublicMemberStatus;

fn record(nickname: &str, badges: &[&str]) -> MemberRecord {
    MemberRecord {
        discord_id: nickname.to_owned(),
        nickname_raw: nickname.to_owned(),
        nickname_key: nickname.to_lowercase(),
        role_ids: Vec::new(),
        badges: badges.iter().map(|badge| (*badge).to_owned()).collect(),
        observed_at: 0,
    }
}

#[test]
fn full_snapshot_excludes_members_without_badges() {
    let members = public_members(
        &[],
        vec![record("Player", &[]), record("Roster", &["head"])],
    );

    assert_eq!(members.len(), 1);
    assert_eq!(members[0].nickname, "Roster");
}

#[test]
fn subscribed_member_without_badges_is_not_found() {
    let members = public_members(&["player".into()], vec![record("Player", &[])]);

    assert_eq!(members.len(), 1);
    assert!(matches!(members[0].status, PublicMemberStatus::NotFound));
    assert!(members[0].badges.is_empty());
}

#[test]
fn shared_nicknames_are_ambiguous_and_carry_no_badges() {
    let mut second = record("PLAYER", &["head"]);
    second.discord_id = "2".into();
    second.nickname_key = "player".into();
    let members = public_members(
        &["player".into()],
        vec![record("Player", &["head"]), second],
    );
    assert_eq!(members.len(), 1);
    assert!(matches!(members[0].status, PublicMemberStatus::Ambiguous));
    assert_eq!(members[0].nickname, "Player");
    assert!(members[0].badges.is_empty());

    let mut other = record("Player", &["head"]);
    other.discord_id = "3".into();
    let full = public_members(&[], vec![record("Player", &["head"]), other]);
    assert!(full.is_empty());
}

#[test]
fn full_snapshot_is_sorted_by_lowercase_nickname() {
    let members = public_members(
        &[],
        vec![
            record("charlie", &["c"]),
            record("Alpha", &["a"]),
            record("bravo", &["b"]),
        ],
    );
    let names: Vec<&str> = members.iter().map(|m| m.nickname.as_str()).collect();
    assert_eq!(names, vec!["Alpha", "bravo", "charlie"]);
    assert!(members.iter().all(|m| matches!(m.status, PublicMemberStatus::Found)));
    assert_eq!(members[0].badges, vec!["a"]);
}

#[test]
fn answers_follow_the_requested_keys() {
    let members = public_members(
        &["roster".into(), "ghost".into(), "roster".into()],
        vec![record("Roster", &["head"])],
    );
    assert_eq!(members.len(), 3);
    assert!(matches!(members[0].status, PublicMemberStatus::Found));
    assert_eq!(members[0].nickname, "Roster");
    assert_eq!(members[0].badges, vec!["head"]);
    assert!(matches!(members[1].status, PublicMemberStatus::NotFound));
    assert_eq!(members[1].nickname, "ghost");
    assert!(matches!(members[2].status, PublicMemberStatus::NotFound));
    assert_eq!(members[2].nickname, "roster");
}

#[test]
fn an_empty_roster_lists_nobody() {
    assert!(public_members(&[], Vec::new()).is_empty());
}
