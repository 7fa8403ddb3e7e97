use gytags_roster::domain::{
    BadgeGroup, BadgeRule, DomainError, derive_badges, normalize_nickname, normalize_nicknames,
};

#[test]
fn normalizes_nickname_without_merging_symbols() {
    assert_eq!(
        normalize_nickname("  Player_Name  ").unwrap(),
        "player_name"
    );
    assert_eq!(normalize_nickname("Player-Name").unwrap(), "player-name");
}

#[test]
fn derives_highest_career_and_team_badges() {
    let rules = vec![
        BadgeRule {
            role_id: "career_low".into(),
            badge_id: "academ".into(),
            group: BadgeGroup::Career,
            priority: 8,
        },
        BadgeRule {
            role_id: "career_high".into(),
            badge_id: "head".into(),
            group: BadgeGroup::Career,
            priority: 1,
        },
        BadgeRule {
            role_id: "team_low".into(),
            badge_id: "team_5".into(),
            group: BadgeGroup::Team,
            priority: 5,
        },
        BadgeRule {
            role_id: "team_high".into(),
            badge_id: "team_1".into(),
            group: BadgeGroup::Team,
            priority: 1,
        },
    ];
    let roles = vec![
        "career_low".into(),
        "career_high".into(),
        "team_low".into(),
        "team_high".into(),
    ];

    assert_eq!(derive_badges(&roles, &rules), vec!["head", "team_1"]);
}

#[test]
fn derives_only_the_available_badge_groups() {
    let rules = vec![BadgeRule {
        role_id: "team".into(),
        badge_id: "team_3".into(),
        group: BadgeGroup::Team,
        priority: 3,
    }];

    assert_eq!(derive_badges(&["team".into()], &rules), vec!["team_3"]);
    assert!(derive_badges(&[], &rules).is_empty());
}

#[test]
fn normalizes_and_deduplicates_requested_nicknames() {
    assert_eq!(
        normalize_nicknames(vec![" Player ".into(), "PLAYER".into(), "Other".into()]).unwrap(),
        vec!["player", "other"]
    );
}

#[test]
fn rejects_empty_discord_ids() {
    let error = gytags_roster::domain::build_member_record(
        gytags_roster::domain::RawMember {
            discord_id: "  ".into(),
            nickname: "Player".into(),
            role_ids: Vec::new(),
        },
        &[],
        0,
    )
    .unwrap_err();

    assert!(matches!(error, DomainError::EmptyDiscordId));
}

#[test]
fn ties_in_priority_go_to_the_smaller_badge_id() {
    let rules = vec![
        BadgeRule {
            role_id: "a".into(),
            badge_id: "zeta".into(),
            group: BadgeGroup::Career,
            priority: 2,
        },
        BadgeRule {
            role_id: "b".into(),
            badge_id: "alpha".into(),
            group: BadgeGroup::Career,
            priority: 2,
        },
    ];
    assert_eq!(derive_badges(&["a".into(), "b".into()], &rules), vec!["alpha"]);
}

#[test]
fn rules_for_roles_not_held_are_ignored() {
    let rules = vec![BadgeRule {
        role_id: "staff".into(),
        badge_id: "head".into(),
        group: BadgeGroup::Career,
        priority: 1,
    }];
    assert!(derive_badges(&["guest".into()], &rules).is_empty());
}

#[test]
fn normalizes_nfc_and_lowercases() {
    // "e" followed by a combining acute accent composes into "é".
    assert_eq!(normalize_nickname(" Cafe\u{301} ").unwrap(), "caf\u{e9}");
    assert_eq!(normalize_nickname("\u{3000}Ünïcode\t").unwrap(), "ünïcode");
}

#[test]
fn rejects_blank_nicknames() {
    assert!(matches!(normalize_nickname("   "), Err(DomainError::EmptyNickname)));
    assert!(matches!(normalize_nickname(""), Err(DomainError::EmptyNickname)));
    assert!(matches!(
        normalize_nicknames(vec!["Player".into(), " ".into()]),
        Err(DomainError::EmptyNickname)
    ));
}

#[test]
fn rejects_too_many_nicknames() {
    let names: Vec<String> = (0..257).map(|i| format!("player{i}")).collect();
    assert!(matches!(
        normalize_nicknames(names),
        Err(DomainError::TooManyNicknames { max: 256 })
    ));
    let names: Vec<String> = (0..256).map(|i| format!("player{i}")).collect();
    assert_eq!(normalize_nicknames(names).unwrap().len(), 256);
}

#[test]
fn builds_member_record_with_trimmed_fields_and_badges() {
    let rules = vec![BadgeRule {
        role_id: "staff".into(),
        badge_id: "head".into(),
        group: BadgeGroup::Career,
        priority: 1,
    }];
    let record = gytags_roster::domain::build_member_record(
        gytags_roster::domain::RawMember {
            discord_id: " 42 ".into(),
            nickname: "  Player One ".into(),
            role_ids: vec!["staff".into()],
        },
        &rules,
        7,
    )
    .unwrap();
    assert_eq!(record.discord_id, "42");
    assert_eq!(record.nickname_raw, "Player One");
    assert_eq!(record.nickname_key, "player one");
    assert_eq!(record.role_ids, vec!["staff"]);
    assert_eq!(record.badges, vec!["head"]);
    assert_eq!(record.observed_at, 7);
}

#[test]
fn build_member_record_rejects_blank_nickname() {
    let error = gytags_roster::domain::build_member_record(
        gytags_roster::domain::RawMember {
            discord_id: "1".into(),
            nickname: " ".into(),
            role_ids: Vec::new(),
        },
        &[],
        0,
    )
    .unwrap_err();
    assert!(matches!(error, DomainError::EmptyNickname));
}

#[test]
fn only_blank_nicknames_are_refused() {
    assert!(normalize_nickname("\u{2003}\t\n").is_err());
    assert_eq!(normalize_nickname(" \u{301} ").unwrap(), "\u{301}");
    assert_eq!(normalize_nickname("e\u{301}").unwrap(), "\u{e9}");
    assert!(normalize_nicknames(vec!["a".into(), "\u{3000}".into()]).is_err());
    assert_eq!(normalize_nicknames(vec!["A".into(), " a ".into()]).unwrap(), vec!["a".to_owned()]);
}

#[test]
fn ascii_keys_are_their_own_keys() {
    for nickname in ["  Royalty72 ", "SETUNICODE", "Player_Name", "a b"] {
        let key = normalize_nickname(nickname).unwrap();
        assert_eq!(key, nickname.trim().to_ascii_lowercase());
        assert!(!key.is_empty());
        assert_eq!(normalize_nickname(&key).unwrap(), key);
    }
}
