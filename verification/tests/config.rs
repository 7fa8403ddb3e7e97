use gytags_roster::config::{
    ConfigError, Settings, validate_badge_rules, validate_member_overrides,
};
use gytags_roster::domain::{BadgeGroup, BadgeRule, MemberOverride};

fn rule(role_id: &str, badge_id: &str) -> BadgeRule {
    BadgeRule {
        role_id: role_id.into(),
        badge_id: badge_id.into(),
        group: BadgeGroup::Career,
        priority: 1,
    }
}

fn over(discord_id: &str, nickname: &str) -> MemberOverride {
    MemberOverride {
        discord_id: discord_id.into(),
        nickname: nickname.into(),
    }
}

#[test]
fn rejects_badge_rules_without_role_or_badge_ids() {
    assert!(matches!(
        validate_badge_rules(vec![rule("", "staff")]),
        Err(ConfigError::InvalidBadgeRule { index: 0, .. })
    ));
    match validate_badge_rules(vec![rule("role", "staff"), rule("role", " ")]) {
        Err(ConfigError::InvalidBadgeRule { index, message }) => {
            assert_eq!(index, 1);
            assert_eq!(message, "badge_id cannot be empty");
        }
        other => panic!("unexpected {other:?}"),
    }
    assert_eq!(validate_badge_rules(vec![rule("r", "b")]).unwrap().len(), 1);
}

#[test]
fn rejects_duplicate_member_override_ids() {
    assert!(matches!(
        validate_member_overrides(vec![over("1", "First"), over(" 1", "Second")]),
        Err(ConfigError::InvalidMemberOverride { index: 1, .. })
    ));
    match validate_member_overrides(vec![over("1", " ")]) {
        Err(ConfigError::InvalidMemberOverride { index, message }) => {
            assert_eq!(index, 0);
            assert_eq!(message, "nickname cannot be empty");
        }
        other => panic!("unexpected {other:?}"),
    }
    let trimmed = validate_member_overrides(vec![over(" 7 ", " Likholesye ")]).unwrap();
    assert_eq!(trimmed[0].discord_id, "7");
    assert_eq!(trimmed[0].nickname, "Likholesye");
}

#[test]
fn settings_need_token_and_guild() {
    match Settings::from_env(None, Some("guild".into())) {
        Err(ConfigError::MissingEnvironment(name)) => assert_eq!(name, "GYTAGS_DISCORD_TOKEN"),
        other => panic!("unexpected {other:?}"),
    }
    match Settings::from_env(Some("token".into()), Some("  ".into())) {
        Err(ConfigError::MissingEnvironment(name)) => {
            assert_eq!(name, "GYTAGS_DISCORD_GUILD_ID")
        }
        other => panic!("unexpected {other:?}"),
    }
    let settings = Settings::from_env(Some(" token ".into()), Some("guild".into())).unwrap();
    assert_eq!(settings.discord_token, "token");
    assert_eq!(settings.discord_guild_id, "guild");
    assert_eq!(settings.bind_addr, "0.0.0.0:8080");
    assert_eq!(settings.source_ttl_seconds, 172_800);
}
