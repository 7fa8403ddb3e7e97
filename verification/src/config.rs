//! Settings and the validation of the configuration files.
use crate::domain::models::{BadgeRule, MemberOverride};
use crate::text::{self, contains_string, is_blank, trim};
use vstd::prelude::*;

verus! {

pub const BIND_ADDR: &'static str = "0.0.0.0:8080";
pub const DATABASE_URL: &'static str = "sqlite://data/gytags.sqlite3";
pub const BADGE_RULES_PATH: &'static str = "config/badges.json";
pub const MEMBER_OVERRIDES_PATH: &'static str = "config/overrides.json";
pub const SOURCE_TTL_SECONDS: u64 = 172_800;

/// The environment variable holding the Discord token.
pub const DISCORD_TOKEN_VAR: &'static str = "GYTAGS_DISCORD_TOKEN";

/// The environment variable holding the Discord guild ID.
pub const DISCORD_GUILD_ID_VAR: &'static str = "GYTAGS_DISCORD_GUILD_ID";

/// The backend's settings.
#[derive(Debug, Clone)]
pub struct Settings {
    pub bind_addr: String,
    pub database_url: String,
    pub badge_rules_path: String,
    pub member_overrides_path: String,
    pub discord_token: String,
    pub discord_guild_id: String,
    pub source_ttl_seconds: u64,
}

/// `std::io::Error`, carried through unchanged.
#[verifier::external_type_specification]
#[verifier::external_body]
pub struct ExIoError(std::io::Error);

/// Why the configuration could not be loaded.
#[derive(Debug)]
pub enum ConfigError {
    Io(std::io::Error),
    Json(serde_json::Error),
    InvalidBadgeRule { index: usize, message: &'static str },
    InvalidMemberOverride { index: usize, message: &'static str },
    MissingEnvironment(&'static str),
}

/// The value of a required environment variable, trimmed; fails with
/// `MissingEnvironment(name)` when it is unset or blank.
pub fn required_env(name: &'static str, value: Option<String>) -> (r: Result<String, ConfigError>)
    ensures
        value is None ==> (r matches Err(ConfigError::MissingEnvironment(n)) && n@ == name@),
        value matches Some(v) ==> (if text::trim_seq(v@).len() == 0 {
            r matches Err(ConfigError::MissingEnvironment(n)) && n@ == name@
        } else {
            r matches Ok(s) && s@ == text::trim_seq(v@)
        }),
{
    match value {
        Some(v) => {
            let trimmed = trim(v.as_str());
            if trimmed.as_str().unicode_len() == 0 {
                Err(ConfigError::MissingEnvironment(name))
            } else {
                Ok(trimmed)
            }
        },
        None => Err(ConfigError::MissingEnvironment(name)),
    }
}

/// Whether an environment value is set and not blank.
pub open spec fn present(value: Option<String>) -> bool {
    value matches Some(v) && text::trim_seq(v@).len() > 0
}

impl Settings {
    /// The settings, given the values of `GYTAGS_DISCORD_TOKEN` and
    /// `GYTAGS_DISCORD_GUILD_ID`: the built-in defaults and the two trimmed
    /// values. Fails with `MissingEnvironment` naming the first of the two
    /// that is unset or blank.
    pub fn from_env(discord_token: Option<String>, discord_guild_id: Option<String>) -> (r: Result<Settings, ConfigError>)
        ensures
            !present(discord_token) ==> (r matches Err(ConfigError::MissingEnvironment(n)) && n@ == DISCORD_TOKEN_VAR@),
            present(discord_token) && !present(discord_guild_id) ==> (r matches Err(ConfigError::MissingEnvironment(n)) && n@ == DISCORD_GUILD_ID_VAR@),
            present(discord_token) && present(discord_guild_id) ==> (r matches Ok(s)
                && s.bind_addr@ == BIND_ADDR@
                && s.database_url@ == DATABASE_URL@
                && s.badge_rules_path@ == BADGE_RULES_PATH@
                && s.member_overrides_path@ == MEMBER_OVERRIDES_PATH@
                && s.discord_token@ == text::trim_seq(discord_token->0@)
                && s.discord_guild_id@ == text::trim_seq(discord_guild_id->0@)
                && s.source_ttl_seconds == SOURCE_TTL_SECONDS),
    {
        let discord_token = match required_env(DISCORD_TOKEN_VAR, discord_token) {
            Ok(v) => v,
            Err(e) => return Err(e),
        };
        let discord_guild_id = match required_env(DISCORD_GUILD_ID_VAR, discord_guild_id) {
            Ok(v) => v,
            Err(e) => return Err(e),
        };
        Ok(Settings {
            bind_addr: BIND_ADDR.to_owned(),
            database_url: DATABASE_URL.to_owned(),
            badge_rules_path: BADGE_RULES_PATH.to_owned(),
            member_overrides_path: MEMBER_OVERRIDES_PATH.to_owned(),
            discord_token,
            discord_guild_id,
            source_ttl_seconds: SOURCE_TTL_SECONDS,
        })
    }
}

/// Why a badge rule is invalid, if it is: a blank role ID, else a blank badge ID.
pub open spec fn badge_rule_problem(rule: BadgeRule) -> Option<Seq<char>> {
    if text::trim_seq(rule.role_id@).len() == 0 {
        Some("role_id cannot be empty"@)
    } else if text::trim_seq(rule.badge_id@).len() == 0 {
        Some("badge_id cannot be empty"@)
    } else {
        None
    }
}

/// Checks the badge rules: fails with `InvalidBadgeRule` at the first rule
/// whose role ID or badge ID is blank; otherwise keeps them as they are.
pub fn validate_badge_rules(rules: Vec<BadgeRule>) -> (r: Result<Vec<BadgeRule>, ConfigError>)
    ensures
        r matches Ok(rs) ==> rs@ == rules@ && forall|i: int| 0 <= i < rules@.len() ==> (#[trigger] badge_rule_problem(rules@[i])) is None,
        r matches Err(e) ==> (e matches ConfigError::InvalidBadgeRule { index, message }
            && index < rules@.len()
            && badge_rule_problem(rules@[index as int]) == Some(message@)
            && forall|k: int| 0 <= k < index ==> (#[trigger] badge_rule_problem(rules@[k])) is None),
        r is Ok <==> forall|i: int| 0 <= i < rules@.len() ==> (#[trigger] badge_rule_problem(rules@[i])) is None,
{
    let mut i: usize = 0;
    while i < rules.len()
        invariant
            i <= rules@.len(),
            forall|k: int| 0 <= k < i ==> (#[trigger] badge_rule_problem(rules@[k])) is None,
        decreases rules@.len() - i,
    {
        if is_blank(rules[i].role_id.as_str()) {
            return Err(ConfigError::InvalidBadgeRule { index: i, message: "role_id cannot be empty" });
        }
        if is_blank(rules[i].badge_id.as_str()) {
            return Err(ConfigError::InvalidBadgeRule { index: i, message: "badge_id cannot be empty" });
        }
        i = i + 1;
    }
    Ok(rules)
}

/// Why the `i`-th override is invalid, if it is: a blank Discord ID, a blank
/// nickname, or a (trimmed) Discord ID that an earlier override has.
pub open spec fn override_problem(members: Seq<MemberOverride>, i: int) -> Option<Seq<char>> {
    let id = text::trim_seq(members[i].discord_id@);
    if id.len() == 0 {
        Some("discord_id cannot be empty"@)
    } else if text::trim_seq(members[i].nickname@).len() == 0 {
        Some("nickname cannot be empty"@)
    } else if exists|k: int| 0 <= k < i && text::trim_seq(#[trigger] members[k].discord_id@) == id {
        Some("discord_id must be unique"@)
    } else {
        None
    }
}

/// Checks the member overrides and trims their IDs and nicknames. Fails
/// with `InvalidMemberOverride` at the first override whose ID or nickname is
/// blank, or whose ID repeats an earlier one.
pub fn validate_member_overrides(members: Vec<MemberOverride>) -> (r: Result<Vec<MemberOverride>, ConfigError>)
    ensures
        r matches Ok(ms) ==> ms@.len() == members@.len()
            && (forall|i: int| 0 <= i < members@.len() ==> (#[trigger] override_problem(members@, i)) is None)
            && forall|i: int| 0 <= i < ms@.len() ==> (#[trigger] ms@[i]).discord_id@ == text::trim_seq(members@[i].discord_id@)
                && ms@[i].nickname@ == text::trim_seq(members@[i].nickname@),
        r matches Err(e) ==> (e matches ConfigError::InvalidMemberOverride { index, message }
            && index < members@.len()
            && override_problem(members@, index as int) == Some(message@)
            && forall|k: int| 0 <= k < index ==> (#[trigger] override_problem(members@, k)) is None),
        r is Ok <==> forall|i: int| 0 <= i < members@.len() ==> (#[trigger] override_problem(members@, i)) is None,
{
    let mut out: Vec<MemberOverride> = Vec::new();
    let mut ids: Vec<String> = Vec::new();
    let mut i: usize = 0;
    while i < members.len()
        invariant
            i <= members@.len(),
            out@.len() == i,
            ids@.len() == i,
            forall|k: int| 0 <= k < i ==> (#[trigger] override_problem(members@, k)) is None,
            forall|k: int| 0 <= k < i ==> (#[trigger] out@[k]).discord_id@ == text::trim_seq(members@[k].discord_id@)
                && out@[k].nickname@ == text::trim_seq(members@[k].nickname@),
            forall|k: int| 0 <= k < i ==> (#[trigger] ids@[k])@ == text::trim_seq(members@[k].discord_id@),
        decreases members@.len() - i,
    {
        let discord_id = trim(members[i].discord_id.as_str());
        let nickname = trim(members[i].nickname.as_str());
        if discord_id.as_str().unicode_len() == 0 {
            return Err(ConfigError::InvalidMemberOverride { index: i, message: "discord_id cannot be empty" });
        }
        if nickname.as_str().unicode_len() == 0 {
            return Err(ConfigError::InvalidMemberOverride { index: i, message: "nickname cannot be empty" });
        }
        if contains_string(ids.as_slice(), &discord_id) {
            proof {
                let k = choose|k: int| 0 <= k < ids.deep_view().len() && ids.deep_view()[k] == discord_id@;
                assert(ids@[k]@ == discord_id@);
                assert(text::trim_seq(members@[k].discord_id@) == discord_id@);
            }
            return Err(ConfigError::InvalidMemberOverride { index: i, message: "discord_id must be unique" });
        }
        proof {
            assert forall|k: int| 0 <= k < i implies text::trim_seq(#[trigger] members@[k].discord_id@) != discord_id@ by {
                assert(ids.deep_view()[k] == ids@[k]@);
            }
            assert(override_problem(members@, i as int) is None);
        }
        ids.push(discord_id.clone());
        out.push(MemberOverride { discord_id, nickname });
        i = i + 1;
    }
    Ok(out)
}

/// What validation accepts: badge rules whose role ID and badge ID are not
/// blank, and member overrides whose Discord ID and nickname are not blank
/// and whose (trimmed) Discord IDs all differ. A rule with a blank role ID is
/// refused with "role_id cannot be empty", one with a blank badge ID (and a
/// role ID) with "badge_id cannot be empty"; an override with a blank Discord
/// ID is refused with "discord_id cannot be empty", one with a blank nickname
/// (and a Discord ID) with "nickname cannot be empty".
pub proof fn lemma_validation_accepts_only_complete_entries(rules: Seq<BadgeRule>, members: Seq<MemberOverride>)
    ensures
        forall|i: int|
            0 <= i < rules.len() && (#[trigger] badge_rule_problem(rules[i])) is None ==> text::trim_seq(
                rules[i].role_id@,
            ).len() > 0 && text::trim_seq(rules[i].badge_id@).len() > 0,
        forall|i: int|
            0 <= i < rules.len() && text::trim_seq(rules[i].role_id@).len() == 0 ==> #[trigger] badge_rule_problem(
                rules[i],
            ) == Some("role_id cannot be empty"@),
        forall|i: int|
            0 <= i < rules.len() && text::trim_seq(rules[i].role_id@).len() > 0 && text::trim_seq(
                rules[i].badge_id@,
            ).len() == 0 ==> #[trigger] badge_rule_problem(rules[i]) == Some("badge_id cannot be empty"@),
        forall|i: int|
            0 <= i < members.len() && (#[trigger] override_problem(members, i)) is None ==> text::trim_seq(
                members[i].discord_id@,
            ).len() > 0 && text::trim_seq(members[i].nickname@).len() > 0,
        forall|i: int|
            0 <= i < members.len() && text::trim_seq(members[i].discord_id@).len() == 0 ==> #[trigger] override_problem(
                members,
                i,
            ) == Some("discord_id cannot be empty"@),
        forall|i: int|
            0 <= i < members.len() && text::trim_seq(members[i].discord_id@).len() > 0 && text::trim_seq(
                members[i].nickname@,
            ).len() == 0 ==> #[trigger] override_problem(members, i) == Some("nickname cannot be empty"@),
        forall|i: int, j: int|
            0 <= i < j < members.len() && (forall|k: int| 0 <= k < members.len() ==> (#[trigger] override_problem(members, k)) is None)
                ==> text::trim_seq(#[trigger] members[i].discord_id@) != text::trim_seq(
                #[trigger] members[j].discord_id@,
            ),
{
    assert forall|i: int, j: int|
        0 <= i < j < members.len() && (forall|k: int| 0 <= k < members.len() ==> (#[trigger] override_problem(members, k)) is None)
            implies text::trim_seq(#[trigger] members[i].discord_id@) != text::trim_seq(
            #[trigger] members[j].discord_id@,
        ) by {
        assert(override_problem(members, j) is None);
    }
}

} // verus!
