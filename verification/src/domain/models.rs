//! The records of the roster and their mathematical views.
use vstd::prelude::*;

verus! {

/// A guild member as the collector saw it.
#[derive(Debug, Clone, PartialEq, Eq)]
pub struct RawMember {
    pub discord_id: String,
    pub nickname: String,
    pub role_ids: Vec<String>,
}

/// The view of a [`RawMember`].
pub struct RawMemberView {
    pub discord_id: Seq<char>,
    pub nickname: Seq<char>,
    pub role_ids: Seq<Seq<char>>,
}

impl View for RawMember {
    type V = RawMemberView;

    open spec fn view(&self) -> RawMemberView {
        RawMemberView {
            discord_id: self.discord_id@,
            nickname: self.nickname@,
            role_ids: self.role_ids.deep_view(),
        }
    }
}

/// The two badge groups; a member wears at most one badge of each.
#[derive(Debug, Clone, Copy, PartialEq, Eq, Structural)]
pub enum BadgeGroup {
    Career,
    Team,
}

/// A rule granting `badge_id` in `group` to holders of `role_id`; among the
/// rules a member qualifies for in one group, the lowest `priority` wins.
#[derive(Debug, Clone, PartialEq, Eq)]
pub struct BadgeRule {
    pub role_id: String,
    pub badge_id: String,
    pub group: BadgeGroup,
    pub priority: i32,
}

/// The view of a [`BadgeRule`].
pub struct BadgeRuleView {
    pub role_id: Seq<char>,
    pub badge_id: Seq<char>,
    pub group: BadgeGroup,
    pub priority: i32,
}

impl View for BadgeRule {
    type V = BadgeRuleView;

    open spec fn view(&self) -> BadgeRuleView {
        BadgeRuleView {
            role_id: self.role_id@,
            badge_id: self.badge_id@,
            group: self.group,
            priority: self.priority,
        }
    }
}

/// The views of a sequence of rules.
pub open spec fn rules_view(rules: Seq<BadgeRule>) -> Seq<BadgeRuleView> {
    rules.map_values(|r: BadgeRule| r@)
}

/// An administrator's nickname for a Discord account, from the overrides file.
#[derive(Debug, Clone, PartialEq, Eq)]
pub struct MemberOverride {
    pub discord_id: String,
    pub nickname: String,
}

/// A stored roster entry.
#[derive(Debug, Clone, PartialEq, Eq)]
pub struct MemberRecord {
    pub discord_id: String,
    pub nickname_raw: String,
    pub nickname_key: String,
    pub role_ids: Vec<String>,
    pub badges: Vec<String>,
    pub observed_at: i64,
}

/// The view of a [`MemberRecord`].
pub struct MemberRecordView {
    pub discord_id: Seq<char>,
    pub nickname_raw: Seq<char>,
    pub nickname_key: Seq<char>,
    pub role_ids: Seq<Seq<char>>,
    pub badges: Seq<Seq<char>>,
    pub observed_at: i64,
}

impl View for MemberRecord {
    type V = MemberRecordView;

    open spec fn view(&self) -> MemberRecordView {
        MemberRecordView {
            discord_id: self.discord_id@,
            nickname_raw: self.nickname_raw@,
            nickname_key: self.nickname_key@,
            role_ids: self.role_ids.deep_view(),
            badges: self.badges.deep_view(),
            observed_at: self.observed_at,
        }
    }
}

/// The views of a sequence of records.
pub open spec fn records_view(records: Seq<MemberRecord>) -> Seq<MemberRecordView> {
    records.map_values(|r: MemberRecord| r@)
}

impl MemberRecord {
    /// A copy of this record.
    pub fn duplicate(&self) -> (r: MemberRecord)
        ensures
            r@ == self@,
    {
        let role_ids = crate::text::copy_strings(&self.role_ids);
        let badges = crate::text::copy_strings(&self.badges);
        MemberRecord {
            discord_id: self.discord_id.clone(),
            nickname_raw: self.nickname_raw.clone(),
            nickname_key: self.nickname_key.clone(),
            role_ids,
            badges,
            observed_at: self.observed_at,
        }
    }
}

impl RawMember {
    /// A copy of this member.
    pub fn duplicate(&self) -> (r: RawMember)
        ensures
            r@ == self@,
    {
        RawMember {
            discord_id: self.discord_id.clone(),
            nickname: self.nickname.clone(),
            role_ids: crate::text::copy_strings(&self.role_ids),
        }
    }
}

} // verus!
