//! Turning a collected member into a roster record.
use super::badges::{self, derive_badges};
use super::errors::DomainError;
use super::models::{self, BadgeRule, BadgeRuleView, MemberRecord, MemberRecordView, RawMember, RawMemberView};
use super::nicknames::{self, normalize_nickname};
use crate::text::{self, trim};
use vstd::prelude::*;

verus! {

/// The record built from `raw`: trimmed ID and nickname, the nickname's key,
/// the roles as given and the badges those roles earn.
pub open spec fn record_of(
    raw: RawMemberView,
    key: Seq<char>,
    rules: Seq<BadgeRuleView>,
    observed_at: i64,
) -> MemberRecordView {
    MemberRecordView {
        discord_id: text::trim_seq(raw.discord_id),
        nickname_raw: text::trim_seq(raw.nickname),
        nickname_key: key,
        role_ids: raw.role_ids,
        badges: badges::badges_for(raw.role_ids, rules),
        observed_at,
    }
}

/// Builds the roster record of a collected member. Fails with
/// `EmptyDiscordId` when the trimmed ID is empty, else with `EmptyNickname`
/// when the nickname has no key.
pub fn build_member_record(raw: RawMember, rules: &[BadgeRule], observed_at: i64) -> (r: Result<
    MemberRecord,
    DomainError,
>)
    ensures
        text::trim_seq(raw@.discord_id).len() == 0 ==> (r matches Err(e) && e is EmptyDiscordId),
        text::trim_seq(raw@.discord_id).len() > 0 && nicknames::nickname_key_of(raw@.nickname) is None
            ==> (r matches Err(e) && e is EmptyNickname),
        r matches Ok(record) ==> text::trim_seq(raw@.discord_id).len() > 0
            && nicknames::nickname_key_of(raw@.nickname) is Some && record@ == record_of(
            raw@,
            nicknames::nickname_key_of(raw@.nickname)->0,
            models::rules_view(rules@),
            observed_at,
        ),
        r is Ok <==> (text::trim_seq(raw@.discord_id).len() > 0 && nicknames::nickname_key_of(
            raw@.nickname,
        ) is Some),
        r is Ok <==> (text::trim_seq(raw@.discord_id).len() > 0 && text::trim_seq(raw@.nickname).len()
            > 0),
{
    let discord_id = trim(raw.discord_id.as_str());
    if discord_id.as_str().unicode_len() == 0 {
        return Err(DomainError::EmptyDiscordId);
    }
    let nickname_key = match normalize_nickname(raw.nickname.as_str()) {
        Ok(key) => key,
        Err(e) => return Err(e),
    };
    let badges = derive_badges(raw.role_ids.as_slice(), rules);
    let nickname_raw = trim(raw.nickname.as_str());
    Ok(MemberRecord {
        discord_id,
        nickname_raw,
        nickname_key,
        role_ids: raw.role_ids,
        badges,
        observed_at,
    })
}

} // verus!
