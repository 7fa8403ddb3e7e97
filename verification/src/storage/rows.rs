//! The string lists that the store keeps as JSON text in its `role_ids_json`
//! and `badges_json` columns, and the records read back from a row.
use super::error::StorageError;
use super::overrides::{MemberOverride, MemberOverrideView};
use crate::domain::models::{MemberRecord, MemberRecordView};
use vstd::prelude::*;

verus! {

/// The list of strings that `serde_json` reads from `text`, none when
/// `text` is not a JSON array of strings.
pub uninterp spec fn string_list_of(text: Seq<char>) -> Option<Seq<Seq<char>>>;

/// The JSON text that `serde_json` writes for a list of strings.
pub uninterp spec fn string_list_text_of(items: Seq<Seq<char>>) -> Seq<char>;

/// Calls `serde_json::from_str::<Vec<String>>`; the contract claims that it
/// succeeds exactly when `string_list_of` has a value, and then gives it.
#[verifier::external_body]
fn parse_string_list(text: &str) -> (r: Result<Vec<String>, serde_json::Error>)
    ensures
        r is Ok <==> string_list_of(text@) is Some,
        r matches Ok(v) ==> string_list_of(text@) == Some(v.deep_view()),
{
    serde_json::from_str::<Vec<String>>(text)
}

/// Calls `serde_json::to_string` on a list of strings; the contract claims
/// that it succeeds (serde_json fails only where a `Serialize` impl chooses
/// to, or on a map with keys that are not strings, and a list of strings
/// has neither), that the text written is `string_list_text_of` the list,
/// and that reading it back with `serde_json` gives the same list.
#[verifier::external_body]
fn string_list_text(items: &[String]) -> (r: Result<String, serde_json::Error>)
    ensures
        r is Ok,
        r matches Ok(t) ==> t@ == string_list_text_of(items.deep_view()),
        r matches Ok(t) ==> string_list_of(t@) == Some(items.deep_view()),
{
    serde_json::to_string(items)
}

/// The record that a stored row holds, when both of its list columns are
/// JSON arrays of strings.
pub open spec fn row_record(
    discord_id: Seq<char>,
    nickname_raw: Seq<char>,
    nickname_key: Seq<char>,
    role_ids_json: Seq<char>,
    badges_json: Seq<char>,
    observed_at: i64,
) -> Option<MemberRecordView> {
    match (string_list_of(role_ids_json), string_list_of(badges_json)) {
        (Some(role_ids), Some(badges)) => Some(
            MemberRecordView { discord_id, nickname_raw, nickname_key, role_ids, badges, observed_at },
        ),
        _ => None,
    }
}

/// The override that a stored row holds, when both of its list columns are
/// JSON arrays of strings.
pub open spec fn row_override(
    discord_id: Seq<char>,
    nickname_raw: Seq<char>,
    role_ids_json: Seq<char>,
    badges_json: Seq<char>,
) -> Option<MemberOverrideView> {
    match (string_list_of(role_ids_json), string_list_of(badges_json)) {
        (Some(role_ids), Some(badges)) => Some(
            MemberOverrideView { discord_id, nickname_raw, role_ids, badges },
        ),
        _ => None,
    }
}

/// Reads a string list column; `InvalidMemberJson` when it is not a JSON
/// array of strings.
fn string_list_column(text: &str) -> (r: Result<Vec<String>, StorageError>)
    ensures
        r is Ok <==> string_list_of(text@) is Some,
        r matches Ok(v) ==> string_list_of(text@) == Some(v.deep_view()),
        r matches Err(e) ==> e is InvalidMemberJson,
{
    match parse_string_list(text) {
        Ok(items) => Ok(items),
        Err(error) => Err(StorageError::InvalidMemberJson(error)),
    }
}

/// Writes a string list column; `serde_json` writes any list of strings.
fn string_list_column_text(items: &[String]) -> (r: Result<String, StorageError>)
    ensures
        r is Ok,
        r matches Ok(t) ==> t@ == string_list_text_of(items.deep_view()),
        r matches Ok(t) ==> string_list_of(t@) == Some(items.deep_view()),
{
    match string_list_text(items) {
        Ok(text) => Ok(text),
        Err(error) => Err(StorageError::InvalidMemberJson(error)),
    }
}

/// The record of a stored row: the row's columns, with the role and badge
/// lists read from their JSON text. Fails with `InvalidMemberJson` exactly
/// when one of the two is not a JSON array of strings.
pub fn member_record_from_row(
    discord_id: String,
    nickname_raw: String,
    nickname_key: String,
    role_ids_json: &str,
    badges_json: &str,
    observed_at: i64,
) -> (r: Result<MemberRecord, StorageError>)
    ensures
        r is Ok <==> row_record(
            discord_id@,
            nickname_raw@,
            nickname_key@,
            role_ids_json@,
            badges_json@,
            observed_at,
        ) is Some,
        r matches Ok(record) ==> Some(record@) == row_record(
            discord_id@,
            nickname_raw@,
            nickname_key@,
            role_ids_json@,
            badges_json@,
            observed_at,
        ),
        r matches Err(e) ==> e is InvalidMemberJson,
{
    let role_ids = match string_list_column(role_ids_json) {
        Ok(items) => items,
        Err(e) => return Err(e),
    };
    let badges = match string_list_column(badges_json) {
        Ok(items) => items,
        Err(e) => return Err(e),
    };
    Ok(MemberRecord { discord_id, nickname_raw, nickname_key, role_ids, badges, observed_at })
}

/// The override of a stored row, with the role and badge lists read from
/// their JSON text. Fails with `InvalidMemberJson` exactly when one of the
/// two is not a JSON array of strings.
pub fn member_override_from_row(
    discord_id: String,
    nickname_raw: String,
    role_ids_json: &str,
    badges_json: &str,
) -> (r: Result<MemberOverride, StorageError>)
    ensures
        r is Ok <==> row_override(discord_id@, nickname_raw@, role_ids_json@, badges_json@) is Some,
        r matches Ok(o) ==> Some(o@) == row_override(
            discord_id@,
            nickname_raw@,
            role_ids_json@,
            badges_json@,
        ),
        r matches Err(e) ==> e is InvalidMemberJson,
{
    let role_ids = match string_list_column(role_ids_json) {
        Ok(items) => items,
        Err(e) => return Err(e),
    };
    let badges = match string_list_column(badges_json) {
        Ok(items) => items,
        Err(e) => return Err(e),
    };
    Ok(MemberOverride { discord_id, nickname_raw, role_ids, badges })
}

/// The JSON text of a record's role list and badge list, as the store keeps
/// them: each reads back as the list it was written from. It succeeds for
/// every record.
pub fn member_row_lists(record: &MemberRecord) -> (r: Result<(String, String), StorageError>)
    ensures
        r is Ok,
        r matches Ok((roles, badges)) ==> {
            &&& roles@ == string_list_text_of(record@.role_ids)
            &&& badges@ == string_list_text_of(record@.badges)
            &&& string_list_of(roles@) == Some(record@.role_ids)
            &&& string_list_of(badges@) == Some(record@.badges)
        },
{
    let roles = match string_list_column_text(record.role_ids.as_slice()) {
        Ok(text) => text,
        Err(e) => return Err(e),
    };
    let badges = match string_list_column_text(record.badges.as_slice()) {
        Ok(text) => text,
        Err(e) => return Err(e),
    };
    Ok((roles, badges))
}

/// A stored record reads back as it was written: a row whose list columns
/// hold the JSON text of the record's role and badge lists holds the record.
pub proof fn lemma_stored_record_reads_back(record: MemberRecordView, roles: Seq<char>, badges: Seq<char>)
    requires
        string_list_of(roles) == Some(record.role_ids),
        string_list_of(badges) == Some(record.badges),
    ensures
        row_record(
            record.discord_id,
            record.nickname_raw,
            record.nickname_key,
            roles,
            badges,
            record.observed_at,
        ) == Some(record),
{
}

} // verus!
