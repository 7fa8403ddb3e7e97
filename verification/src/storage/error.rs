//! Errors of the snapshot store.
use vstd::prelude::*;

verus! {

/// `sqlx::Error`, carried through unchanged.
#[verifier::external_type_specification]
#[verifier::external_body]
pub struct ExSqlxError(sqlx::Error);

/// `sqlx::migrate::MigrateError`, carried through unchanged.
#[verifier::external_type_specification]
#[verifier::external_body]
pub struct ExMigrateError(sqlx::migrate::MigrateError);

/// `serde_json::Error`, carried through unchanged.
#[verifier::external_type_specification]
#[verifier::external_body]
pub struct ExJsonError(serde_json::Error);

/// Why the snapshot store failed.
#[derive(Debug)]
pub enum StorageError {
    Database(sqlx::Error),
    Migration(sqlx::migrate::MigrateError),
    InvalidDatabaseUrl(String),
    InvalidRevision(String),
    InvalidTimestamp(String),
    InvalidMemberJson(serde_json::Error),
}

} // verus!
