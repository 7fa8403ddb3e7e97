//! The health report.
use crate::storage::clock::{self, age_seconds};
use crate::storage::status::{self, SystemStatus};
use vstd::prelude::*;

verus! {

/// What `/healthz` reports.
#[derive(Debug)]
pub struct HealthSummary {
    pub status: String,
    pub revision: i64,
    pub source_status: String,
    pub source_age_seconds: Option<i64>,
}

/// The health report for the stored status at time `now`: always "ok", with
/// the revision, the source's freshness and its age.
pub fn health_summary(status: &SystemStatus, ttl_seconds: u64, now: i64) -> (h: HealthSummary)
    ensures
        h.status@ == "ok"@,
        h.revision == status.revision,
        h.source_status@ == status::source_status_of(status.last_source_sync_at, ttl_seconds, now),
        h.source_age_seconds == clock::age_of(status.last_source_sync_at, now),
{
    HealthSummary {
        status: "ok".to_owned(),
        revision: status.revision,
        source_status: status.effective_source_status(ttl_seconds, now),
        source_age_seconds: age_seconds(status.last_source_sync_at, now),
    }
}

} // verus!
