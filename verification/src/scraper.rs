//! When the periodic scrape runs: at once on start, a day after a scrape
//! that reached the store, five minutes after one that failed.
use vstd::prelude::*;

verus! {

/// Seconds between two full scrapes that succeed.
pub const FULL_SYNC_INTERVAL_SECS: u64 = 86_400;

/// Seconds before a failed scrape is tried again.
pub const RETRY_INTERVAL_SECS: u64 = 300;

/// How the previous scrape ended.
#[derive(Debug, Clone, Copy, PartialEq, Eq)]
pub enum ScrapeOutcome {
    /// The snapshot was collected and synced into the store: stored under a
    /// new revision, or found unchanged.
    Synced,
    /// Collecting the snapshot from Discord failed.
    CollectionFailed,
    /// The snapshot was collected but storing it failed.
    SyncFailed,
}

/// The seconds to wait before the next scrape, after `previous` (none
/// before the first scrape).
pub fn next_scrape_delay_secs(previous: Option<ScrapeOutcome>) -> (secs: u64)
    ensures
        previous is None ==> secs == 0,
        previous == Some(ScrapeOutcome::Synced) ==> secs == FULL_SYNC_INTERVAL_SECS,
        previous == Some(ScrapeOutcome::CollectionFailed) ==> secs == RETRY_INTERVAL_SECS,
        previous == Some(ScrapeOutcome::SyncFailed) ==> secs == RETRY_INTERVAL_SECS,
{
    match previous {
        None => 0,
        Some(ScrapeOutcome::Synced) => FULL_SYNC_INTERVAL_SECS,
        Some(ScrapeOutcome::CollectionFailed) | Some(ScrapeOutcome::SyncFailed) => RETRY_INTERVAL_SECS,
    }
}

} // verus!
