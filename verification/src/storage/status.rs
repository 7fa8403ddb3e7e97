//! The stored snapshot's revision and freshness.
use super::clock::{self, saturating_sub_i64};
use vstd::prelude::*;

verus! {

/// The revision of the stored snapshot and when the source was last synced.
#[derive(Debug, Clone, PartialEq, Eq)]
pub struct SystemStatus {
    pub revision: i64,
    pub last_source_sync_at: Option<i64>,
}

/// How fresh the source is: "empty" when it was never synced, "stale" when
/// the last sync lies more than `ttl_seconds` before `now`, else "fresh".
pub open spec fn source_status_of(last_source_sync_at: Option<i64>, ttl_seconds: u64, now: i64) -> Seq<char> {
    match last_source_sync_at {
        None => "empty"@,
        Some(last) => if clock::saturating_diff(now, last) > (ttl_seconds as i64) {
            "stale"@
        } else {
            "fresh"@
        },
    }
}

impl SystemStatus {
    /// The freshness of the source at time `now` (see `source_status_of`).
    pub fn effective_source_status(&self, ttl_seconds: u64, now: i64) -> (r: String)
        ensures
            r@ == source_status_of(self.last_source_sync_at, ttl_seconds, now),
    {
        match self.last_source_sync_at {
            None => "empty".to_owned(),
            Some(last) => {
                #[verifier::truncate]
                let ttl = ttl_seconds as i64;
                if saturating_sub_i64(now, last) > ttl {
                    "stale".to_owned()
                } else {
                    "fresh".to_owned()
                }
            },
        }
    }
}

/// Freshness and age of the source: never synced is "empty" with no age; a
/// sync `d` seconds before `now` (with `d` in range) has age `d` and is
/// "fresh" while `d` is at most the TTL and "stale" once it is more (for a
/// TTL that fits in an `i64`); a sync stamped after `now` has age zero.
pub proof fn lemma_freshness_follows_age(last: i64, ttl_seconds: u64, now: i64)
    ensures
        source_status_of(None, ttl_seconds, now) == "empty"@,
        clock::age_of(None, now) is None,
        i64::MIN <= now - last <= i64::MAX && now >= last ==> clock::age_of(Some(last), now) == Some(
            (now - last) as i64,
        ),
        now < last ==> clock::age_of(Some(last), now) == Some(0i64),
        i64::MIN <= now - last <= i64::MAX && now - last <= ttl_seconds && ttl_seconds <= i64::MAX
            ==> source_status_of(
            Some(last),
            ttl_seconds,
            now,
        ) == "fresh"@,
        i64::MIN <= now - last <= i64::MAX && now - last > ttl_seconds && ttl_seconds <= i64::MAX
            ==> source_status_of(Some(last), ttl_seconds, now) == "stale"@,
{
}

} // verus!
