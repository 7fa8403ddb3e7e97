use gytags_roster::scraper::{
    FULL_SYNC_INTERVAL_SECS, RETRY_INTERVAL_SECS, ScrapeOutcome, next_scrape_delay_secs,
};

#[test]
fn first_scrape_starts_at_once() {
    assert_eq!(next_scrape_delay_secs(None), 0);
}

#[test]
fn successful_scrape_waits_a_day() {
    assert_eq!(next_scrape_delay_secs(Some(ScrapeOutcome::Synced)), 24 * 60 * 60);
    assert_eq!(FULL_SYNC_INTERVAL_SECS, 86_400);
}

#[test]
fn failed_scrape_is_retried_after_five_minutes() {
    assert_eq!(next_scrape_delay_secs(Some(ScrapeOutcome::CollectionFailed)), 5 * 60);
    assert_eq!(next_scrape_delay_secs(Some(ScrapeOutcome::SyncFailed)), RETRY_INTERVAL_SECS);
}
