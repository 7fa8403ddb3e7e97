//! Collecting roster snapshots from Discord and syncing them into storage.
pub mod client;
pub mod error;
pub mod frame;
pub mod gateway;
pub mod session;
pub mod sidebar;
pub mod sync;

pub use error::CollectorError;
pub use frame::{decode_frame, gateway_payload};
pub use gateway::{DiscordGateway, merge_update, ranges_are_covered, take_ranges};
pub use sidebar::{MemberListUpdate, parse_update, plan_ranges};
pub use client::CollectorClientConfig;
pub use session::{GatewayCommand, GatewayEvent, GatewayOutcome, GatewayPayload, GatewaySession, GatewayStep};
pub use sync::{ChangeEvent, SnapshotDecision, apply_overrides, build_snapshot_records, decide_snapshot, override_ids, snapshot_size_without_overrides, snapshots_equal, validate_unique_discord_ids};
