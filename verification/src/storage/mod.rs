//! Snapshot storage: its status, errors and clock.
pub mod clock;
pub mod error;
pub mod overrides;
pub mod rows;
pub mod state;
pub mod status;

pub use clock::{age_seconds, now_unix, unix_seconds};
pub use error::StorageError;
pub use overrides::MemberOverride;
pub use rows::{member_override_from_row, member_record_from_row, member_row_lists};
pub use state::{decode_revision, decode_sync_time, encode_integer, next_revision};
pub use status::SystemStatus;
