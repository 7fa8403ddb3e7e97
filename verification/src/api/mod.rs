//! The read side of the roster.
pub mod error;
pub mod health;
pub mod transform;

pub use error::ApiError;
pub use health::{HealthSummary, health_summary};
pub use transform::public_members;
