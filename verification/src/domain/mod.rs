//! Members, badge rules and nicknames.
pub mod badges;
pub mod errors;
pub mod member;
pub mod models;
pub mod nicknames;

pub use badges::derive_badges;
pub use errors::DomainError;
pub use models::{BadgeGroup, BadgeRule, MemberOverride, MemberRecord, RawMember};
pub use nicknames::{MAX_NICKNAMES, normalize_nickname, normalize_nicknames};
pub use member::build_member_record;
