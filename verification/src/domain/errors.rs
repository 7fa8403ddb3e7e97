//! Errors of the roster's domain rules.
use vstd::prelude::*;

verus! {

/// Why a nickname or a member could not be accepted.
#[derive(Debug)]
pub enum DomainError {
    /// The nickname is empty once trimmed and normalized.
    EmptyNickname,
    /// More nicknames were requested than the limit allows.
    TooManyNicknames { max: usize },
    /// The Discord ID is empty once trimmed.
    EmptyDiscordId,
    /// Two members of one snapshot share a Discord ID.
    DuplicateDiscordId(String),
}

} // verus!
