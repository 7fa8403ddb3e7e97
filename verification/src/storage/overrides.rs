//! Stored administrator overrides.
use vstd::prelude::*;

verus! {

/// A stored override: the record an administrator fixed for a Discord account.
#[derive(Debug, Clone, PartialEq, Eq)]
pub struct MemberOverride {
    pub discord_id: String,
    pub nickname_raw: String,
    pub role_ids: Vec<String>,
    pub badges: Vec<String>,
}

/// The view of a stored [`MemberOverride`].
pub struct MemberOverrideView {
    pub discord_id: Seq<char>,
    pub nickname_raw: Seq<char>,
    pub role_ids: Seq<Seq<char>>,
    pub badges: Seq<Seq<char>>,
}

impl View for MemberOverride {
    type V = MemberOverrideView;

    open spec fn view(&self) -> MemberOverrideView {
        MemberOverrideView {
            discord_id: self.discord_id@,
            nickname_raw: self.nickname_raw@,
            role_ids: self.role_ids.deep_view(),
            badges: self.badges.deep_view(),
        }
    }
}

/// The views of a sequence of overrides.
pub open spec fn overrides_view(overrides: Seq<MemberOverride>) -> Seq<MemberOverrideView> {
    overrides.map_values(|o: MemberOverride| o@)
}

} // verus!
