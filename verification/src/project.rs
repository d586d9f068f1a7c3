//! Projects: the pages that posts and comments belong to.

use vstd::prelude::*;

verus! {

/// A project as the site describes it.
#[derive(Debug, Clone, PartialEq, Eq)]
pub struct ProjectFromCohost {
    pub ask_settings: ProjectAskSettings,
    pub avatar_preview_url: String,
    pub avatar_shape: AvatarShape,
    pub avatar_url: String,
    pub contact_card: Vec<ProjectContactCard>,
    pub dek: String,
    pub delete_after: Option<String>,
    pub description: String,
    pub display_name: String,
    pub flags: Vec<ProjectFlag>,
    pub frequently_used_tags: Vec<String>,
    pub handle: String,
    pub header_preview_url: Option<String>,
    pub header_url: Option<String>,
    pub is_self_project: Option<bool>,
    pub logged_out_post_visibility: LoggedOutPostVisibility,
    pub privacy: ProjectPrivacy,
    pub project_id: u64,
    pub pronouns: Option<String>,
    pub url: Option<String>,
}

/// The outline that an avatar is cut to.
#[derive(Debug, Clone, Copy, PartialEq, Eq, Structural)]
pub enum AvatarShape {
    Circle,
    Roundrect,
    Squircle,
    CapsuleBig,
    CapsuleSmall,
    Egg,
}

/// Whether a project is open to all.
#[derive(Debug, Clone, Copy, PartialEq, Eq, Structural)]
pub enum ProjectPrivacy {
    Public,
    Private,
}

/// What a reader who is not logged in sees of a project's posts.
#[derive(Debug, Clone, Copy, PartialEq, Eq, Structural)]
pub enum LoggedOutPostVisibility {
    Public,
    /// Posts are shown to nobody who is not logged in.
    Hidden,
}

/// A mark that the site set on a project.
#[derive(Debug, Clone, Copy, PartialEq, Eq, Structural)]
pub enum ProjectFlag {
    Staff,
    StaffMember,
    FriendOfTheSite,
    NoTransparentAvatar,
    Suspended,
    Automated,
    Parody,
}

/// Whether a project takes asks, and from whom.
#[derive(Debug, Clone, Copy, PartialEq, Eq, Structural)]
pub struct ProjectAskSettings {
    pub enabled: bool,
    pub allow_anon: bool,
    pub require_logged_in_anon: bool,
}

/// One line of a project's contact card.
#[derive(Debug, Clone, PartialEq, Eq)]
pub struct ProjectContactCard {
    pub service: String,
    pub value: String,
    pub visibility: ContactCardVisibility,
}

/// Who sees a line of a contact card.
#[derive(Debug, Clone, Copy, PartialEq, Eq, Structural)]
pub enum ContactCardVisibility {
    Public,
    LoggedIn,
    Follows,
    FollowingYou,
}

} // verus!
