//! Comments and the trees they form.

use crate::project::ProjectFromCohost;
use vstd::prelude::*;

verus! {

/// A comment as the site describes it, with who wrote it and what the
/// viewer may do with it.
#[derive(Debug, PartialEq, Eq)]
pub struct CommentFromCohost {
    pub poster: Option<ProjectFromCohost>,
    pub comment: InnerComment,
    pub can_edit: Permission,
    pub can_hide: Permission,
    pub can_interact: Permission,
}

/// The comment itself, with the replies to it.
#[derive(Debug, PartialEq, Eq)]
pub struct InnerComment {
    pub body: String,
    pub comment_id: String,
    pub children: Vec<CommentFromCohost>,
    pub deleted: bool,
    pub has_cohost_plus: bool,
    pub hidden: bool,
    pub in_reply_to: Option<String>,
    pub post_id: u64,
    pub posted_at_iso: String,
}

/// Who may do a thing on a project.
#[derive(Debug, Clone, Copy, PartialEq, Eq, Structural)]
pub enum Permission {
    Allowed,
    NotAllowed,
    LogInFirst,
    Blocked,
}

} // verus!
