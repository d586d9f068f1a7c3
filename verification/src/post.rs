//! Posts and the blocks they are made of.

use crate::project::{AvatarShape, ProjectFlag, ProjectFromCohost, ProjectPrivacy};
use vstd::prelude::*;

verus! {

/// A post as the site describes it. Its share tree holds the posts that
/// it is a share of, the earliest first.
#[derive(Debug, PartialEq, Eq)]
pub struct PostFromCohost {
    pub ast_map: PostAstMap,
    pub blocks: Vec<PostBlock>,
    pub can_publish: bool,
    pub can_share: bool,
    pub comments_locked: bool,
    pub contributor_block_incoming_or_outgoing: bool,
    pub cws: Vec<String>,
    pub effective_adult_content: bool,
    pub filename: String,
    pub has_any_contributor_muted: bool,
    pub has_cohost_plus: bool,
    /// Never absent; empty where the post has none.
    pub headline: String,
    pub is_editor: bool,
    pub is_liked: bool,
    pub limited_visibility_reason: LimitedVisibilityReason,
    pub num_comments: u64,
    pub num_shared_comments: u64,
    pub pinned: bool,
    pub plain_text_body: String,
    pub post_edit_url: String,
    pub post_id: u64,
    pub posting_project: ProjectFromCohost,
    /// ISO 8601; absent for a draft.
    pub published_at: Option<String>,
    pub related_projects: Vec<ProjectFromCohost>,
    pub response_to_ask_id: Option<String>,
    pub share_of_post_id: Option<u64>,
    pub share_tree: Vec<PostFromCohost>,
    pub shares_locked: bool,
    pub single_post_page_url: String,
    pub state: PostState,
    pub tags: Vec<String>,
    pub transparent_share_of_post_id: Option<u64>,
}

/// Where the read-more break of a post lies, and the spans of its blocks.
#[derive(Debug, Clone, PartialEq, Eq)]
pub struct PostAstMap {
    pub read_more_index: Option<u64>,
    pub spans: Vec<PostAstMapSpan>,
}

/// A run of blocks rendered as one piece.
#[derive(Debug, Clone, PartialEq, Eq)]
pub struct PostAstMapSpan {
    pub start_index: u64,
    pub end_index: u64,
    /// A JSON text.
    pub ast: String,
}

/// A block of a post.
#[derive(Debug, Clone, PartialEq, Eq)]
pub enum PostBlock {
    Ask { ask: PostBlockAsk },
    Attachment { attachment: PostBlockAttachment },
    AttachmentRow { attachments: Vec<PostBlockAttachmentWrapper> },
    Markdown { markdown: PostBlockMarkdown },
}

/// An ask that a post answers.
#[derive(Debug, Clone, PartialEq, Eq)]
pub struct PostBlockAsk {
    pub anon: bool,
    pub logged_in: bool,
    pub asking_project: Option<PostBlockAskProject>,
    pub ask_id: String,
    pub content: String,
    /// ISO 8601.
    pub sent_at: String,
}

/// The project that sent an ask.
#[derive(Debug, Clone, PartialEq, Eq)]
pub struct PostBlockAskProject {
    pub project_id: u64,
    pub handle: String,
    pub avatar_url: String,
    pub avatar_preview_url: String,
    pub privacy: ProjectPrivacy,
    pub flags: Vec<ProjectFlag>,
    pub avatar_shape: AvatarShape,
    pub display_name: String,
}

/// A block of markdown.
#[derive(Debug, Clone, PartialEq, Eq)]
pub struct PostBlockMarkdown {
    pub content: String,
}

/// An attachment as it stands in a row of attachments.
#[derive(Debug, Clone, PartialEq, Eq)]
pub struct PostBlockAttachmentWrapper {
    pub attachment: PostBlockAttachment,
}

/// An attached picture or sound.
#[derive(Debug, Clone, PartialEq, Eq)]
pub enum PostBlockAttachment {
    Image {
        alt_text: Option<String>,
        attachment_id: Option<String>,
        file_url: String,
        preview_url: String,
        width: Option<u64>,
        height: Option<u64>,
    },
    Audio { artist: Option<String>, title: Option<String>, preview_url: String, file_url: String },
}

/// Whether a post is a draft, published, or deleted.
#[derive(Debug, Clone, Copy, PartialEq, Eq, Hash, Structural)]
pub enum PostState {
    Draft,
    Published,
    Deleted,
}

/// Why a post is shown to fewer readers.
#[derive(Debug, Clone, Copy, PartialEq, Eq, Structural)]
pub enum LimitedVisibilityReason {
    /// Nothing keeps the post from being seen.
    NotLimited,
    LogInFirst,
    Deleted,
    Unpublished,
    AdultContent,
    Blocked,
}

impl PostState {
    /// The number that stands for the state where posts are written down.
    pub open spec fn spec_code(self) -> u32 {
        match self {
            PostState::Draft => 0,
            PostState::Published => 1,
            PostState::Deleted => 2,
        }
    }

    /// The number that stands for the state where posts are written down.
    pub fn code(self) -> (r: u32)
        ensures
            r == self.spec_code(),
    {
        match self {
            PostState::Draft => 0,
            PostState::Published => 1,
            PostState::Deleted => 2,
        }
    }

    /// The state that a number stands for: 0, 1 and 2 stand for one each,
    /// and no other number does.
    pub open spec fn spec_from_code(code: u32) -> Option<PostState> {
        if code == 0 {
            Some(PostState::Draft)
        } else if code == 1 {
            Some(PostState::Published)
        } else if code == 2 {
            Some(PostState::Deleted)
        } else {
            None
        }
    }

    /// What is written down for a state reads back as the state.
    pub proof fn lemma_code_reads_back(self)
        ensures
            Self::spec_from_code(self.spec_code()) == Some(self),
    {
    }

    /// The state that a number stands for.
    pub fn from_code(code: u32) -> (r: Option<PostState>)
        ensures
            r == Self::spec_from_code(code),
    {
        if code == 0 {
            Some(PostState::Draft)
        } else if code == 1 {
            Some(PostState::Published)
        } else if code == 2 {
            Some(PostState::Deleted)
        } else {
            None
        }
    }
}

} // verus!
