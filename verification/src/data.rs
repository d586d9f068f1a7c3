//! What the store holds of posts, projects and comments: the rows, and the
//! part of each entity that is kept as one block of data beside them.

use crate::comment::CommentFromCohost;
use crate::post::{PostBlock, PostFromCohost};
use crate::project::{
    AvatarShape, LoggedOutPostVisibility, ProjectAskSettings, ProjectContactCard, ProjectFlag,
    ProjectFromCohost, ProjectPrivacy,
};
use vstd::prelude::*;

verus! {

/// The version of the data that is written for a post.
pub const POST_DATA_VERSION: i32 = 2;

/// The version of the data that is written for a project.
pub const PROJECT_DATA_VERSION: i32 = 1;

/// The version of the data that is written for a comment.
pub const COMMENT_DATA_VERSION: i32 = 1;

/// What of a post is kept as data beside its row.
#[derive(Debug, Clone, PartialEq, Eq)]
pub struct PostDataV2 {
    pub blocks: Vec<PostBlock>,
    pub comments_locked: bool,
    pub shares_locked: bool,
    pub cws: Vec<String>,
    pub has_cohost_plus: bool,
    pub headline: String,
    pub num_comments: u64,
    pub num_shared_comments: u64,
    pub plain_text_body: String,
    pub post_edit_url: String,
    pub single_post_page_url: String,
}

/// What of a post was kept as data beside its row at first: all that
/// [`PostDataV2`] holds, and two flags that have since become columns.
#[derive(Debug, Clone, PartialEq, Eq)]
pub struct PostDataV1 {
    pub blocks: Vec<PostBlock>,
    pub comments_locked: bool,
    pub shares_locked: bool,
    pub cws: Vec<String>,
    pub effective_adult_content: bool,
    pub has_cohost_plus: bool,
    pub headline: String,
    pub num_comments: u64,
    pub num_shared_comments: u64,
    pub pinned: bool,
    pub plain_text_body: String,
    pub post_edit_url: String,
    pub single_post_page_url: String,
}

/// What of a project is kept as data beside its row.
#[derive(Debug, Clone, PartialEq, Eq)]
pub struct ProjectDataV1 {
    pub ask_settings: ProjectAskSettings,
    pub avatar_preview_url: String,
    pub avatar_shape: AvatarShape,
    pub avatar_url: String,
    pub contact_card: Vec<ProjectContactCard>,
    pub dek: String,
    pub delete_after: Option<String>,
    pub description: String,
    pub display_name: String,
    pub flags: Vec<ProjectFlag>,
    pub frequently_used_tags: Vec<String>,
    pub header_preview_url: Option<String>,
    pub header_url: Option<String>,
    pub logged_out_post_visibility: LoggedOutPostVisibility,
    pub privacy: ProjectPrivacy,
    pub pronouns: Option<String>,
    pub url: Option<String>,
}

/// What of a comment is kept as data beside its row.
#[derive(Debug, Clone, PartialEq, Eq)]
pub struct CommentDataV1 {
    pub body: String,
    pub deleted: bool,
    pub has_cohost_plus: bool,
    pub hidden: bool,
}

/// The row of a post.
#[derive(Debug, Clone, PartialEq, Eq)]
pub struct DbPost {
    pub id: i32,
    pub posting_project_id: i32,
    pub published_at: Option<String>,
    pub response_to_ask_id: Option<String>,
    pub share_of_post_id: Option<i32>,
    pub is_transparent_share: bool,
    pub filename: String,
    pub data: Vec<u8>,
    pub data_version: i32,
    pub state: i32,
    pub is_adult_content: bool,
    pub is_pinned: bool,
}

/// The row of a project.
#[derive(Debug, Clone, PartialEq, Eq)]
pub struct DbProject {
    pub id: i32,
    pub handle: String,
    pub is_private: bool,
    pub requires_logged_in: bool,
    pub data: Vec<u8>,
    pub data_version: i32,
}

/// The row of a comment.
#[derive(Debug, Clone, PartialEq, Eq)]
pub struct DbComment {
    pub id: String,
    pub post_id: i32,
    pub in_reply_to_id: Option<String>,
    pub posting_project_id: Option<i32>,
    pub published_at: String,
    pub data: Vec<u8>,
    pub data_version: i32,
}

/// Why the data of a row could not be read.
#[derive(Debug, Clone, PartialEq, Eq)]
pub enum DbDataError {
    /// The data does not decode; the text says why.
    Serde(String),
    /// The data is of a version that is not known.
    Version(i32),
}

/// The versions in which the data of a post is read.
#[derive(Debug, Clone, Copy, PartialEq, Eq, Structural)]
pub enum PostDataFormat {
    V1,
    V2,
}

/// The data of a post as read, in the version it was written in.
#[derive(Debug, Clone, PartialEq, Eq)]
pub enum PostData {
    V1(PostDataV1),
    V2(PostDataV2),
}

/// A copy of an optional text.
pub fn copy_text(text: &Option<String>) -> (r: Option<String>)
    ensures
        r == *text,
{
    match text {
        Some(t) => Some(t.clone()),
        None => None,
    }
}

/// The row id that stands for an id of the site: its low 32 bits, read as
/// a signed number.
pub open spec fn row_id(id: u64) -> i32 {
    id as i32
}

/// The row id that stands for an id of the site.
pub fn to_row_id(id: u64) -> (r: i32)
    ensures
        r == row_id(id),
{
    #[verifier::truncate]
    (id as i32)
}

/// The id of the site that a row id stands for.
pub open spec fn site_id(id: i32) -> u64 {
    id as u64
}

/// The id of the site that a row id stands for.
pub fn to_site_id(id: i32) -> (r: u64)
    ensures
        r == site_id(id),
{
    #[verifier::truncate]
    (id as u64)
}

/// The row id that stands for an optional id of the site.
pub open spec fn opt_row_id(id: Option<u64>) -> Option<i32> {
    match id {
        Some(i) => Some(row_id(i)),
        None => None,
    }
}

/// The row id that stands for an optional id of the site.
pub fn to_opt_row_id(id: Option<u64>) -> (r: Option<i32>)
    ensures
        r == opt_row_id(id),
{
    match id {
        Some(i) => Some(to_row_id(i)),
        None => None,
    }
}

impl PostDataV2 {
    /// What of a post is kept as data.
    pub fn from_post(post: PostFromCohost) -> (r: Self)
        ensures
            r.blocks == post.blocks,
            r.comments_locked == post.comments_locked,
            r.shares_locked == post.shares_locked,
            r.cws == post.cws,
            r.has_cohost_plus == post.has_cohost_plus,
            r.headline == post.headline,
            r.num_comments == post.num_comments,
            r.num_shared_comments == post.num_shared_comments,
            r.plain_text_body == post.plain_text_body,
            r.post_edit_url == post.post_edit_url,
            r.single_post_page_url == post.single_post_page_url,
    {
        PostDataV2 {
            blocks: post.blocks,
            comments_locked: post.comments_locked,
            shares_locked: post.shares_locked,
            cws: post.cws,
            has_cohost_plus: post.has_cohost_plus,
            headline: post.headline,
            num_comments: post.num_comments,
            num_shared_comments: post.num_shared_comments,
            plain_text_body: post.plain_text_body,
            post_edit_url: post.post_edit_url,
            single_post_page_url: post.single_post_page_url,
        }
    }

    /// The data of the first version in the form of the second: every
    /// field but the two that have become columns, unchanged.
    pub fn from_v1(data: PostDataV1) -> (r: Self)
        ensures
            r.blocks == data.blocks,
            r.comments_locked == data.comments_locked,
            r.shares_locked == data.shares_locked,
            r.cws == data.cws,
            r.has_cohost_plus == data.has_cohost_plus,
            r.headline == data.headline,
            r.num_comments == data.num_comments,
            r.num_shared_comments == data.num_shared_comments,
            r.plain_text_body == data.plain_text_body,
            r.post_edit_url == data.post_edit_url,
            r.single_post_page_url == data.single_post_page_url,
    {
        PostDataV2 {
            blocks: data.blocks,
            comments_locked: data.comments_locked,
            shares_locked: data.shares_locked,
            cws: data.cws,
            has_cohost_plus: data.has_cohost_plus,
            headline: data.headline,
            num_comments: data.num_comments,
            num_shared_comments: data.num_shared_comments,
            plain_text_body: data.plain_text_body,
            post_edit_url: data.post_edit_url,
            single_post_page_url: data.single_post_page_url,
        }
    }
}

impl PostData {
    /// The data in the form of the second version.
    pub fn upgrade(self) -> (r: PostDataV2)
        ensures
            match self {
                PostData::V2(data) => r == data,
                PostData::V1(data) => {
                    &&& r.blocks == data.blocks
                    &&& r.comments_locked == data.comments_locked
                    &&& r.shares_locked == data.shares_locked
                    &&& r.cws == data.cws
                    &&& r.has_cohost_plus == data.has_cohost_plus
                    &&& r.headline == data.headline
                    &&& r.num_comments == data.num_comments
                    &&& r.num_shared_comments == data.num_shared_comments
                    &&& r.plain_text_body == data.plain_text_body
                    &&& r.post_edit_url == data.post_edit_url
                    &&& r.single_post_page_url == data.single_post_page_url
                },
            },
    {
        match self {
            PostData::V2(data) => data,
            PostData::V1(data) => PostDataV2::from_v1(data),
        }
    }
}

impl ProjectDataV1 {
    /// What of a project is kept as data.
    pub fn from_project(project: ProjectFromCohost) -> (r: Self)
        ensures
            r.ask_settings == project.ask_settings,
            r.avatar_preview_url == project.avatar_preview_url,
            r.avatar_shape == project.avatar_shape,
            r.avatar_url == project.avatar_url,
            r.contact_card == project.contact_card,
            r.dek == project.dek,
            r.delete_after == project.delete_after,
            r.description == project.description,
            r.display_name == project.display_name,
            r.flags == project.flags,
            r.frequently_used_tags == project.frequently_used_tags,
            r.header_preview_url == project.header_preview_url,
            r.header_url == project.header_url,
            r.logged_out_post_visibility == project.logged_out_post_visibility,
            r.privacy == project.privacy,
            r.pronouns == project.pronouns,
            r.url == project.url,
    {
        ProjectDataV1 {
            ask_settings: project.ask_settings,
            avatar_preview_url: project.avatar_preview_url,
            avatar_shape: project.avatar_shape,
            avatar_url: project.avatar_url,
            contact_card: project.contact_card,
            dek: project.dek,
            delete_after: project.delete_after,
            description: project.description,
            display_name: project.display_name,
            flags: project.flags,
            frequently_used_tags: project.frequently_used_tags,
            header_preview_url: project.header_preview_url,
            header_url: project.header_url,
            logged_out_post_visibility: project.logged_out_post_visibility,
            privacy: project.privacy,
            pronouns: project.pronouns,
            url: project.url,
        }
    }
}

impl CommentDataV1 {
    /// What of a comment is kept as data.
    pub fn from_comment(comment: &CommentFromCohost) -> (r: Self)
        ensures
            r.body == comment.comment.body,
            r.deleted == comment.comment.deleted,
            r.has_cohost_plus == comment.comment.has_cohost_plus,
            r.hidden == comment.comment.hidden,
    {
        CommentDataV1 {
            body: comment.comment.body.clone(),
            deleted: comment.comment.deleted,
            has_cohost_plus: comment.comment.has_cohost_plus,
            hidden: comment.comment.hidden,
        }
    }
}

impl DbPost {
    /// The row of a post, with the data that goes beside it. The post
    /// counts as a transparent share where it names the post that it
    /// shares so.
    pub fn from_post(post: &PostFromCohost, data: Vec<u8>, data_version: i32) -> (r: Self)
        ensures
            r.id == row_id(post.post_id),
            r.posting_project_id == row_id(post.posting_project.project_id),
            r.published_at == post.published_at,
            r.response_to_ask_id == post.response_to_ask_id,
            r.share_of_post_id == opt_row_id(post.share_of_post_id),
            r.is_transparent_share == post.transparent_share_of_post_id.is_some(),
            r.filename == post.filename,
            r.data == data,
            r.data_version == data_version,
            r.state == post.state.spec_code(),
            r.is_adult_content == post.effective_adult_content,
            r.is_pinned == post.pinned,
    {
        DbPost {
            id: to_row_id(post.post_id),
            posting_project_id: to_row_id(post.posting_project.project_id),
            published_at: copy_text(&post.published_at),
            response_to_ask_id: copy_text(&post.response_to_ask_id),
            share_of_post_id: to_opt_row_id(post.share_of_post_id),
            is_transparent_share: post.transparent_share_of_post_id.is_some(),
            filename: post.filename.clone(),
            data,
            data_version,
            state: post.state.code() as i32,
            is_adult_content: post.effective_adult_content,
            is_pinned: post.pinned,
        }
    }

    /// The version in which the data of the row is to be read: the first
    /// or the second, and an error for any other.
    pub fn data_format(&self) -> (r: Result<PostDataFormat, DbDataError>)
        ensures
            self.data_version == 2 ==> r == Ok::<PostDataFormat, DbDataError>(PostDataFormat::V2),
            self.data_version == 1 ==> r == Ok::<PostDataFormat, DbDataError>(PostDataFormat::V1),
            self.data_version != 1 && self.data_version != 2 ==> r == Err::<
                PostDataFormat,
                DbDataError,
            >(DbDataError::Version(self.data_version)),
    {
        if self.data_version == 2 {
            Ok(PostDataFormat::V2)
        } else if self.data_version == 1 {
            Ok(PostDataFormat::V1)
        } else {
            Err(DbDataError::Version(self.data_version))
        }
    }

    /// The row of a post whose data is of the first version, brought to
    /// the second: the two flags that the data held become columns, and
    /// the data is named as being of the second version. The data itself
    /// is still to be written anew, from what [`PostDataV2::from_v1`]
    /// makes of it. A row of another version is left as it is.
    pub fn migrate_to_v2(self, data: &PostDataV1) -> (r: Self)
        ensures
            self.data_version != 1 ==> r == self,
            self.data_version == 1 ==> r == (DbPost {
                is_adult_content: data.effective_adult_content,
                is_pinned: data.pinned,
                data_version: 2,
                ..self
            }),
    {
        if self.data_version != 1 {
            return self;
        }
        let mut row = self;
        row.is_adult_content = data.effective_adult_content;
        row.is_pinned = data.pinned;
        row.data_version = 2;
        row
    }
}

impl DbProject {
    /// The row of a project, with the data that goes beside it.
    pub fn from_project(project: &ProjectFromCohost, data: Vec<u8>, data_version: i32) -> (r:
        Self)
        ensures
            r.id == row_id(project.project_id),
            r.handle == project.handle,
            r.is_private == (project.privacy == ProjectPrivacy::Private),
            r.requires_logged_in == (project.logged_out_post_visibility
                == LoggedOutPostVisibility::Hidden),
            r.data == data,
            r.data_version == data_version,
    {
        DbProject {
            id: to_row_id(project.project_id),
            handle: project.handle.clone(),
            is_private: project.privacy == ProjectPrivacy::Private,
            requires_logged_in: project.logged_out_post_visibility
                == LoggedOutPostVisibility::Hidden,
            data,
            data_version,
        }
    }

    /// Whether the data of the row can be read: it is of the one version
    /// that is known.
    pub fn data_format(&self) -> (r: Result<(), DbDataError>)
        ensures
            self.data_version == 1 ==> r == Ok::<(), DbDataError>(()),
            self.data_version != 1 ==> r == Err::<(), DbDataError>(
                DbDataError::Version(self.data_version),
            ),
    {
        if self.data_version == 1 {
            Ok(())
        } else {
            Err(DbDataError::Version(self.data_version))
        }
    }
}

impl DbComment {
    /// The row of a comment on the given post, with the data that goes
    /// beside it.
    pub fn from_comment(
        post_id: u64,
        comment: &CommentFromCohost,
        data: Vec<u8>,
        data_version: i32,
    ) -> (r: Self)
        ensures
            r.id == comment.comment.comment_id,
            r.post_id == row_id(post_id),
            r.in_reply_to_id == comment.comment.in_reply_to,
            r.posting_project_id == (match comment.poster {
                Some(p) => Some(row_id(p.project_id)),
                None => None,
            }),
            r.published_at == comment.comment.posted_at_iso,
            r.data == data,
            r.data_version == data_version,
    {
        DbComment {
            id: comment.comment.comment_id.clone(),
            post_id: to_row_id(post_id),
            in_reply_to_id: copy_text(&comment.comment.in_reply_to),
            posting_project_id: match &comment.poster {
                Some(p) => Some(to_row_id(p.project_id)),
                None => None,
            },
            published_at: comment.comment.posted_at_iso.clone(),
            data,
            data_version,
        }
    }

    /// Whether the data of the row can be read: it is of the one version
    /// that is known.
    pub fn data_format(&self) -> (r: Result<(), DbDataError>)
        ensures
            self.data_version == 1 ==> r == Ok::<(), DbDataError>(()),
            self.data_version != 1 ==> r == Err::<(), DbDataError>(
                DbDataError::Version(self.data_version),
            ),
    {
        if self.data_version == 1 {
            Ok(())
        } else {
            Err(DbDataError::Version(self.data_version))
        }
    }
}

/// The most posts that are read at once.
pub const MAX_READ_LIMIT: u64 = 100;

/// Which posts to read from the store, the latest first. A condition that
/// is `None` or empty is none.
#[derive(Debug, Clone, PartialEq, Eq)]
pub struct PostQuery {
    /// Posts of this project.
    pub posting_project_id: Option<u64>,
    /// Shares of this post.
    pub share_of_post_id: Option<u64>,
    /// Posts that this project likes.
    pub is_liked_by: Option<u64>,
    /// Posts of the projects that this project follows.
    pub is_dashboard_for: Option<u64>,
    /// Posts that bear one of these tags.
    pub include_tags: Vec<String>,
    /// Posts that bear a tag that is none of these.
    pub exclude_tags: Vec<String>,
    /// Posts that answer an ask, or those that do not.
    pub is_ask: Option<bool>,
    /// Posts for adults, or those that are not.
    pub is_adult: Option<bool>,
    /// Shares with something added, or the other posts.
    pub is_reply: Option<bool>,
    /// Transparent shares, or the other posts.
    pub is_share: Option<bool>,
    /// Pinned posts, or those that are not.
    pub is_pinned: Option<bool>,
    /// How many posts to pass over.
    pub offset: u64,
    /// How many posts to read.
    pub limit: u64,
}

impl PostQuery {
    /// The query that asks for nothing in particular.
    pub open spec fn is_default(&self) -> bool {
        &&& self.posting_project_id is None
        &&& self.share_of_post_id is None
        &&& self.is_liked_by is None
        &&& self.is_dashboard_for is None
        &&& self.include_tags@.len() == 0
        &&& self.exclude_tags@.len() == 0
        &&& self.is_ask is None
        &&& self.is_adult is None
        &&& self.is_reply is None
        &&& self.is_share is None
        &&& self.is_pinned is None
        &&& self.offset == 0
        &&& self.limit == 20
    }

    /// How many posts are read for the query: as many as it asks for, but
    /// no more than [`MAX_READ_LIMIT`].
    pub fn read_limit(&self) -> (r: u64)
        ensures
            r == (if self.limit <= MAX_READ_LIMIT {
                self.limit
            } else {
                MAX_READ_LIMIT
            }),
    {
        if self.limit <= MAX_READ_LIMIT {
            self.limit
        } else {
            MAX_READ_LIMIT
        }
    }
}

impl Default for PostQuery {
    /// The first twenty posts of all.
    fn default() -> (r: Self)
        ensures
            r.is_default(),
    {
        PostQuery {
            posting_project_id: None,
            share_of_post_id: None,
            is_liked_by: None,
            is_dashboard_for: None,
            include_tags: Vec::new(),
            exclude_tags: Vec::new(),
            is_ask: None,
            is_adult: None,
            is_reply: None,
            is_share: None,
            is_pinned: None,
            offset: 0,
            limit: 20,
        }
    }
}

} // verus!
