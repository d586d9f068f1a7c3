//! Entities as the site described them, put together again from what the
//! store holds of them.

use crate::comment::{CommentFromCohost, InnerComment, Permission};
use crate::data::{
    site_id, to_site_id, CommentDataV1, DbComment, DbDataError, DbPost, DbProject, PostDataV2,
    ProjectDataV1,
};
use crate::render::rewrite::reversed;
use crate::text::{is_text, to_chars};
use crate::post::{LimitedVisibilityReason, PostAstMap, PostFromCohost, PostState};
use crate::project::ProjectFromCohost;
use vstd::prelude::*;

verus! {

/// Why an entity could not be put together.
#[derive(Debug, Clone, PartialEq, Eq)]
pub enum GetDataError {
    /// The store holds no such row.
    NotFound,
    /// The store failed otherwise; the text says how.
    OtherQuery(String),
    /// The data of a row could not be read.
    DbData(DbDataError),
    /// The renderer failed; the text says how.
    Render(String),
}

impl GetDataError {
    /// The HTTP status to answer with: 404 for what the store does not
    /// hold, and 500 for everything else.
    pub fn status(&self) -> (r: u16)
        ensures
            r == (if self is NotFound {
                404u16
            } else {
                500u16
            }),
    {
        match self {
            GetDataError::NotFound => 404,
            _ => 500,
        }
    }
}

/// A project as the site described it, given its row and the data beside
/// it, as seen by the project of the given id.
pub fn cohost_api_project(row: DbProject, data: ProjectDataV1, viewer_id: u64, project_id: u64) -> (r:
    ProjectFromCohost)
    ensures
        r.ask_settings == data.ask_settings,
        r.avatar_preview_url == data.avatar_preview_url,
        r.avatar_shape == data.avatar_shape,
        r.avatar_url == data.avatar_url,
        r.contact_card == data.contact_card,
        r.dek == data.dek,
        r.delete_after == data.delete_after,
        r.description == data.description,
        r.display_name == data.display_name,
        r.flags == data.flags,
        r.frequently_used_tags == data.frequently_used_tags,
        r.handle == row.handle,
        r.header_preview_url == data.header_preview_url,
        r.header_url == data.header_url,
        r.is_self_project == Some(project_id == viewer_id),
        r.logged_out_post_visibility == data.logged_out_post_visibility,
        r.privacy == data.privacy,
        r.project_id == project_id,
        r.pronouns == data.pronouns,
        r.url == data.url,
{
    ProjectFromCohost {
        ask_settings: data.ask_settings,
        avatar_preview_url: data.avatar_preview_url,
        avatar_shape: data.avatar_shape,
        avatar_url: data.avatar_url,
        contact_card: data.contact_card,
        dek: data.dek,
        delete_after: data.delete_after,
        description: data.description,
        display_name: data.display_name,
        flags: data.flags,
        frequently_used_tags: data.frequently_used_tags,
        handle: row.handle,
        header_preview_url: data.header_preview_url,
        header_url: data.header_url,
        is_self_project: Some(project_id == viewer_id),
        logged_out_post_visibility: data.logged_out_post_visibility,
        privacy: data.privacy,
        project_id,
        pronouns: data.pronouns,
        url: data.url,
    }
}

/// The share tree of a post, given the post that it is a share of as put
/// together before: the share tree of that post, and then that post
/// itself, without a share tree of its own. The earliest post comes
/// first, and a post that is a share of nothing has no share tree.
pub fn share_tree_of(parent: Option<PostFromCohost>) -> (r: Vec<PostFromCohost>)
    ensures
        match parent {
            None => r@.len() == 0,
            Some(p) => {
                &&& r@.len() == p.share_tree@.len() + 1
                &&& r@.take(p.share_tree@.len() as int) == p.share_tree@
                &&& r@.last().share_tree@.len() == 0
                &&& r@.last() == (PostFromCohost { share_tree: r@.last().share_tree, ..p })
            },
        },
{
    match parent {
        None => Vec::new(),
        Some(p) => {
            let mut p = p;
            let mut tree: Vec<PostFromCohost> = Vec::new();
            std::mem::swap(&mut tree, &mut p.share_tree);
            let ghost before = tree@;
            tree.push(p);
            assert(tree@.take(before.len() as int) == before);
            tree
        },
    }
}

/// The position of the last post that is no transparent share, or `-1`.
pub open spec fn last_opaque(tree: Seq<PostFromCohost>) -> int
    decreases tree.len(),
{
    if tree.len() == 0 {
        -1
    } else if tree.last().transparent_share_of_post_id is None {
        tree.len() - 1
    } else {
        last_opaque(tree.drop_last())
    }
}

/// The post that a transparent share shows: the last post of its share
/// tree that is no transparent share itself.
pub fn transparent_share_target(share_tree: &Vec<PostFromCohost>) -> (r: Option<u64>)
    ensures
        match r {
            Some(id) => 0 <= last_opaque(share_tree@) < share_tree@.len() && id
                == share_tree@[last_opaque(share_tree@)].post_id,
            None => last_opaque(share_tree@) == -1,
        },
{
    let mut i: usize = share_tree.len();
    assert(share_tree@.take(share_tree.len() as int) == share_tree@);
    while i > 0
        invariant
            i <= share_tree.len(),
            last_opaque(share_tree@) == last_opaque(share_tree@.take(i as int)),
        decreases i,
    {
        assert(share_tree@.take(i as int).drop_last() == share_tree@.take(i - 1));
        if share_tree[i - 1].transparent_share_of_post_id.is_none() {
            return Some(share_tree[i - 1].post_id);
        }
        i = i - 1;
    }
    None
}

/// A post as the site described it, given its row and the data beside
/// it, the project that it is of, the post that it is a share of, its
/// tags, and whether the viewer likes it. What the store does not hold of
/// a post is filled in as for a published post that anyone may see and
/// nobody may change.
pub fn cohost_api_post(
    post_id: u64,
    row: DbPost,
    data: PostDataV2,
    posting_project: ProjectFromCohost,
    parent: Option<PostFromCohost>,
    tags: Vec<String>,
    is_liked: bool,
) -> (r: PostFromCohost)
    ensures
        r.ast_map.read_more_index is None,
        r.ast_map.spans@.len() == 0,
        r.blocks == data.blocks,
        !r.can_publish,
        r.can_share == !data.shares_locked,
        r.comments_locked == data.comments_locked,
        !r.contributor_block_incoming_or_outgoing,
        r.cws == data.cws,
        r.effective_adult_content == row.is_adult_content,
        r.filename == row.filename,
        !r.has_any_contributor_muted,
        r.has_cohost_plus == data.has_cohost_plus,
        r.headline == data.headline,
        !r.is_editor,
        r.is_liked == is_liked,
        r.limited_visibility_reason == LimitedVisibilityReason::NotLimited,
        r.num_comments == data.num_comments,
        r.num_shared_comments == data.num_shared_comments,
        r.pinned == row.is_pinned,
        r.plain_text_body == data.plain_text_body,
        r.post_edit_url == data.post_edit_url,
        r.post_id == post_id,
        r.posting_project == posting_project,
        r.published_at == row.published_at,
        r.related_projects@.len() == 0,
        r.response_to_ask_id == row.response_to_ask_id,
        r.share_of_post_id == (match row.share_of_post_id {
            Some(id) => Some(site_id(id)),
            None => None,
        }),
        match parent {
            None => r.share_tree@.len() == 0,
            Some(p) => {
                &&& r.share_tree@.len() == p.share_tree@.len() + 1
                &&& r.share_tree@.take(p.share_tree@.len() as int) == p.share_tree@
                &&& r.share_tree@.last().share_tree@.len() == 0
                &&& r.share_tree@.last() == (PostFromCohost {
                    share_tree: r.share_tree@.last().share_tree,
                    ..p
                })
            },
        },
        r.shares_locked == data.shares_locked,
        r.single_post_page_url == data.single_post_page_url,
        r.state == PostState::Published,
        r.tags == tags,
        match r.transparent_share_of_post_id {
            Some(id) => row.is_transparent_share && 0 <= last_opaque(r.share_tree@)
                < r.share_tree@.len() && id == r.share_tree@[last_opaque(r.share_tree@)].post_id,
            None => !row.is_transparent_share || last_opaque(r.share_tree@) == -1,
        },
{
    let share_tree = share_tree_of(parent);
    let transparent_share_of_post_id = if row.is_transparent_share {
        transparent_share_target(&share_tree)
    } else {
        None
    };
    PostFromCohost {
        ast_map: PostAstMap { read_more_index: None, spans: Vec::new() },
        blocks: data.blocks,
        can_publish: false,
        can_share: !data.shares_locked,
        comments_locked: data.comments_locked,
        contributor_block_incoming_or_outgoing: false,
        cws: data.cws,
        effective_adult_content: row.is_adult_content,
        filename: row.filename,
        has_any_contributor_muted: false,
        has_cohost_plus: data.has_cohost_plus,
        headline: data.headline,
        is_editor: false,
        is_liked,
        limited_visibility_reason: LimitedVisibilityReason::NotLimited,
        num_comments: data.num_comments,
        num_shared_comments: data.num_shared_comments,
        pinned: row.is_pinned,
        plain_text_body: data.plain_text_body,
        post_edit_url: data.post_edit_url,
        post_id,
        posting_project,
        published_at: row.published_at,
        related_projects: Vec::new(),
        response_to_ask_id: row.response_to_ask_id,
        share_of_post_id: match row.share_of_post_id {
            Some(id) => Some(to_site_id(id)),
            None => None,
        },
        share_tree,
        shares_locked: data.shares_locked,
        single_post_page_url: data.single_post_page_url,
        state: PostState::Published,
        tags,
        transparent_share_of_post_id,
    }
}

/// The posts whose comments are shown with a post: the post itself, and
/// then the posts of its share tree.
pub fn posts_with_shown_comments(post: &PostFromCohost) -> (r: Vec<u64>)
    ensures
        r@.len() == post.share_tree@.len() + 1,
        r@[0] == post.post_id,
        forall|i: int| 0 <= i < post.share_tree@.len() ==> r@[i + 1] == post.share_tree@[i].post_id,
{
    let mut ids: Vec<u64> = Vec::new();
    ids.push(post.post_id);
    let mut i: usize = 0;
    while i < post.share_tree.len()
        invariant
            i <= post.share_tree.len(),
            ids@.len() == i + 1,
            ids@[0] == post.post_id,
            forall|k: int| 0 <= k < i ==> ids@[k + 1] == post.share_tree@[k].post_id,
        decreases post.share_tree.len() - i,
    {
        ids.push(post.share_tree[i].post_id);
        i = i + 1;
    }
    ids
}

/// A comment as the site described it, without the replies to it, given
/// its row and the data beside it, the project that wrote it, and who
/// looks at it: the project of the viewer may change its own comments,
/// and who may change the post may hide comments on it.
pub fn comment_from_row(
    row: DbComment,
    data: CommentDataV1,
    poster: Option<ProjectFromCohost>,
    viewer_id: u64,
    post_id: u64,
    is_editor: bool,
) -> (r: CommentFromCohost)
    ensures
        r.poster == poster,
        r.comment.body == data.body,
        r.comment.comment_id == row.id,
        r.comment.children@.len() == 0,
        r.comment.deleted == data.deleted,
        r.comment.has_cohost_plus == data.has_cohost_plus,
        r.comment.hidden == data.hidden,
        r.comment.in_reply_to == row.in_reply_to_id,
        r.comment.post_id == post_id,
        r.comment.posted_at_iso == row.published_at,
        r.can_edit == (if row.posting_project_id matches Some(p) && site_id(p) == viewer_id {
            Permission::Allowed
        } else {
            Permission::NotAllowed
        }),
        r.can_hide == (if is_editor {
            Permission::Allowed
        } else {
            Permission::NotAllowed
        }),
        r.can_interact == Permission::Allowed,
{
    let is_viewer_comment = match row.posting_project_id {
        Some(p) => to_site_id(p) == viewer_id,
        None => false,
    };
    CommentFromCohost {
        poster,
        comment: InnerComment {
            body: data.body,
            comment_id: row.id,
            children: Vec::new(),
            deleted: data.deleted,
            has_cohost_plus: data.has_cohost_plus,
            hidden: data.hidden,
            in_reply_to: row.in_reply_to_id,
            post_id,
            posted_at_iso: row.published_at,
        },
        can_edit: if is_viewer_comment {
            Permission::Allowed
        } else {
            Permission::NotAllowed
        },
        can_hide: if is_editor {
            Permission::Allowed
        } else {
            Permission::NotAllowed
        },
        can_interact: Permission::Allowed,
    }
}

/// A comment with the replies to it.
pub struct CommentTree {
    pub comment: CommentFromCohost,
    pub replies: Seq<CommentTree>,
}

/// What a comment says it replies to, and the empty text where it says
/// nothing.
pub open spec fn reply_key(comment: CommentFromCohost) -> Seq<char> {
    match comment.comment.in_reply_to {
        Some(parent) => parent@,
        None => Seq::empty(),
    }
}

/// The comments that say they reply to the given comment, in order.
pub open spec fn replies_to(pool: Seq<CommentFromCohost>, parent: Seq<char>) -> Seq<
    CommentFromCohost,
>
    decreases pool.len(),
{
    if pool.len() == 0 {
        Seq::empty()
    } else if reply_key(pool.last()) == parent {
        replies_to(pool.drop_last(), parent).push(pool.last())
    } else {
        replies_to(pool.drop_last(), parent)
    }
}

/// The comments that do not say they reply to the given comment, in
/// order.
pub open spec fn others_than(pool: Seq<CommentFromCohost>, parent: Seq<char>) -> Seq<
    CommentFromCohost,
>
    decreases pool.len(),
{
    if pool.len() == 0 {
        Seq::empty()
    } else if reply_key(pool.last()) == parent {
        others_than(pool.drop_last(), parent)
    } else {
        others_than(pool.drop_last(), parent).push(pool.last())
    }
}

/// The threads that hang on a comment, and the comments that are left
/// over: the comments of the pool that say they reply to the comment are
/// taken out of the pool, all at once, and each of them in turn gets the
/// threads that hang on it from what is left then. `depth` bounds how deep
/// the threads go; the number of comments in the pool is always enough.
pub open spec fn threads_on(pool: Seq<CommentFromCohost>, parent: Seq<char>, depth: nat) -> (
    Seq<CommentTree>,
    Seq<CommentFromCohost>,
)
    decreases depth, 0nat,
{
    let group = replies_to(pool, parent);
    if depth == 0 || group.len() == 0 {
        (Seq::empty(), pool)
    } else {
        threads_of(group, others_than(pool, parent), (depth - 1) as nat)
    }
}

/// The threads that begin with each of the given comments, in order, and
/// the comments that are left over.
pub open spec fn threads_of(
    group: Seq<CommentFromCohost>,
    pool: Seq<CommentFromCohost>,
    depth: nat,
) -> (Seq<CommentTree>, Seq<CommentFromCohost>)
    decreases depth, 1 + group.len(),
{
    if group.len() == 0 {
        (Seq::empty(), pool)
    } else {
        let below = threads_on(pool, group[0].comment.comment_id@, depth);
        let after = threads_of(group.skip(1), below.1, depth);
        (seq![CommentTree { comment: group[0], replies: below.0 }] + after.0, after.1)
    }
}

/// Each of the comments as a thread of its own.
pub open spec fn single_threads(comments: Seq<CommentFromCohost>) -> Seq<CommentTree> {
    comments.map_values(|c: CommentFromCohost| CommentTree { comment: c, replies: Seq::empty() })
}

/// The threads of the comments on a post: those that hang on no comment,
/// with all that hangs on them, and then, each on its own, the comments
/// that say they reply to a comment that is not among them.
pub open spec fn comment_threads(comments: Seq<CommentFromCohost>) -> Seq<CommentTree> {
    let top = threads_on(comments, Seq::empty(), comments.len());
    top.0 + single_threads(top.1)
}

/// Whether a comment is the given thread: the comment of the thread, with
/// the replies of the thread as its replies.
pub open spec fn is_thread(comment: CommentFromCohost, thread: CommentTree) -> bool
    decreases thread,
{
    &&& comment == (CommentFromCohost {
        comment: InnerComment { children: comment.comment.children, ..thread.comment.comment },
        ..thread.comment
    })
    &&& are_threads(comment.comment.children@, thread.replies)
}

/// Whether the comments are the given threads, one by one.
pub open spec fn are_threads(comments: Seq<CommentFromCohost>, threads: Seq<CommentTree>) -> bool
    decreases threads,
{
    &&& comments.len() == threads.len()
    &&& threads.len() > 0 ==> is_thread(comments.last(), threads.last()) && are_threads(
        comments.drop_last(),
        threads.drop_last(),
    )
}

/// Dividing a pool by parent loses and adds nothing.
pub proof fn lemma_split_len(pool: Seq<CommentFromCohost>, parent: Seq<char>)
    ensures
        replies_to(pool, parent).len() + others_than(pool, parent).len() == pool.len(),
    decreases pool.len(),
{
    if pool.len() > 0 {
        lemma_split_len(pool.drop_last(), parent);
    }
}

/// Threads take comments out of the pool and put none in.
pub proof fn lemma_threads_shrink_pool(pool: Seq<CommentFromCohost>, parent: Seq<char>, depth: nat)
    ensures
        threads_on(pool, parent, depth).1.len() <= pool.len(),
    decreases depth, 0nat,
{
    let group = replies_to(pool, parent);
    if depth == 0 || group.len() == 0 {
    } else {
        lemma_split_len(pool, parent);
        lemma_thread_group_shrinks_pool(group, others_than(pool, parent), (depth - 1) as nat);
    }
}

/// The threads of a group of comments take comments out of the pool and
/// put none in.
pub proof fn lemma_thread_group_shrinks_pool(
    group: Seq<CommentFromCohost>,
    pool: Seq<CommentFromCohost>,
    depth: nat,
)
    ensures
        threads_of(group, pool, depth).1.len() <= pool.len(),
    decreases depth, 1 + group.len(),
{
    if group.len() > 0 {
        lemma_threads_shrink_pool(pool, group[0].comment.comment_id@, depth);
        lemma_thread_group_shrinks_pool(
            group.skip(1),
            threads_on(pool, group[0].comment.comment_id@, depth).1,
            depth,
        );
    }
}

/// Threads stay threads of their comments when one more pair is added.
pub proof fn lemma_are_threads_push(
    comments: Seq<CommentFromCohost>,
    threads: Seq<CommentTree>,
    comment: CommentFromCohost,
    thread: CommentTree,
)
    requires
        are_threads(comments, threads),
        is_thread(comment, thread),
    ensures
        are_threads(comments.push(comment), threads.push(thread)),
{
    assert(comments.push(comment).drop_last() == comments);
    assert(threads.push(thread).drop_last() == threads);
}

fn replies_here(comment: &CommentFromCohost, parent: &Vec<char>) -> (r: bool)
    ensures
        r == (reply_key(*comment) == parent@),
{
    match &comment.comment.in_reply_to {
        Some(p) => is_text(parent, p.as_str()),
        None => {
            assert((parent@.len() == 0) == (Seq::<char>::empty() =~= parent@));
            parent.len() == 0
        },
    }
}

/// Takes the comments that say they reply to the given comment out of
/// the pool.
fn take_replies(pool: &mut Vec<CommentFromCohost>, parent: &Vec<char>) -> (group: Vec<
    CommentFromCohost,
>)
    ensures
        group@ == replies_to(old(pool)@, parent@),
        final(pool)@ == others_than(old(pool)@, parent@),
{
    let ghost all = pool@;
    let mut src: Vec<CommentFromCohost> = Vec::new();
    std::mem::swap(&mut src, pool);
    let mut rev = reversed(src);
    let mut group: Vec<CommentFromCohost> = Vec::new();
    let ghost mut i: int = 0;
    assert(all.take(0) == Seq::<CommentFromCohost>::empty());
    while rev.len() > 0
        invariant
            0 <= i <= all.len(),
            i + rev@.len() == all.len(),
            rev@ == all.reverse().take(rev@.len() as int),
            group@ == replies_to(all.take(i), parent@),
            pool@ == others_than(all.take(i), parent@),
        decreases rev.len(),
    {
        let item = rev.pop().unwrap();
        assert(item == all[i]);
        assert(all.take(i + 1).drop_last() == all.take(i));
        assert(all.take(i + 1).last() == item);
        if replies_here(&item, parent) {
            group.push(item);
        } else {
            pool.push(item);
        }
        proof {
            i = i + 1;
        }
    }
    assert(all.take(all.len() as int) == all);
    group
}

fn collect_threads(
    pool: &mut Vec<CommentFromCohost>,
    parent: &Vec<char>,
    Ghost(depth): Ghost<nat>,
) -> (r: Vec<CommentFromCohost>)
    requires
        depth >= old(pool)@.len(),
    ensures
        are_threads(r@, threads_on(old(pool)@, parent@, depth).0),
        final(pool)@ == threads_on(old(pool)@, parent@, depth).1,
    decreases depth, 0nat,
{
    let ghost before = pool@;
    let group = take_replies(pool, parent);
    if group.len() == 0 {
        proof {
            lemma_split_len(before, parent@);
            lemma_others_of_none(before, parent@);
        }
        return Vec::new();
    }
    proof {
        lemma_split_len(before, parent@);
    }
    collect_thread_group(group, pool, Ghost((depth - 1) as nat))
}

/// Where no comment replies to the given comment, the pool stays as it
/// is.
pub proof fn lemma_others_of_none(pool: Seq<CommentFromCohost>, parent: Seq<char>)
    requires
        replies_to(pool, parent).len() == 0,
    ensures
        others_than(pool, parent) == pool,
    decreases pool.len(),
{
    if pool.len() > 0 {
        lemma_others_of_none(pool.drop_last(), parent);
        assert(pool.drop_last().push(pool.last()) == pool);
    }
}

fn collect_thread_group(
    group: Vec<CommentFromCohost>,
    pool: &mut Vec<CommentFromCohost>,
    Ghost(depth): Ghost<nat>,
) -> (r: Vec<CommentFromCohost>)
    requires
        depth >= old(pool)@.len(),
    ensures
        are_threads(r@, threads_of(group@, old(pool)@, depth).0),
        final(pool)@ == threads_of(group@, old(pool)@, depth).1,
    decreases depth, 1 + group@.len(),
{
    let ghost all = group@;
    let ghost first_pool = pool@;
    let mut rev = reversed(group);
    let mut out: Vec<CommentFromCohost> = Vec::new();
    let ghost mut done: Seq<CommentTree> = Seq::empty();
    let ghost mut i: int = 0;
    assert(all.skip(0) == all);
    assert(done + threads_of(all, first_pool, depth).0 == threads_of(all, first_pool, depth).0);
    while rev.len() > 0
        invariant
            0 <= i <= all.len(),
            i + rev@.len() == all.len(),
            rev@ == all.reverse().take(rev@.len() as int),
            depth >= pool@.len(),
            are_threads(out@, done),
            threads_of(all, first_pool, depth).0 == done + threads_of(
                all.skip(i),
                pool@,
                depth,
            ).0,
            threads_of(all, first_pool, depth).1 == threads_of(all.skip(i), pool@, depth).1,
        decreases rev.len(),
    {
        let mut item = rev.pop().unwrap();
        let ghost row = item;
        let ghost rest = all.skip(i);
        let ghost pool_now = pool@;
        assert(row == all[i]);
        assert(rest[0] == row);
        assert(rest.skip(1) == all.skip(i + 1));
        let id = to_chars(item.comment.comment_id.as_str());
        proof {
            lemma_threads_shrink_pool(pool_now, id@, depth);
        }
        let replies = collect_threads(pool, &id, Ghost(depth));
        item.comment.children = replies;
        let ghost thread = CommentTree {
            comment: row,
            replies: threads_on(pool_now, id@, depth).0,
        };
        assert(is_thread(item, thread));
        proof {
            lemma_are_threads_push(out@, done, item, thread);
            assert(done + (seq![thread] + threads_of(rest.skip(1), pool@, depth).0) == done.push(
                thread,
            ) + threads_of(rest.skip(1), pool@, depth).0);
            done = done.push(thread);
            i = i + 1;
        }
        out.push(item);
    }
    proof {
        assert(all.skip(all.len() as int) == Seq::<CommentFromCohost>::empty());
        assert(done + Seq::<CommentTree>::empty() == done);
    }
    out
}

/// The comments on a post as threads, given the comments one by one in
/// the order in which the store holds them.
pub fn cohost_api_comments(comments: Vec<CommentFromCohost>) -> (r: Vec<CommentFromCohost>)
    ensures
        are_threads(r@, comment_threads(comments@)),
{
    let ghost depth = comments@.len();
    let mut pool = comments;
    let root: Vec<char> = Vec::new();
    let mut threads = collect_threads(&mut pool, &root, Ghost(depth));
    let ghost top = threads_on(comments@, Seq::empty(), depth);
    let ghost head = threads@;
    let ghost left = pool@;
    let mut rev = reversed(pool);
    let ghost mut i: int = 0;
    assert(left.take(0) == Seq::<CommentFromCohost>::empty());
    assert(single_threads(Seq::<CommentFromCohost>::empty()) == Seq::<CommentTree>::empty());
    assert(top.0 + Seq::<CommentTree>::empty() == top.0);
    while rev.len() > 0
        invariant
            0 <= i <= left.len(),
            i + rev@.len() == left.len(),
            rev@ == left.reverse().take(rev@.len() as int),
            are_threads(threads@, top.0 + single_threads(left.take(i))),
        decreases rev.len(),
    {
        let mut item = rev.pop().unwrap();
        let ghost row = item;
        assert(row == left[i]);
        item.comment.children = Vec::new();
        let ghost thread = CommentTree { comment: row, replies: Seq::empty() };
        assert(is_thread(item, thread));
        proof {
            lemma_are_threads_push(threads@, top.0 + single_threads(left.take(i)), item, thread);
            assert(single_threads(left.take(i + 1)) == single_threads(left.take(i)).push(thread));
            assert((top.0 + single_threads(left.take(i))).push(thread) == top.0 + single_threads(
                left.take(i + 1),
            ));
            i = i + 1;
        }
        threads.push(item);
    }
    assert(left.take(left.len() as int) == left);
    threads
}

} // verus!
