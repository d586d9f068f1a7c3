//! The page of a single post.

use crate::comment::CommentFromCohost;
use crate::ingest::{forest_size, lemma_forest_size_first, targets};
use crate::render::api_data::GetDataError;
use crate::text::{first_index, find_from, parse_u64, parsed_u64, same_text, slice, to_chars};
use vstd::prelude::*;

verus! {

/// Why the page of a post could not be shown.
#[derive(Debug, Clone, PartialEq, Eq)]
pub enum RenderSinglePostError {
    /// What stands for the post in the address names no post.
    InvalidPostId,
    /// The archive holds no such post of the project.
    PostNotFound,
    /// The comments could not be loaded.
    Comments(GetDataError),
    /// The post of the given id could not be rendered.
    Render(u64, String),
    /// The description of the project could not be rendered.
    RenderProject(String),
    /// A comment could not be rendered.
    RenderComment(String),
    Unknown(String),
}

impl RenderSinglePostError {
    /// The HTTP status to answer with: 400 where the address names no
    /// post, 404 where the archive does not hold the post, and 500 for
    /// everything else.
    pub fn status(&self) -> (r: u16)
        ensures
            r == (match self {
                RenderSinglePostError::InvalidPostId => 400u16,
                RenderSinglePostError::PostNotFound => 404u16,
                _ => 500u16,
            }),
    {
        match self {
            RenderSinglePostError::InvalidPostId => 400,
            RenderSinglePostError::PostNotFound => 404,
            _ => 500,
        }
    }
}

/// The id of the post that a part of an address stands for: the number
/// before its first `-`.
pub open spec fn slug_post_id(slug: Seq<char>) -> Option<u64> {
    parsed_u64(slug.take(first_index(slug, '-')))
}

/// The id of the post that a part of an address stands for, where it
/// begins with one.
pub fn post_id_of_slug(slug: &str) -> (r: Result<u64, RenderSinglePostError>)
    ensures
        match r {
            Ok(id) => slug_post_id(slug@) == Some(id),
            Err(e) => slug_post_id(slug@) is None && e == RenderSinglePostError::InvalidPostId,
        },
{
    let chars = to_chars(slug);
    let end = find_from(&chars, 0, '-');
    assert(chars@.skip(0) == chars@);
    let head = slice(&chars, 0, end);
    assert(head@ == slug@.take(first_index(slug@, '-')));
    match parse_u64(&head) {
        Some(id) => Ok(id),
        None => Err(RenderSinglePostError::InvalidPostId),
    }
}

/// Whether a post is shown under the handle that the address names: only
/// under that of the project that it is of.
pub fn check_post_project(handle_of_post: &str, handle_in_address: &str) -> (r: Result<
    (),
    RenderSinglePostError,
>)
    ensures
        handle_of_post@ == handle_in_address@ ==> r == Ok::<(), RenderSinglePostError>(()),
        handle_of_post@ != handle_in_address@ ==> r == Err::<(), RenderSinglePostError>(
            RenderSinglePostError::PostNotFound,
        ),
{
    if same_text(handle_of_post, handle_in_address) {
        Ok(())
    } else {
        Err(RenderSinglePostError::PostNotFound)
    }
}

/// The comments of the trees of a list of comments in the order in which
/// they are rendered: each comment, and the replies to it in the same
/// way, before the next.
pub open spec fn depth_first(comments: Seq<CommentFromCohost>) -> Seq<CommentFromCohost>
    decreases forest_size(comments),
{
    if comments.len() == 0 {
        Seq::empty()
    } else {
        proof {
            lemma_forest_size_first(comments);
        }
        seq![comments[0]] + depth_first(comments[0].comment.children@) + depth_first(
            comments.skip(1),
        )
    }
}

fn add_comments_to_render<'a>(
    order: &mut Vec<&'a CommentFromCohost>,
    comments: &'a Vec<CommentFromCohost>,
    from: usize,
)
    requires
        from <= comments.len(),
    ensures
        targets(final(order)@) == targets(old(order)@) + depth_first(comments@.skip(from as int)),
    decreases forest_size(comments@.skip(from as int)),
{
    let ghost before = targets(order@);
    let ghost rest = comments@.skip(from as int);
    if from >= comments.len() {
        assert(before + depth_first(rest) == before);
        return ;
    }
    proof {
        lemma_forest_size_first(rest);
        assert(rest[0] == comments@[from as int]);
        assert(rest.skip(1) == comments@.skip(from + 1));
        assert(comments@[from as int].comment.children@.skip(0)
            == comments@[from as int].comment.children@);
    }
    order.push(&comments[from]);
    assert(targets(order@) == before + seq![rest[0]]);
    add_comments_to_render(order, &comments[from].comment.children, 0);
    add_comments_to_render(order, comments, from + 1);
    assert(targets(order@) == before + (seq![rest[0]] + depth_first(rest[0].comment.children@)
        + depth_first(rest.skip(1))));
}

/// The comments to render for a page, in order.
pub fn comments_to_render(comments: &Vec<CommentFromCohost>) -> (r: Vec<&CommentFromCohost>)
    ensures
        targets(r@) == depth_first(comments@),
{
    let mut order: Vec<&CommentFromCohost> = Vec::new();
    assert(targets(order@) == Seq::<CommentFromCohost>::empty());
    assert(comments@.skip(0) == comments@);
    add_comments_to_render(&mut order, comments, 0);
    order
}

} // verus!
