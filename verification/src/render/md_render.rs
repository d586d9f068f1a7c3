//! What the renderer is asked and what it answers.

use crate::post::PostBlock;
use vstd::prelude::*;

verus! {

/// A request to render the blocks of a post.
#[derive(Debug, Clone, PartialEq, Eq)]
pub struct PostRenderRequest {
    pub post_id: u64,
    pub blocks: Vec<PostBlock>,
    pub published_at: String,
    pub has_cohost_plus: bool,
    /// The addresses of the resources of the post that are on disk.
    pub resources: Vec<String>,
}

/// A rendered post: its preview, the whole where that is more, and what
/// the page needs to bring it to life.
#[derive(Debug, Clone, PartialEq, Eq)]
pub struct PostRenderResult {
    pub preview: String,
    pub full: Option<String>,
    pub class_name: String,
    pub view_model: String,
}

/// A request to render a piece of markdown.
#[derive(Debug, Clone, PartialEq, Eq)]
pub struct MarkdownRenderRequest {
    pub markdown: String,
    pub published_at: String,
    pub context: MarkdownRenderContext,
    pub has_cohost_plus: bool,
    /// The addresses of the resources of the text that are on disk.
    pub resources: Vec<String>,
}

/// Where a piece of markdown stands.
#[derive(Debug, Clone, Copy, PartialEq, Eq, Structural)]
pub enum MarkdownRenderContext {
    Profile,
    Comment,
}

/// A rendered piece of markdown.
#[derive(Debug, Clone, PartialEq, Eq)]
pub struct MarkdownRenderResult {
    pub html: String,
}

} // verus!
