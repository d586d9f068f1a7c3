//! Feeds of posts: what a reader asks of one, and the links that lead on
//! from a page of it.

use crate::data::PostQuery;
use crate::post::PostFromCohost;
use crate::render::api_data::GetDataError;
use crate::render::md_render::PostRenderResult;
use crate::text::{decimal, from_chars, join, join_with, push_all, push_decimal, push_str, views};
use vstd::prelude::*;

verus! {

/// The number of posts on a page of a feed.
pub const PAGE_SIZE: u64 = 20;

/// The posts of a page with what the renderer made of each, and the
/// number of the last page.
#[derive(Debug)]
pub struct RenderedPosts {
    pub posts: Vec<PostFromCohost>,
    /// Each rendered post, under its id.
    pub rendered_posts: Vec<(u64, PostRenderResult)>,
    pub max_page: u64,
}

/// Why a feed could not be shown.
#[derive(Debug, Clone, PartialEq, Eq)]
pub enum RenderFeedError {
    /// What the feed shows could not be put together.
    Data(GetDataError),
    /// The page could not be filled in; the text says how.
    Render(String),
}

impl RenderFeedError {
    /// The HTTP status to answer with: 404 for what the store does not
    /// hold, and 500 for everything else.
    pub fn status(&self) -> (r: u16)
        ensures
            r == (if *self == RenderFeedError::Data(GetDataError::NotFound) {
                404u16
            } else {
                500u16
            }),
    {
        match self {
            RenderFeedError::Data(GetDataError::NotFound) => 404,
            _ => 500,
        }
    }
}

/// What is true where a reader says nothing.
pub fn default_true() -> (r: bool)
    ensures
        r,
{
    true
}

/// What a reader asks of a feed: the page, counted from zero, and whether
/// posts for adults are shown.
#[derive(Debug, Clone, PartialEq, Eq)]
pub struct TagFeedQuery {
    pub page: u64,
    pub show_18_plus_posts: bool,
}

/// A query with the links that lead on from it; a link that leads nowhere
/// is empty.
#[derive(Debug, Clone, PartialEq, Eq)]
pub struct TagFeedFilterState {
    pub query: TagFeedQuery,
    pub on_toggle_18_plus_posts: String,
    pub on_prev_page: String,
    pub on_next_page: String,
}

/// A query string of the given parts: empty where there are none, and
/// otherwise `?` and the parts with `&` between them.
pub open spec fn query_text(parts: Seq<Seq<char>>) -> Seq<char> {
    if parts.len() == 0 {
        Seq::empty()
    } else {
        seq!['?'] + join_with(parts, "&"@)
    }
}

/// The parts of a query of a feed: the page where it is not the first,
/// and the choice not to show posts for adults.
pub open spec fn tag_feed_parts(page: u64, show_18_plus_posts: bool) -> Seq<Seq<char>> {
    (if page > 0 {
        seq!["page="@ + decimal(page as nat)]
    } else {
        Seq::empty()
    }) + (if !show_18_plus_posts {
        seq!["show18PlusPosts=false"@]
    } else {
        Seq::empty()
    })
}

/// The query string that stands for a query of a feed.
pub open spec fn tag_feed_query_text(page: u64, show_18_plus_posts: bool) -> Seq<char> {
    query_text(tag_feed_parts(page, show_18_plus_posts))
}

/// Puts the parts of a query together.
pub fn query_of_parts(parts: &Vec<Vec<char>>) -> (r: Vec<char>)
    ensures
        r@ == query_text(views(parts@)),
{
    let mut out: Vec<char> = Vec::new();
    if parts.len() > 0 {
        out.push('?');
        let joined = join(parts, "&");
        push_all(&mut out, &joined);
    }
    out
}

fn tag_feed_query_chars(page: u64, show_18_plus_posts: bool) -> (r: Vec<char>)
    ensures
        r@ == tag_feed_query_text(page, show_18_plus_posts),
{
    let mut parts: Vec<Vec<char>> = Vec::new();
    if page > 0 {
        let mut part: Vec<char> = Vec::new();
        push_str(&mut part, "page=");
        push_decimal(&mut part, page);
        assert(part@ == "page="@ + decimal(page as nat));
        parts.push(part);
    }
    let ghost first = views(parts@);
    assert(first == if page > 0 {
        seq!["page="@ + decimal(page as nat)]
    } else {
        Seq::<Seq<char>>::empty()
    });
    if !show_18_plus_posts {
        let mut part: Vec<char> = Vec::new();
        push_str(&mut part, "show18PlusPosts=false");
        assert(part@ == "show18PlusPosts=false"@);
        parts.push(part);
        assert(views(parts@) == first + seq!["show18PlusPosts=false"@]);
    } else {
        assert(views(parts@) == first + Seq::<Seq<char>>::empty());
    }
    query_of_parts(&parts)
}

impl TagFeedQuery {
    /// The query string that stands for the query: nothing for the first
    /// page with everything shown.
    pub fn fmt_query(&self) -> (r: String)
        ensures
            r@ == tag_feed_query_text(self.page, self.show_18_plus_posts),
    {
        let chars = tag_feed_query_chars(self.page, self.show_18_plus_posts);
        from_chars(&chars)
    }

    /// The query with the links that lead on from it, each made of the
    /// path of the feed and a query string: to the same page with posts
    /// for adults shown or not, the other way round; to the page before,
    /// unless this is the first; and to the page after, unless this is
    /// the last.
    pub fn to_filter_state(self, path: &str, max_page: u64) -> (r: TagFeedFilterState)
        ensures
            r.query == self,
            r.on_toggle_18_plus_posts@ == path@ + tag_feed_query_text(
                self.page,
                !self.show_18_plus_posts,
            ),
            r.on_prev_page@ == (if self.page > 0 {
                path@ + tag_feed_query_text((self.page - 1) as u64, self.show_18_plus_posts)
            } else {
                Seq::empty()
            }),
            r.on_next_page@ == (if self.page < max_page {
                path@ + tag_feed_query_text((self.page + 1) as u64, self.show_18_plus_posts)
            } else {
                Seq::empty()
            }),
    {
        let on_toggle = link(path, &tag_feed_query_chars(self.page, !self.show_18_plus_posts));
        let on_prev_page = if self.page > 0 {
            link(path, &tag_feed_query_chars(self.page - 1, self.show_18_plus_posts))
        } else {
            String::new()
        };
        let on_next_page = if self.page < max_page {
            link(path, &tag_feed_query_chars(self.page + 1, self.show_18_plus_posts))
        } else {
            String::new()
        };
        TagFeedFilterState {
            query: self,
            on_toggle_18_plus_posts: on_toggle,
            on_prev_page,
            on_next_page,
        }
    }
}

/// A path followed by a query string.
pub fn link(path: &str, query: &Vec<char>) -> (r: String)
    ensures
        r@ == path@ + query@,
{
    let mut out: Vec<char> = Vec::new();
    push_str(&mut out, path);
    push_all(&mut out, query);
    assert(Seq::<char>::empty() + path@ == path@);
    from_chars(&out)
}

/// The number of the last page of a feed of so many posts, counted from
/// zero.
pub fn max_page_of(total_count: u64) -> (r: u64)
    ensures
        r == (if total_count == 0 {
            0
        } else {
            (total_count - 1) / 20
        }),
{
    total_count.saturating_sub(1) / PAGE_SIZE
}

/// The number of posts that come before a page, where that number still
/// is a `u64`.
pub fn page_offset(page: u64) -> (r: Option<u64>)
    ensures
        match r {
            Some(offset) => offset == page * 20,
            None => page * 20 > u64::MAX,
        },
{
    page.checked_mul(PAGE_SIZE)
}

/// The number of posts that come before a page, and the greatest number
/// that there is where that is more.
pub open spec fn offset_of_page(page: u64) -> u64 {
    if page * 20 <= u64::MAX {
        (page * 20) as u64
    } else {
        u64::MAX
    }
}

/// The number of posts that come before a page.
pub fn offset_for_page(page: u64) -> (r: u64)
    ensures
        r == offset_of_page(page),
{
    match page.checked_mul(PAGE_SIZE) {
        Some(offset) => offset,
        None => u64::MAX,
    }
}

/// The posts of a page of the feed of a tag, given the tag in the
/// spelling that the site uses: those that bear the tag, without those
/// for adults where they are not to be shown.
pub fn tag_feed_post_query(canonical_tag: String, query: &TagFeedQuery) -> (r: PostQuery)
    ensures
        r.include_tags@ == seq![canonical_tag],
        r.is_adult == (if query.show_18_plus_posts {
            None
        } else {
            Some(false)
        }),
        r.offset == offset_of_page(query.page),
        r.limit == PAGE_SIZE,
        r.posting_project_id is None,
        r.share_of_post_id is None,
        r.is_liked_by is None,
        r.is_dashboard_for is None,
        r.exclude_tags@.len() == 0,
        r.is_ask is None,
        r.is_reply is None,
        r.is_share is None,
        r.is_pinned is None,
{
    let mut include_tags: Vec<String> = Vec::new();
    include_tags.push(canonical_tag);
    PostQuery {
        posting_project_id: None,
        share_of_post_id: None,
        is_liked_by: None,
        is_dashboard_for: None,
        include_tags,
        exclude_tags: Vec::new(),
        is_ask: None,
        is_adult: if query.show_18_plus_posts {
            None
        } else {
            Some(false)
        },
        is_reply: None,
        is_share: None,
        is_pinned: None,
        offset: offset_for_page(query.page),
        limit: PAGE_SIZE,
    }
}

/// The posts of a page of the feed of what a project likes.
pub fn liked_feed_post_query(project_id: u64, query: &TagFeedQuery) -> (r: PostQuery)
    ensures
        r.is_liked_by == Some(project_id),
        r.is_dashboard_for is None,
        r.offset == offset_of_page(query.page),
        r.limit == PAGE_SIZE,
        r.posting_project_id is None,
        r.share_of_post_id is None,
        r.include_tags@.len() == 0,
        r.exclude_tags@.len() == 0,
        r.is_ask is None,
        r.is_adult is None,
        r.is_reply is None,
        r.is_share is None,
        r.is_pinned is None,
{
    PostQuery {
        posting_project_id: None,
        share_of_post_id: None,
        is_liked_by: Some(project_id),
        is_dashboard_for: None,
        include_tags: Vec::new(),
        exclude_tags: Vec::new(),
        is_ask: None,
        is_adult: None,
        is_reply: None,
        is_share: None,
        is_pinned: None,
        offset: offset_for_page(query.page),
        limit: PAGE_SIZE,
    }
}

/// The posts of a page of the dashboard of a project: those of the
/// projects that it follows.
pub fn dashboard_post_query(project_id: u64, query: &TagFeedQuery) -> (r: PostQuery)
    ensures
        r.is_dashboard_for == Some(project_id),
        r.offset == offset_of_page(query.page),
        r.limit == PAGE_SIZE,
        r.posting_project_id is None,
        r.share_of_post_id is None,
        r.is_liked_by is None,
        r.include_tags@.len() == 0,
        r.exclude_tags@.len() == 0,
        r.is_ask is None,
        r.is_adult is None,
        r.is_reply is None,
        r.is_share is None,
        r.is_pinned is None,
{
    PostQuery {
        posting_project_id: None,
        share_of_post_id: None,
        is_liked_by: None,
        is_dashboard_for: Some(project_id),
        include_tags: Vec::new(),
        exclude_tags: Vec::new(),
        is_ask: None,
        is_adult: None,
        is_reply: None,
        is_share: None,
        is_pinned: None,
        offset: offset_for_page(query.page),
        limit: PAGE_SIZE,
    }
}

} // verus!
