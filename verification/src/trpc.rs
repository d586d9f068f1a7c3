//! What the site's query interface answers, and the addresses that it is
//! asked at.

use crate::address::{address_of, address_with_query, opt_view};
use crate::comment::CommentFromCohost;
use crate::post::PostFromCohost;
use crate::project::ProjectFromCohost;
use crate::text::{from_chars, push_str, string_views};
use vstd::prelude::*;

verus! {

/// Who is logged in.
#[derive(Debug, Clone, PartialEq, Eq)]
pub struct LoginLoggedIn {
    pub activated: bool,
    pub delete_after: Option<String>,
    pub email: String,
    pub email_verified: bool,
    pub email_verify_canceled: bool,
    pub logged_in: bool,
    pub mod_mode: bool,
    pub project_id: u64,
    pub read_only: bool,
    pub two_factor_active: bool,
    pub user_id: u64,
}

/// A page of the posts of a project.
#[derive(Debug, PartialEq, Eq)]
pub struct ProfilePosts {
    pub pagination: ProfilePostsPagination,
    pub posts: Vec<PostFromCohost>,
}

/// The projects that the account may edit.
#[derive(Debug, Clone, PartialEq, Eq)]
pub struct ListEditedProjects {
    pub projects: Vec<ProjectFromCohost>,
}

/// Where a page of posts stands. What it says of further pages is not to
/// be relied on: the posts end where a page comes back empty.
#[derive(Debug, Clone, Copy, PartialEq, Eq)]
pub struct ProfilePostsPagination {
    pub current_page: u64,
    pub more_pages_forward: bool,
    pub next_page: Option<u64>,
    pub previous_page: Option<u64>,
}

/// A post with the comments on it and on the posts of its share tree,
/// each list of comments under the id of its post.
#[derive(Debug, PartialEq, Eq)]
pub struct SinglePost {
    pub post: PostFromCohost,
    pub comments: Vec<(u64, Vec<CommentFromCohost>)>,
}

/// A page of the projects that the account follows.
#[derive(Debug, PartialEq, Eq)]
pub struct FollowedFeedQuery {
    pub next_cursor: Option<u64>,
    pub projects: Vec<FollowedFeedProject>,
}

/// A followed project with its latest post.
#[derive(Debug, PartialEq, Eq)]
pub struct FollowedFeedProject {
    pub project: ProjectFromCohost,
    pub latest_post: Option<PostFromCohost>,
    pub project_pinned: bool,
}

/// The names of the pairs of a query: `input` where it has an input.
pub open spec fn input_names(input: Option<Seq<char>>) -> Seq<Seq<char>> {
    match input {
        Some(_) => seq!["input"@],
        None => Seq::empty(),
    }
}

/// The values of the pairs of a query: its input where it has one.
pub open spec fn input_values(input: Option<Seq<char>>) -> Seq<Seq<char>> {
    match input {
        Some(json) => seq![json],
        None => Seq::empty(),
    }
}

/// The address that a query is asked at: the name of the query below the
/// interface's path, parsed as an address, with the input of the query,
/// where it has one, appended to its query as the pair `input`; nothing
/// where the name gives no address.
pub open spec fn query_address(query: Seq<char>, input: Option<Seq<char>>) -> Option<Seq<char>> {
    address_of(
        "https://cohost.org/api/v1/trpc/"@ + query,
        input_names(input),
        input_values(input),
    )
}

/// The address that a query is asked at, given its input as JSON.
pub fn trpc_query_url(query: &str, input: Option<&str>) -> (r: Option<String>)
    ensures
        opt_view(r) == query_address(
            query@,
            match input {
                Some(json) => Some(json@),
                None => None,
            },
        ),
{
    let mut text: Vec<char> = Vec::new();
    push_str(&mut text, "https://cohost.org/api/v1/trpc/");
    push_str(&mut text, query);
    assert(text@ == "https://cohost.org/api/v1/trpc/"@ + query@);
    let text = from_chars(&text);
    let mut names: Vec<String> = Vec::new();
    let mut values: Vec<String> = Vec::new();
    assert(string_views(names@) == Seq::<Seq<char>>::empty());
    assert(string_views(values@) == Seq::<Seq<char>>::empty());
    match input {
        Some(json) => {
            names.push("input".to_owned());
            values.push(json.to_owned());
            assert(string_views(names@) == seq!["input"@]);
            assert(string_views(values@) == seq![json@]);
        },
        None => {},
    }
    address_with_query(text.as_str(), &names, &values)
}

} // verus!
