//! Feeds as the site serves them, page by page, and the addresses that
//! the pages are asked for at.

use crate::address::{address_of, address_with_query, opt_view, parse_url, parsed_url};
use crate::comment::Permission;
use crate::encoding::{percent_encode, percent_encoded};
use crate::post::PostFromCohost;
use crate::text::{decimal, from_chars, push_decimal, push_str, string_views};
use vstd::prelude::*;

verus! {

/// Where a page stands in its feed, and how to get to the next.
#[derive(Debug, Clone, PartialEq, Eq)]
pub struct PaginationMode {
    pub current_skip: u64,
    pub ideal_page_stride: u64,
    pub mode: String,
    pub more_pages_backward: bool,
    pub more_pages_forward: bool,
    pub page_url_factory_name: String,
    pub ref_timestamp: u64,
}

/// A page of a feed of posts.
#[derive(Debug, PartialEq, Eq)]
pub struct PostsFeed {
    pub highlighted_tags: Vec<String>,
    pub no_posts_string_id: String,
    pub pagination_mode: PaginationMode,
    pub posts: Vec<PostFromCohost>,
}

/// A page of the feed of the posts that bear a tag, with the tags that
/// mean the same as the tag or are related to it.
#[derive(Debug, PartialEq, Eq)]
pub struct TaggedPostsFeed {
    pub no_posts_string_id: String,
    pub pagination_mode: PaginationMode,
    pub posts: Vec<PostFromCohost>,
    pub synonyms_and_related_tags: Vec<RelatedTag>,
    pub tag_name: String,
    pub show_18_plus_posts: bool,
}

/// A tag that has to do with another.
#[derive(Debug, Clone, PartialEq, Eq)]
pub struct RelatedTag {
    pub tag_id: String,
    pub content: String,
    pub relationship: TagRelationship,
}

/// What two tags have to do with each other.
#[derive(Debug, Clone, Copy, PartialEq, Eq, Structural)]
pub enum TagRelationship {
    Related,
    Synonym,
}

/// What the page of a project says of the reader's rights.
#[derive(Debug, Clone, Copy, PartialEq, Eq, Structural)]
pub struct ProjectPageView {
    pub can_access_permissions: ProjectCanAccessPermissions,
}

/// What the reader may read and share of a project.
#[derive(Debug, Clone, Copy, PartialEq, Eq, Structural)]
pub struct ProjectCanAccessPermissions {
    pub can_read: Permission,
    pub can_interact: Permission,
    pub can_share: Permission,
    pub can_edit: Permission,
}

/// The names of the pairs that say where in a feed a page is: the time
/// that the feed is read as of, where one is known, and the number of
/// posts to pass over, where it is not zero.
pub open spec fn cursor_names(ref_timestamp: Option<u64>, skip_posts: u64) -> Seq<Seq<char>> {
    (match ref_timestamp {
        Some(t) => seq!["refTimestamp"@],
        None => Seq::empty(),
    }) + (if skip_posts > 0 {
        seq!["skipPosts"@]
    } else {
        Seq::empty()
    })
}

/// The values of the pairs that say where in a feed a page is, each a
/// decimal number.
pub open spec fn cursor_values(ref_timestamp: Option<u64>, skip_posts: u64) -> Seq<Seq<char>> {
    (match ref_timestamp {
        Some(t) => seq![decimal(t as nat)],
        None => Seq::empty(),
    }) + (if skip_posts > 0 {
        seq![decimal(skip_posts as nat)]
    } else {
        Seq::empty()
    })
}

/// The address of a page of the feed of liked posts: the address of the
/// feed with the pairs that say where the page is appended to it.
pub open spec fn liked_posts_address(ref_timestamp: Option<u64>, skip_posts: u64) -> Option<
    Seq<char>,
> {
    address_of(
        "https://cohost.org/rc/liked-posts"@,
        cursor_names(ref_timestamp, skip_posts),
        cursor_values(ref_timestamp, skip_posts),
    )
}

/// The address of a page of the feed of a tag: the tag percent-encoded
/// below `rc/tagged`, with a pair that asks for posts for adults and the
/// pairs that say where the page is appended to it; nothing where that
/// does not parse.
pub open spec fn tagged_posts_address(
    tag: Seq<char>,
    ref_timestamp: Option<u64>,
    skip_posts: u64,
) -> Option<Seq<char>> {
    address_of(
        "https://cohost.org/rc/tagged/"@ + percent_encoded(tag),
        seq!["show18PlusPosts"@] + cursor_names(ref_timestamp, skip_posts),
        seq!["true"@] + cursor_values(ref_timestamp, skip_posts),
    )
}

/// The address of the page of a project, as the parsed address writes it
/// out; nothing where it does not parse.
pub open spec fn project_page_address(handle: Seq<char>) -> Option<Seq<char>> {
    match parsed_url("https://cohost.org/"@ + handle) {
        Some(url) => Some(url.href),
        None => None,
    }
}

fn push_number_pair(names: &mut Vec<String>, values: &mut Vec<String>, name: &str, value: u64)
    ensures
        string_views(final(names)@) == string_views(old(names)@).push(name@),
        string_views(final(values)@) == string_views(old(values)@).push(decimal(value as nat)),
{
    let ghost names_before = string_views(names@);
    let ghost values_before = string_views(values@);
    let mut digits: Vec<char> = Vec::new();
    push_decimal(&mut digits, value);
    assert(digits@ == decimal(value as nat));
    let text = from_chars(&digits);
    names.push(name.to_owned());
    values.push(text);
    assert(string_views(names@) == names_before.push(name@));
    assert(string_views(values@) == values_before.push(decimal(value as nat)));
}

fn push_cursor_pairs(
    names: &mut Vec<String>,
    values: &mut Vec<String>,
    ref_timestamp: Option<u64>,
    skip_posts: u64,
)
    ensures
        string_views(final(names)@) == string_views(old(names)@) + cursor_names(
            ref_timestamp,
            skip_posts,
        ),
        string_views(final(values)@) == string_views(old(values)@) + cursor_values(
            ref_timestamp,
            skip_posts,
        ),
{
    let ghost names_before = string_views(names@);
    let ghost values_before = string_views(values@);
    match ref_timestamp {
        Some(t) => {
            push_number_pair(names, values, "refTimestamp", t);
        },
        None => {},
    }
    if skip_posts > 0 {
        push_number_pair(names, values, "skipPosts", skip_posts);
    }
    assert(string_views(names@) == names_before + cursor_names(ref_timestamp, skip_posts));
    assert(string_views(values@) == values_before + cursor_values(ref_timestamp, skip_posts));
}

/// The address of a page of the feed of liked posts, or `None` where
/// the address of the feed does not parse.
pub fn liked_posts_url(ref_timestamp: Option<u64>, skip_posts: u64) -> (r: Option<String>)
    ensures
        opt_view(r) == liked_posts_address(ref_timestamp, skip_posts),
{
    let mut names: Vec<String> = Vec::new();
    let mut values: Vec<String> = Vec::new();
    assert(string_views(names@) == Seq::<Seq<char>>::empty());
    assert(string_views(values@) == Seq::<Seq<char>>::empty());
    push_cursor_pairs(&mut names, &mut values, ref_timestamp, skip_posts);
    assert(string_views(names@) == cursor_names(ref_timestamp, skip_posts));
    assert(string_views(values@) == cursor_values(ref_timestamp, skip_posts));
    address_with_query("https://cohost.org/rc/liked-posts", &names, &values)
}

/// The address of a page of the feed of a tag, or `None` where the tag
/// gives no address.
pub fn tagged_posts_url(tag: &str, ref_timestamp: Option<u64>, skip_posts: u64) -> (r: Option<
    String,
>)
    ensures
        opt_view(r) == tagged_posts_address(tag@, ref_timestamp, skip_posts),
{
    let mut text: Vec<char> = Vec::new();
    push_str(&mut text, "https://cohost.org/rc/tagged/");
    let encoded = percent_encode(tag);
    push_str(&mut text, encoded.as_str());
    assert(text@ == "https://cohost.org/rc/tagged/"@ + percent_encoded(tag@));
    let text = from_chars(&text);
    let mut names: Vec<String> = Vec::new();
    let mut values: Vec<String> = Vec::new();
    names.push("show18PlusPosts".to_owned());
    values.push("true".to_owned());
    assert(string_views(names@) == seq!["show18PlusPosts"@]);
    assert(string_views(values@) == seq!["true"@]);
    push_cursor_pairs(&mut names, &mut values, ref_timestamp, skip_posts);
    address_with_query(text.as_str(), &names, &values)
}

/// The address of the page of a project, or `None` where the handle gives
/// no address.
pub fn project_page_url(handle: &str) -> (r: Option<String>)
    ensures
        match r {
            Some(text) => project_page_address(handle@) == Some(text@),
            None => project_page_address(handle@) is None,
        },
{
    let mut text: Vec<char> = Vec::new();
    push_str(&mut text, "https://cohost.org/");
    push_str(&mut text, handle);
    assert(text@ == "https://cohost.org/"@ + handle@);
    let text = from_chars(&text);
    match parse_url(text.as_str()) {
        None => None,
        Some(url) => Some(url.href),
    }
}

} // verus!
