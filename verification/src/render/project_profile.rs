//! The profile of a project: what a reader asks of it, and the links that
//! lead on from a page of it.

use crate::data::PostQuery;
use crate::render::feed::{offset_for_page, offset_of_page, query_of_parts, query_text, PAGE_SIZE};
use crate::text::{decimal, from_chars, push_decimal, push_str, views};
use vstd::prelude::*;

verus! {

/// Why the profile of a project could not be shown.
#[derive(Debug, Clone, PartialEq, Eq)]
pub enum RenderProjectProfileError {
    /// The archive holds no project of that handle.
    NoSuchProject,
    /// The description of the project could not be rendered.
    RenderProject(String),
    Unknown(String),
}

impl RenderProjectProfileError {
    /// The HTTP status to answer with: 404 for a project that the archive
    /// does not hold, and 500 for everything else.
    pub fn status(&self) -> (r: u16)
        ensures
            r == (if self is NoSuchProject {
                404u16
            } else {
                500u16
            }),
    {
        match self {
            RenderProjectProfileError::NoSuchProject => 404,
            _ => 500,
        }
    }
}

/// What a reader asks of a profile: the page, counted from zero, and which
/// kinds of posts to leave out.
#[derive(Debug, Clone, PartialEq, Eq)]
pub struct ProjectProfileQuery {
    pub page: Option<u64>,
    pub hide_shares: bool,
    pub hide_replies: bool,
    pub hide_asks: bool,
}

/// A query with the query strings that lead on from it; one that leads
/// nowhere is empty.
#[derive(Debug, Clone, PartialEq, Eq)]
pub struct FilterState {
    pub query: ProjectProfileQuery,
    pub on_show_shares: String,
    pub on_hide_shares: String,
    pub on_show_replies: String,
    pub on_hide_replies: String,
    pub on_show_asks: String,
    pub on_hide_asks: String,
    pub on_prev_page: String,
    pub on_next_page: String,
}

/// One part where the condition holds, and none otherwise.
pub open spec fn part_if(condition: bool, part: Seq<char>) -> Seq<Seq<char>> {
    if condition {
        seq![part]
    } else {
        Seq::empty()
    }
}

/// The parts of a query of a profile: the page where one is given, and
/// each kind of post that is left out.
pub open spec fn profile_parts(
    page: Option<u64>,
    hide_shares: bool,
    hide_replies: bool,
    hide_asks: bool,
) -> Seq<Seq<char>> {
    (match page {
        Some(p) => seq!["page="@ + decimal(p as nat)],
        None => Seq::empty(),
    }) + part_if(hide_shares, "hideShares=true"@) + part_if(hide_replies, "hideReplies=true"@)
        + part_if(hide_asks, "hideAsks=true"@)
}

/// The query string that stands for a query of a profile.
pub open spec fn profile_query_text(
    page: Option<u64>,
    hide_shares: bool,
    hide_replies: bool,
    hide_asks: bool,
) -> Seq<char> {
    query_text(profile_parts(page, hide_shares, hide_replies, hide_asks))
}

fn push_part_if(parts: &mut Vec<Vec<char>>, condition: bool, part: &str)
    ensures
        views(final(parts)@) == views(old(parts)@) + part_if(condition, part@),
{
    let ghost before = views(parts@);
    if condition {
        let mut chars: Vec<char> = Vec::new();
        push_str(&mut chars, part);
        assert(chars@ == part@);
        parts.push(chars);
        assert(views(parts@) == before + seq![part@]);
    } else {
        assert(before + Seq::<Seq<char>>::empty() == before);
    }
}

fn profile_query(page: Option<u64>, hide_shares: bool, hide_replies: bool, hide_asks: bool) -> (r:
    String)
    ensures
        r@ == profile_query_text(page, hide_shares, hide_replies, hide_asks),
{
    let mut parts: Vec<Vec<char>> = Vec::new();
    match page {
        Some(p) => {
            let mut part: Vec<char> = Vec::new();
            push_str(&mut part, "page=");
            push_decimal(&mut part, p);
            assert(part@ == "page="@ + decimal(p as nat));
            parts.push(part);
            assert(views(parts@) == seq!["page="@ + decimal(p as nat)]);
        },
        None => {
            assert(views(parts@) == Seq::<Seq<char>>::empty());
        },
    }
    push_part_if(&mut parts, hide_shares, "hideShares=true");
    push_part_if(&mut parts, hide_replies, "hideReplies=true");
    push_part_if(&mut parts, hide_asks, "hideAsks=true");
    let chars = query_of_parts(&parts);
    from_chars(&chars)
}

impl ProjectProfileQuery {
    /// The page that the query asks for: the first where it names none.
    pub open spec fn spec_page(self) -> u64 {
        match self.page {
            Some(p) => p,
            None => 0,
        }
    }

    /// The query string that stands for the query.
    pub fn fmt_query(&self) -> (r: String)
        ensures
            r@ == profile_query_text(self.page, self.hide_shares, self.hide_replies, self.hide_asks),
    {
        profile_query(self.page, self.hide_shares, self.hide_replies, self.hide_asks)
    }

    /// The query with the query strings that lead on from it: to the same
    /// page with each kind of post shown, and with it left out; to the
    /// page before, unless this is the first; and to the page after,
    /// unless this is the last.
    pub fn to_filter_state(&self, max_page: u64) -> (r: FilterState)
        ensures
            r.query.page == self.page,
            r.query.hide_shares == self.hide_shares,
            r.query.hide_replies == self.hide_replies,
            r.query.hide_asks == self.hide_asks,
            r.on_show_shares@ == profile_query_text(
                self.page,
                false,
                self.hide_replies,
                self.hide_asks,
            ),
            r.on_hide_shares@ == profile_query_text(
                self.page,
                true,
                self.hide_replies,
                self.hide_asks,
            ),
            r.on_show_replies@ == profile_query_text(
                self.page,
                self.hide_shares,
                false,
                self.hide_asks,
            ),
            r.on_hide_replies@ == profile_query_text(
                self.page,
                self.hide_shares,
                true,
                self.hide_asks,
            ),
            r.on_show_asks@ == profile_query_text(
                self.page,
                self.hide_shares,
                self.hide_replies,
                false,
            ),
            r.on_hide_asks@ == profile_query_text(
                self.page,
                self.hide_shares,
                self.hide_replies,
                true,
            ),
            r.on_prev_page@ == (if self.spec_page() > 0 {
                profile_query_text(
                    Some((self.spec_page() - 1) as u64),
                    self.hide_shares,
                    self.hide_replies,
                    self.hide_asks,
                )
            } else {
                Seq::empty()
            }),
            r.on_next_page@ == (if self.spec_page() < max_page {
                profile_query_text(
                    Some((self.spec_page() + 1) as u64),
                    self.hide_shares,
                    self.hide_replies,
                    self.hide_asks,
                )
            } else {
                Seq::empty()
            }),
    {
        let page: u64 = match self.page {
            Some(p) => p,
            None => 0,
        };
        let on_prev_page = if page > 0 {
            profile_query(Some(page - 1), self.hide_shares, self.hide_replies, self.hide_asks)
        } else {
            String::new()
        };
        let on_next_page = if page < max_page {
            profile_query(Some(page + 1), self.hide_shares, self.hide_replies, self.hide_asks)
        } else {
            String::new()
        };
        FilterState {
            query: ProjectProfileQuery {
                page: self.page,
                hide_shares: self.hide_shares,
                hide_replies: self.hide_replies,
                hide_asks: self.hide_asks,
            },
            on_show_shares: profile_query(self.page, false, self.hide_replies, self.hide_asks),
            on_hide_shares: profile_query(self.page, true, self.hide_replies, self.hide_asks),
            on_show_replies: profile_query(self.page, self.hide_shares, false, self.hide_asks),
            on_hide_replies: profile_query(self.page, self.hide_shares, true, self.hide_asks),
            on_show_asks: profile_query(self.page, self.hide_shares, self.hide_replies, false),
            on_hide_asks: profile_query(self.page, self.hide_shares, self.hide_replies, true),
            on_prev_page,
            on_next_page,
        }
    }
}

/// A condition that leaves a kind of post out where it is hidden, and
/// none otherwise.
pub open spec fn hidden(hide: bool) -> Option<bool> {
    if hide {
        Some(false)
    } else {
        None
    }
}

/// The posts of a page of the profile of a project: those of the project,
/// bearing the tag where one is asked for, without the kinds of posts
/// that are hidden.
pub fn profile_post_query(project_id: u64, query: &ProjectProfileQuery, tagged: Option<String>) -> (r:
    PostQuery)
    ensures
        r.posting_project_id == Some(project_id),
        r.include_tags@ == (match tagged {
            Some(tag) => seq![tag],
            None => Seq::empty(),
        }),
        r.is_share == hidden(query.hide_shares),
        r.is_reply == hidden(query.hide_replies),
        r.is_ask == hidden(query.hide_asks),
        r.offset == offset_of_page(query.spec_page()),
        r.limit == PAGE_SIZE,
        r.share_of_post_id is None,
        r.is_liked_by is None,
        r.is_dashboard_for is None,
        r.exclude_tags@.len() == 0,
        r.is_adult is None,
        r.is_pinned is None,
{
    let mut include_tags: Vec<String> = Vec::new();
    match tagged {
        Some(tag) => {
            include_tags.push(tag);
        },
        None => {},
    }
    let page: u64 = match query.page {
        Some(p) => p,
        None => 0,
    };
    PostQuery {
        posting_project_id: Some(project_id),
        share_of_post_id: None,
        is_liked_by: None,
        is_dashboard_for: None,
        include_tags,
        exclude_tags: Vec::new(),
        is_ask: if query.hide_asks {
            Some(false)
        } else {
            None
        },
        is_adult: None,
        is_reply: if query.hide_replies {
            Some(false)
        } else {
            None
        },
        is_share: if query.hide_shares {
            Some(false)
        } else {
            None
        },
        is_pinned: None,
        offset: offset_for_page(page),
        limit: PAGE_SIZE,
    }
}

} // verus!
