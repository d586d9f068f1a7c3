use cohost_dl::data::PostQuery;
use cohost_dl::render::feed::{
    dashboard_post_query, default_true, liked_feed_post_query, max_page_of, offset_for_page, page_offset,
    tag_feed_post_query, RenderFeedError, TagFeedQuery,
};
use cohost_dl::render::api_data::GetDataError;
use cohost_dl::render::project_profile::{
    profile_post_query, ProjectProfileQuery, RenderProjectProfileError,
};

#[test]
fn default_is_true() {
    assert!(default_true());
}

#[test]
fn tag_feed_query_is_written_out() {
    let q = |page, show| TagFeedQuery { page, show_18_plus_posts: show }.fmt_query();
    assert_eq!(q(0, true), "");
    assert_eq!(q(3, true), "?page=3");
    assert_eq!(q(0, false), "?show18PlusPosts=false");
    assert_eq!(q(12, false), "?page=12&show18PlusPosts=false");
}

#[test]
fn tag_feed_links_lead_on() {
    let state = TagFeedQuery { page: 1, show_18_plus_posts: true }.to_filter_state("/rc/tagged/x", 5);
    assert_eq!(state.query, TagFeedQuery { page: 1, show_18_plus_posts: true });
    assert_eq!(state.on_toggle_18_plus_posts, "/rc/tagged/x?page=1&show18PlusPosts=false");
    assert_eq!(state.on_prev_page, "/rc/tagged/x");
    assert_eq!(state.on_next_page, "/rc/tagged/x?page=2");
}

#[test]
fn tag_feed_links_end_at_the_first_and_last_page() {
    let state = TagFeedQuery { page: 0, show_18_plus_posts: false }.to_filter_state("/p", 0);
    assert_eq!(state.on_toggle_18_plus_posts, "/p");
    assert_eq!(state.on_prev_page, "");
    assert_eq!(state.on_next_page, "");
    let state = TagFeedQuery { page: u64::MAX, show_18_plus_posts: true }.to_filter_state("/p", u64::MAX);
    assert_eq!(state.on_next_page, "");
    assert_eq!(state.on_prev_page, format!("/p?page={}", u64::MAX - 1));
}

#[test]
fn profile_query_is_written_out() {
    let q = ProjectProfileQuery { page: None, hide_shares: false, hide_replies: false, hide_asks: false };
    assert_eq!(q.fmt_query(), "");
    let q = ProjectProfileQuery { page: Some(0), hide_shares: true, hide_replies: false, hide_asks: true };
    assert_eq!(q.fmt_query(), "?page=0&hideShares=true&hideAsks=true");
    let q = ProjectProfileQuery { page: Some(4), hide_shares: true, hide_replies: true, hide_asks: true };
    assert_eq!(q.fmt_query(), "?page=4&hideShares=true&hideReplies=true&hideAsks=true");
}

#[test]
fn profile_links_lead_on() {
    let q = ProjectProfileQuery { page: Some(2), hide_shares: true, hide_replies: false, hide_asks: false };
    let state = q.to_filter_state(2);
    assert_eq!(state.query, q);
    assert_eq!(state.on_show_shares, "?page=2");
    assert_eq!(state.on_hide_shares, "?page=2&hideShares=true");
    assert_eq!(state.on_show_replies, "?page=2&hideShares=true");
    assert_eq!(state.on_hide_replies, "?page=2&hideShares=true&hideReplies=true");
    assert_eq!(state.on_show_asks, "?page=2&hideShares=true");
    assert_eq!(state.on_hide_asks, "?page=2&hideShares=true&hideAsks=true");
    assert_eq!(state.on_prev_page, "?page=1&hideShares=true");
    assert_eq!(state.on_next_page, "");
    let q = ProjectProfileQuery { page: None, hide_shares: false, hide_replies: false, hide_asks: false };
    let state = q.to_filter_state(3);
    assert_eq!(state.on_prev_page, "");
    assert_eq!(state.on_next_page, "?page=1");
    assert_eq!(state.on_show_asks, "");
}

#[test]
fn profile_errors_have_a_status() {
    assert_eq!(RenderProjectProfileError::NoSuchProject.status(), 404);
    assert_eq!(RenderProjectProfileError::RenderProject("x".into()).status(), 500);
    assert_eq!(RenderProjectProfileError::Unknown("x".into()).status(), 500);
}

#[test]
fn pages_hold_twenty_posts() {
    assert_eq!(max_page_of(0), 0);
    assert_eq!(max_page_of(1), 0);
    assert_eq!(max_page_of(20), 0);
    assert_eq!(max_page_of(21), 1);
    assert_eq!(max_page_of(41), 2);
    assert_eq!(page_offset(3), Some(60));
    assert_eq!(page_offset(u64::MAX / 20 + 1), None);
    assert_eq!(offset_for_page(7), 140);
    assert_eq!(offset_for_page(u64::MAX), u64::MAX);
}

#[test]
fn feeds_ask_the_store_for_their_posts() {
    let q = tag_feed_post_query("Rust".into(), &TagFeedQuery { page: 2, show_18_plus_posts: false });
    assert_eq!(
        q,
        PostQuery {
            include_tags: vec!["Rust".into()],
            is_adult: Some(false),
            offset: 40,
            limit: 20,
            ..Default::default()
        }
    );
    let q = tag_feed_post_query("Rust".into(), &TagFeedQuery { page: 0, show_18_plus_posts: true });
    assert_eq!(q, PostQuery { include_tags: vec!["Rust".into()], ..Default::default() });
    let q = liked_feed_post_query(9, &TagFeedQuery { page: 1, show_18_plus_posts: true });
    assert_eq!(q, PostQuery { is_liked_by: Some(9), offset: 20, ..Default::default() });
    let q = dashboard_post_query(9, &TagFeedQuery { page: 2, show_18_plus_posts: false });
    assert_eq!(q, PostQuery { is_dashboard_for: Some(9), offset: 40, ..Default::default() });
    let profile = ProjectProfileQuery { page: Some(1), hide_shares: true, hide_replies: true, hide_asks: false };
    let q = profile_post_query(5, &profile, Some("art".into()));
    assert_eq!(
        q,
        PostQuery {
            posting_project_id: Some(5),
            include_tags: vec!["art".into()],
            is_share: Some(false),
            is_reply: Some(false),
            offset: 20,
            ..Default::default()
        }
    );
}

#[test]
fn the_default_query_reads_the_first_twenty_posts() {
    let q = PostQuery::default();
    assert_eq!(q.offset, 0);
    assert_eq!(q.limit, 20);
    assert_eq!(q.read_limit(), 20);
    assert_eq!(PostQuery { limit: 100, ..Default::default() }.read_limit(), 100);
    assert_eq!(PostQuery { limit: 101, ..Default::default() }.read_limit(), 100);
    assert_eq!(PostQuery { limit: u64::MAX, ..Default::default() }.read_limit(), 100);
}

#[test]
fn a_feed_that_cannot_be_shown_is_answered_by_status() {
    assert_eq!(RenderFeedError::Data(GetDataError::NotFound).status(), 404);
    assert_eq!(RenderFeedError::Data(GetDataError::OtherQuery("locked".into())).status(), 500);
    assert_eq!(RenderFeedError::Render("no such template".into()).status(), 500);
}
