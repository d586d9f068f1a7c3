use cohost_dl::config::Config;
use cohost_dl::dl::{
    batch_addresses, batch_count, batch_offset, check_state_version, is_share_fixed, posts_without_comments,
    profile_post_action, sweep_mode, work_units, CommentSweep, CurrentStateV1, FeedCursor,
    PostAction, RepairSearch, StateError, SweepItem, SweepMode, TaggedPostsState, WorkUnit,
};
use cohost_dl::feed::PaginationMode;

fn config() -> Config {
    Config {
        database: "data.db".into(),
        cookie: "connect.sid=SECRET-REDACTED".into(),
        request_timeout_secs: None,
        root_dir: "files".into(),
        do_not_fetch_domains: vec![],
        load_dashboard: false,
        load_likes: false,
        load_profile_posts: vec![],
        load_tagged_posts: vec![],
        load_specific_posts: vec![],
        skip_follows: vec![],
        load_new_posts: false,
        load_comments: false,
        try_fix_transparent_shares: false,
        load_post_resources: false,
        load_project_resources: false,
        load_comment_resources: false,
        server_port: 26467,
    }
}

fn page(stride: u64, ref_timestamp: u64, more: bool) -> PaginationMode {
    PaginationMode {
        current_skip: 0,
        ideal_page_stride: stride,
        mode: "refTimestampOffsetLimit".into(),
        more_pages_backward: false,
        more_pages_forward: more,
        page_url_factory_name: "tags".into(),
        ref_timestamp,
    }
}

#[test]
fn only_the_current_version_of_the_record_is_read() {
    assert_eq!(check_state_version(1), Ok(()));
    assert_eq!(check_state_version(0), Err(StateError::UnknownVersion(0)));
    assert_eq!(check_state_version(2), Err(StateError::UnknownVersion(2)));
}

#[test]
fn the_timeout_defaults_to_two_minutes() {
    assert_eq!(config().request_timeout(), 120);
    assert_eq!(Config { request_timeout_secs: Some(5), ..config() }.request_timeout(), 5);
}

#[test]
fn a_bare_configuration_still_loads_follows_and_site_files() {
    let state = CurrentStateV1::new();
    assert_eq!(
        work_units(&config(), &state, 7),
        vec![WorkUnit::Follows, WorkUnit::MigrateResourcePaths, WorkUnit::StaticResources]
    );
}

#[test]
fn work_is_done_in_the_declared_order() {
    let cfg = Config {
        load_dashboard: true,
        load_likes: true,
        load_profile_posts: vec!["a".into(), "b".into()],
        load_tagged_posts: vec!["t1".into(), "t2".into(), "t3".into()],
        load_comments: true,
        try_fix_transparent_shares: true,
        load_post_resources: true,
        load_project_resources: true,
        load_comment_resources: true,
        ..config()
    };
    let mut state = CurrentStateV1::new();
    state.set_tagged("t2", TaggedPostsState { has_all_posts: true, has_up_to: Some((1, 40)) });
    state.set_tagged("t3", TaggedPostsState { has_all_posts: false, has_up_to: Some((1, 40)) });
    assert_eq!(
        work_units(&cfg, &state, 7),
        vec![
            WorkUnit::Follows,
            WorkUnit::Likes,
            WorkUnit::ProfilePosts("a".into()),
            WorkUnit::ProfilePosts("b".into()),
            WorkUnit::Dashboard,
            WorkUnit::TaggedPosts("t1".into()),
            WorkUnit::TaggedPosts("t3".into()),
            WorkUnit::Comments,
            WorkUnit::FixTransparentShares,
            WorkUnit::MigrateResourcePaths,
            WorkUnit::StaticResources,
            WorkUnit::PostResources,
            WorkUnit::ProjectResources,
            WorkUnit::CommentResources,
        ]
    );
}

#[test]
fn follows_and_likes_are_loaded_once_per_account() {
    let cfg = Config { load_likes: true, ..config() };
    let mut state = CurrentStateV1::new();
    state.has_follows.insert(7);
    state.has_likes.insert(7);
    assert_eq!(work_units(&cfg, &state, 7), vec![WorkUnit::MigrateResourcePaths, WorkUnit::StaticResources]);
    assert_eq!(
        work_units(&cfg, &state, 8),
        vec![WorkUnit::Follows, WorkUnit::Likes, WorkUnit::MigrateResourcePaths, WorkUnit::StaticResources]
    );
}

#[test]
fn projects_are_swept_as_needed() {
    assert_eq!(sweep_mode(false, false), Some(SweepMode::All));
    assert_eq!(sweep_mode(false, true), Some(SweepMode::All));
    assert_eq!(sweep_mode(true, true), Some(SweepMode::NewOnly));
    assert_eq!(sweep_mode(true, false), None);
}

#[test]
fn a_sweep_for_new_posts_stops_at_a_known_post_that_is_not_pinned() {
    assert_eq!(profile_post_action(SweepMode::NewOnly, true, false), PostAction::Stop);
    assert_eq!(profile_post_action(SweepMode::NewOnly, true, true), PostAction::Skip);
    assert_eq!(profile_post_action(SweepMode::NewOnly, false, true), PostAction::Ingest);
    assert_eq!(profile_post_action(SweepMode::NewOnly, false, false), PostAction::Ingest);
    for known in [false, true] {
        for pinned in [false, true] {
            assert_eq!(profile_post_action(SweepMode::All, known, pinned), PostAction::Ingest);
        }
    }
}

#[test]
fn a_tagged_feed_goes_on_at_the_next_page_boundary() {
    let mut state = CurrentStateV1::new();
    assert_eq!(state.tagged("T"), TaggedPostsState { has_all_posts: false, has_up_to: None });
    let mut cursor = FeedCursor::start(state.tagged("T").has_up_to);
    assert_eq!(cursor, FeedCursor { ref_timestamp: None, skip_posts: 0 });
    // The first page is taken in whole; the reading is cut short 17 posts into the second.
    let mut asked_at = Vec::new();
    let mut ingested = 0;
    for taken in [20usize, 17] {
        asked_at.push(cursor.skip_posts);
        let outcome = state.tagged_page_arrived("T", &cursor, &page(20, 1700, true), 20).unwrap();
        assert!(outcome.more);
        assert_eq!(state.tagged("T").has_up_to, Some((1700, cursor.skip_posts + 20)));
        ingested += taken;
        cursor = outcome.cursor;
    }
    assert_eq!(asked_at, vec![0, 20]);
    assert_eq!(ingested, 37);
    assert_eq!(state.tagged("T"), TaggedPostsState { has_all_posts: false, has_up_to: Some((1700, 40)) });
    let resumed = FeedCursor::start(state.tagged("T").has_up_to);
    assert_eq!(resumed, FeedCursor { ref_timestamp: Some(1700), skip_posts: 40 });
    // Every page that the later reading asks for lies at or behind the boundary.
    let mut cursor = resumed;
    for (posts, more) in [(20usize, true), (3, false)] {
        assert!(cursor.skip_posts >= 40);
        assert_eq!(cursor.ref_timestamp, Some(1700));
        let outcome = state.tagged_page_arrived("T", &cursor, &page(20, 1700, more), posts).unwrap();
        assert_eq!(outcome.more, more);
        cursor = outcome.cursor;
    }
    state.tagged_feed_done("T");
    assert_eq!(state.tagged("T"), TaggedPostsState { has_all_posts: true, has_up_to: Some((1700, 80)) });
}

#[test]
fn a_page_is_noted_before_it_is_taken_in() {
    let mut state = CurrentStateV1::new();
    state.set_tagged("other", TaggedPostsState { has_all_posts: true, has_up_to: Some((1, 2)) });
    let cursor = FeedCursor { ref_timestamp: Some(9), skip_posts: 60 };
    let outcome = state.tagged_page_arrived("T", &cursor, &page(20, 11, true), 0).unwrap();
    assert_eq!(outcome.cursor, FeedCursor { ref_timestamp: Some(11), skip_posts: 80 });
    assert!(!outcome.more);
    assert_eq!(state.tagged("T"), TaggedPostsState { has_all_posts: false, has_up_to: Some((11, 80)) });
    assert_eq!(state.tagged("other"), TaggedPostsState { has_all_posts: true, has_up_to: Some((1, 2)) });
    let far = FeedCursor { ref_timestamp: Some(1), skip_posts: u64::MAX - 5 };
    let before = state.tagged("T");
    assert_eq!(state.tagged_page_arrived("T", &far, &page(20, 1, true), 20), None);
    assert_eq!(state.tagged("T"), before);
}

#[test]
fn a_tag_that_is_listed_twice_is_loaded_once() {
    let mut c = config();
    c.load_tagged_posts = vec!["art".into(), "music".into(), "art".into(), "Art".into(), "music".into()];
    let state = CurrentStateV1::new();
    let tags: Vec<String> = work_units(&c, &state, 1)
        .into_iter()
        .filter_map(|u| match u {
            WorkUnit::TaggedPosts(tag) => Some(tag),
            _ => None,
        })
        .collect();
    assert_eq!(tags, vec!["art".to_string(), "music".into(), "Art".into()]);
}

#[test]
fn a_feed_ends_where_the_site_says_so_or_a_page_is_empty() {
    let cursor = FeedCursor { ref_timestamp: Some(1), skip_posts: 40 };
    assert!(!cursor.after_page(&page(20, 1, false), 20, true).unwrap().more);
    assert!(!cursor.after_page(&page(20, 1, true), 0, true).unwrap().more);
    assert!(cursor.after_page(&page(20, 1, true), 0, false).unwrap().more);
    assert_eq!(cursor.after_page(&page(20, 9, true), 3, false).unwrap().cursor, FeedCursor { ref_timestamp: Some(9), skip_posts: 60 });
    let far = FeedCursor { ref_timestamp: Some(1), skip_posts: u64::MAX - 5 };
    assert_eq!(far.after_page(&page(20, 1, true), 20, true), None);
    assert_eq!(FeedCursor { ref_timestamp: None, skip_posts: 3 }.checkpoint(), None);
}

#[test]
fn tags_are_recorded_one_by_one() {
    let mut state = CurrentStateV1::new();
    let a = TaggedPostsState { has_all_posts: false, has_up_to: Some((1, 20)) };
    let b = TaggedPostsState { has_all_posts: true, has_up_to: Some((2, 60)) };
    state.set_tagged("a", a);
    state.set_tagged("b", b);
    state.set_tagged("a", b);
    assert_eq!(state.tagged("a"), b);
    assert_eq!(state.tagged("b"), b);
    assert_eq!(state.tagged("A"), TaggedPostsState::new());
    assert_eq!(state.tagged_posts.len(), 2);
}

#[test]
fn comments_are_wanted_where_they_are_neither_there_nor_lost() {
    let mut state = CurrentStateV1::new();
    state.set_has_comments(1, 10);
    state.set_has_comments(1, 11);
    state.set_has_all_posts(2);
    state.comments_lost_to_time.insert(30);
    assert!(state.has_comments(1, 10));
    assert!(!state.has_comments(2, 10));
    assert!(state.has_all_posts(2));
    assert!(!state.has_all_posts(1));
    let posts = vec![(1, 10), (2, 10), (1, 12), (3, 30), (1, 11), (9, 99)];
    assert_eq!(posts_without_comments(&state, &posts), vec![10, 12, 99]);
}

#[test]
fn failed_addresses_are_remembered() {
    let mut state = CurrentStateV1::new();
    assert!(!state.has_failed("https://x.test/a"));
    state.add_failed_url("https://x.test/a");
    assert!(state.has_failed("https://x.test/a"));
    assert!(!state.has_failed("https://x.test/b"));
    // Only the address that is added joins the list, also where it is there already.
    state.add_failed_url("https://x.test/c");
    state.add_failed_url("https://x.test/a");
    assert_eq!(
        state.failed_urls,
        vec!["https://x.test/a".to_string(), "https://x.test/c".into(), "https://x.test/a".into()]
    );
    assert!(!state.has_failed("https://x.test/b"));
    assert!(!state.has_failed("about:blank"));
}

#[test]
fn what_is_done_is_noted_and_nothing_else() {
    let mut state = CurrentStateV1::new();
    state.set_has_follows(3);
    state.set_has_likes(4);
    state.set_comments_lost(5);
    state.set_has_all_posts(6);
    assert!(state.has_follows.contains(&3) && state.has_follows.len() == 1);
    assert!(state.has_likes.contains(&4) && state.has_likes.len() == 1);
    assert!(state.comments_lost_to_time.contains(&5) && state.comments_lost_to_time.len() == 1);
    assert!(state.has_all_posts(6));
    for other in [0u64, 3, 4, 5, 7] {
        assert!(!state.has_all_posts(other));
    }
    assert!(state.failed_urls.is_empty());
    assert!(state.tagged_posts.is_empty());
    state.set_has_follows(3);
    assert_eq!(state.has_follows.len(), 1);
}

#[test]
fn a_batch_ends_at_the_first_text_that_is_no_address() {
    let texts = vec!["https://x.test/a".to_string(), "https://x.test/b".into()];
    let (addresses, whole) = batch_addresses(&texts);
    assert!(whole);
    assert_eq!(addresses.iter().map(|a| a.href.as_str()).collect::<Vec<_>>(), vec!["https://x.test/a", "https://x.test/b"]);
    let texts = vec!["https://x.test/a".to_string(), "no address".into(), "https://x.test/c".into()];
    let (addresses, whole) = batch_addresses(&texts);
    assert!(!whole);
    assert_eq!(addresses.iter().map(|a| a.href.as_str()).collect::<Vec<_>>(), vec!["https://x.test/a"]);
    assert_eq!(batch_addresses(&vec![]), (vec![], true));
}

#[test]
fn comments_of_a_lost_page_are_looked_for_on_its_shares() {
    // The page of post 5 is gone; post 9 shares it and shows its comments.
    let mut sweep = CommentSweep::new(vec![5, 3]);
    assert_eq!(sweep.posts, vec![3, 5]);
    let item = sweep.next().unwrap();
    assert_eq!(item, SweepItem { post: 5, for_post: 5, is_last: true });
    let lost = sweep.on_not_found(item, &vec![9]);
    assert!(!lost);
    let item = sweep.next().unwrap();
    assert_eq!(item, SweepItem { post: 9, for_post: 5, is_last: true });
    // What the page of post 9 brings is written for post 5, which is then
    // noted as having its comments.
    let mut state = CurrentStateV1::new();
    state.set_has_comments(1, item.for_post);
    assert!(state.has_comments(1, 5));
    assert_eq!(sweep.next(), Some(SweepItem { post: 3, for_post: 3, is_last: true }));
    assert_eq!(sweep.next(), None);
}

#[test]
fn comments_are_lost_once_every_share_has_failed() {
    let mut sweep = CommentSweep::new(vec![5]);
    let item = sweep.next().unwrap();
    assert!(!sweep.on_not_found(item, &vec![7, 8]));
    let first = sweep.next().unwrap();
    assert_eq!(first, SweepItem { post: 8, for_post: 5, is_last: false });
    assert!(!sweep.on_not_found(first, &vec![]));
    let second = sweep.next().unwrap();
    assert_eq!(second, SweepItem { post: 7, for_post: 5, is_last: true });
    assert!(sweep.on_not_found(second, &vec![]));
    assert_eq!(sweep.next(), None);
}

#[test]
fn a_post_without_shares_is_lost_at_once() {
    let mut sweep = CommentSweep::new(vec![5]);
    let item = sweep.next().unwrap();
    assert!(sweep.on_not_found(item, &vec![]));
}

#[test]
fn a_repair_goes_through_shares_of_shares() {
    let mut search = RepairSearch::new(vec![4, 6]);
    assert_eq!(search.next(), Some(6));
    search.on_not_found(vec![10, 11]);
    assert_eq!(search.next(), Some(11));
    assert_eq!(search.next(), Some(10));
    assert_eq!(search.next(), Some(4));
    assert_eq!(search.next(), None);
    assert!(is_share_fixed(true, Some(3)));
    assert!(!is_share_fixed(true, None));
    assert!(!is_share_fixed(false, Some(3)));
}

#[test]
fn resources_are_fetched_five_at_a_time() {
    assert_eq!(batch_count(0), 0);
    assert_eq!(batch_count(1), 1);
    assert_eq!(batch_count(5), 1);
    assert_eq!(batch_count(6), 2);
    assert_eq!(batch_count(u64::MAX), u64::MAX / 5);
    assert_eq!(batch_offset(3, 20), 15);
}
