use cohost_dl::comment::{CommentFromCohost, InnerComment, Permission};
use cohost_dl::data::{
    CommentDataV1, DbComment, DbDataError, DbPost, DbProject, PostData, PostDataFormat,
    PostDataV1, PostDataV2, ProjectDataV1,
};
use cohost_dl::ingest::{
    after_refetch, comments_in_order, ingest_order, insert_comment, insert_post_final,
    insert_project, posts_with_comments, resolve_share_of, share_target_action, share_tree_hints, InsertError,
    IngestStep, RefetchOutcome, RefetchResult, ShareTargetAction,
};
use cohost_dl::post::{
    LimitedVisibilityReason, PostAstMap, PostBlock, PostBlockMarkdown, PostFromCohost, PostState,
};
use cohost_dl::project::{
    AvatarShape, LoggedOutPostVisibility, ProjectAskSettings, ProjectFromCohost, ProjectPrivacy,
};

fn project(id: u64, handle: &str) -> ProjectFromCohost {
    ProjectFromCohost {
        ask_settings: ProjectAskSettings { enabled: false, allow_anon: false, require_logged_in_anon: false },
        avatar_preview_url: "https://staging.cohostcdn.org/avatar/p.png".into(),
        avatar_shape: AvatarShape::Circle,
        avatar_url: "https://staging.cohostcdn.org/avatar/a.png".into(),
        contact_card: vec![],
        dek: String::new(),
        delete_after: None,
        description: "![banner](/static/banner.png)".into(),
        display_name: handle.to_uppercase(),
        flags: vec![],
        frequently_used_tags: vec![],
        handle: handle.into(),
        header_preview_url: None,
        header_url: Some("https://staging.cohostcdn.org/header/h.png".into()),
        is_self_project: None,
        logged_out_post_visibility: LoggedOutPostVisibility::Hidden,
        privacy: ProjectPrivacy::Private,
        project_id: id,
        pronouns: None,
        url: None,
    }
}

fn post(id: u64, share_of: Option<u64>, transparent_of: Option<u64>, share_tree: Vec<PostFromCohost>) -> PostFromCohost {
    PostFromCohost {
        ast_map: PostAstMap { read_more_index: None, spans: vec![] },
        blocks: vec![PostBlock::Markdown { markdown: PostBlockMarkdown { content: format!("![i](/img/{id}.png)") } }],
        can_publish: false,
        can_share: true,
        comments_locked: false,
        contributor_block_incoming_or_outgoing: false,
        cws: vec![],
        effective_adult_content: id % 2 == 0,
        filename: format!("{id}-slug"),
        has_any_contributor_muted: false,
        has_cohost_plus: false,
        headline: format!("post {id}"),
        is_editor: false,
        is_liked: id == 3,
        limited_visibility_reason: LimitedVisibilityReason::NotLimited,
        num_comments: 0,
        num_shared_comments: 0,
        pinned: false,
        plain_text_body: String::new(),
        post_edit_url: String::new(),
        post_id: id,
        posting_project: project(100 + id, "poster"),
        published_at: Some("2024-01-01T00:00:00.000Z".into()),
        related_projects: vec![project(200, "rel-a"), project(201, "rel-b")],
        response_to_ask_id: None,
        share_of_post_id: share_of,
        share_tree,
        shares_locked: false,
        single_post_page_url: format!("https://cohost.org/poster/post/{id}-slug"),
        state: PostState::Published,
        tags: vec!["first".into(), "second".into()],
        transparent_share_of_post_id: transparent_of,
    }
}

fn comment(id: &str, reply_to: Option<&str>, children: Vec<CommentFromCohost>) -> CommentFromCohost {
    CommentFromCohost {
        poster: Some(project(50, "commenter")),
        comment: InnerComment {
            body: format!("comment {id} ![c](/c/{id}.png)"),
            comment_id: id.into(),
            children,
            deleted: false,
            has_cohost_plus: false,
            hidden: false,
            in_reply_to: reply_to.map(|s| s.to_string()),
            post_id: 77,
            posted_at_iso: "2024-02-02T00:00:00.000Z".into(),
        },
        can_edit: Permission::NotAllowed,
        can_hide: Permission::NotAllowed,
        can_interact: Permission::Allowed,
    }
}

/// A store that holds the rows of posts and says what is there.
struct Store {
    rows: Vec<DbPost>,
}

impl Store {
    fn has(&self, id: u64) -> bool {
        self.rows.iter().any(|r| r.id == id as i32)
    }

    fn is_bad(&self, id: u64) -> bool {
        self.rows.iter().any(|r| r.id == id as i32 && r.is_transparent_share && r.share_of_post_id.is_none())
    }

    fn share_of(&self, id: u64) -> Option<i32> {
        self.rows.iter().find(|r| r.id == id as i32).unwrap().share_of_post_id
    }

    /// Takes a post in as the downloader does; a post that would be asked
    /// for on its own is not found.
    fn ingest(&mut self, post: &PostFromCohost, is_share_post: bool, hint: Option<u64>) {
        for step in ingest_order(post, is_share_post, hint) {
            if let Some(i) = step.tree_index {
                self.ingest(&post.share_tree[i], step.is_share_post, step.hint);
            }
        }
        let mut infer = false;
        if let Some(target) = post.share_of_post_id {
            match share_target_action(self.has(target), self.is_bad(target), is_share_post) {
                ShareTargetAction::Proceed => {}
                ShareTargetAction::Infer => infer = true,
                ShareTargetAction::Refetch => match after_refetch(RefetchResult::NotFound) {
                    RefetchOutcome::Infer => infer = true,
                    _ => unreachable!(),
                },
            }
        }
        let plan = insert_post_final(1, post, infer, hint, vec![]).unwrap();
        if let Some(target) = plan.row.share_of_post_id {
            assert!(self.has(target as u64), "a post is only written as a share of a post that is there");
        }
        self.rows.retain(|r| r.id != plan.row.id);
        self.rows.push(plan.row);
    }
}

#[test]
fn a_share_brings_the_posts_that_it_shares() {
    let post_a = post(1, None, None, vec![]);
    let post_b = post(2, Some(1), Some(1), vec![]);
    let post_c = post(3, Some(2), Some(1), vec![post_a, post_b]);
    let mut store = Store { rows: vec![] };
    store.ingest(&post_c, false, None);
    assert_eq!(store.rows.iter().map(|r| r.id).collect::<Vec<_>>(), vec![1, 2, 3]);
    assert_eq!(store.share_of(3), Some(2));
    assert_eq!(store.share_of(2), Some(1));
    assert_eq!(store.share_of(1), None);
}

#[test]
fn a_share_of_a_missing_post_is_linked_to_the_last_post_that_is_there() {
    // Post 3 says it shares post 2, which the site left out of its share tree.
    let post_a = post(1, None, None, vec![]);
    let post_c = post(3, Some(2), Some(1), vec![post_a]);
    let mut store = Store { rows: vec![] };
    store.ingest(&post_c, false, None);
    assert_eq!(store.share_of(3), Some(1));
    // A share in a tree whose own tree is missing is linked to the post before it.
    let q5 = post(5, Some(99), None, vec![]);
    let q6 = post(6, Some(5), None, vec![post(4, None, None, vec![]), q5]);
    store.ingest(&q6, false, None);
    assert_eq!(store.share_of(5), Some(4));
    assert_eq!(store.share_of(6), Some(5));
    // Without a tree and without a post before it, it is a share of nothing.
    let lone = post(8, Some(98), Some(98), vec![]);
    store.ingest(&lone, false, None);
    assert_eq!(store.share_of(8), None);
    assert!(store.is_bad(8));
}

#[test]
fn every_chain_of_shares_ends_at_a_post_that_shares_nothing() {
    let mut store = Store { rows: vec![] };
    let tree = vec![post(1, None, None, vec![]), post(2, Some(1), Some(1), vec![]), post(4, Some(3), None, vec![])];
    store.ingest(&post(7, Some(4), Some(4), tree), false, None);
    store.ingest(&post(9, Some(7), None, vec![post(7, Some(4), Some(4), vec![])]), false, None);
    store.ingest(&post(12, Some(11), Some(11), vec![]), false, None);
    for row in &store.rows {
        let mut at = row.id;
        let mut steps = 0;
        while let Some(next) = store.share_of(at as u64) {
            assert!(store.has(next as u64));
            at = next;
            steps += 1;
            assert!(steps <= store.rows.len(), "the chain from {} goes round", row.id);
        }
        assert_eq!(store.share_of(at as u64), None);
    }
    assert_eq!(store.share_of(4), Some(2));
    assert_eq!(store.share_of(7), Some(4));
    assert_eq!(store.share_of(9), Some(7));
    assert_eq!(store.share_of(12), None);
}

#[test]
fn the_posts_of_a_share_tree_are_written_before_the_post() {
    let tree = vec![post(1, None, None, vec![]), post(2, Some(1), Some(1), vec![])];
    let top = post(3, Some(2), Some(1), tree);
    assert_eq!(
        ingest_order(&top, false, None),
        vec![
            IngestStep { tree_index: Some(0), post_id: 1, is_share_post: true, hint: None },
            IngestStep { tree_index: Some(1), post_id: 2, is_share_post: true, hint: Some(1) },
            IngestStep { tree_index: None, post_id: 3, is_share_post: false, hint: None },
        ]
    );
    let bare = post(9, None, None, vec![]);
    assert_eq!(
        ingest_order(&bare, true, Some(4)),
        vec![IngestStep { tree_index: None, post_id: 9, is_share_post: true, hint: Some(4) }]
    );
    // No page is asked for: each post finds what it shares written already.
    let mut store = Store { rows: vec![] };
    let mut written = Vec::new();
    for step in ingest_order(&top, false, None) {
        let target = match step.tree_index {
            Some(i) => top.share_tree[i].share_of_post_id,
            None => top.share_of_post_id,
        };
        if let Some(target) = target {
            assert_eq!(share_target_action(store.has(target), store.is_bad(target), step.is_share_post), ShareTargetAction::Proceed);
        }
        let this = match step.tree_index {
            Some(i) => &top.share_tree[i],
            None => &top,
        };
        store.ingest(this, step.is_share_post, step.hint);
        written.push(step.post_id);
    }
    assert_eq!(written, vec![1, 2, 3]);
}

#[test]
fn share_targets_are_decided() {
    assert_eq!(share_target_action(true, false, true), ShareTargetAction::Proceed);
    assert_eq!(share_target_action(true, false, false), ShareTargetAction::Proceed);
    assert_eq!(share_target_action(false, false, true), ShareTargetAction::Refetch);
    assert_eq!(share_target_action(true, true, true), ShareTargetAction::Refetch);
    assert_eq!(share_target_action(false, false, false), ShareTargetAction::Infer);
    assert_eq!(share_target_action(true, true, false), ShareTargetAction::Infer);
    assert_eq!(after_refetch(RefetchResult::Found), RefetchOutcome::Restart);
    assert_eq!(after_refetch(RefetchResult::NotFound), RefetchOutcome::Infer);
    assert_eq!(after_refetch(RefetchResult::Failed), RefetchOutcome::GiveUp);
}

#[test]
fn shares_are_resolved() {
    let p = post(3, Some(2), None, vec![post(1, None, None, vec![]), post(7, None, None, vec![])]);
    assert_eq!(resolve_share_of(&p, false, Some(9)), Some(2));
    assert_eq!(resolve_share_of(&p, true, Some(9)), Some(7));
    let bare = post(3, Some(2), None, vec![]);
    assert_eq!(resolve_share_of(&bare, true, Some(9)), Some(9));
    assert_eq!(resolve_share_of(&bare, true, None), None);
    assert_eq!(share_tree_hints(&p), vec![None, Some(1)]);
    assert_eq!(share_tree_hints(&bare), Vec::<Option<u64>>::new());
}

#[test]
fn a_post_is_written_with_all_that_belongs_to_it() {
    let p = post(3, Some(2), Some(1), vec![]);
    let plan = insert_post_final(42, &p, false, None, vec![1, 2, 3]).unwrap();
    assert_eq!(
        plan.row,
        DbPost {
            id: 3,
            posting_project_id: 103,
            published_at: Some("2024-01-01T00:00:00.000Z".into()),
            response_to_ask_id: None,
            share_of_post_id: Some(2),
            is_transparent_share: true,
            filename: "3-slug".into(),
            data: vec![1, 2, 3],
            data_version: 2,
            state: 1,
            is_adult_content: false,
            is_pinned: false,
        }
    );
    assert_eq!(plan.like, Some((42, 3)));
    assert_eq!(plan.related_projects, vec![(3, 200), (3, 201)]);
    assert_eq!(plan.tags, vec![(3, "first".to_string(), 0), (3, "second".to_string(), 1)]);
    assert_eq!(plan.resources, vec![(3, "https://cohost.org/img/3.png".to_string())]);
    let unliked = insert_post_final(42, &post(4, None, None, vec![]), false, None, vec![]).unwrap();
    assert_eq!(unliked.like, None);
    assert_eq!(unliked.row.share_of_post_id, None);
    assert!(unliked.row.is_adult_content);
}

#[test]
fn a_post_without_an_address_is_not_written() {
    let mut p = post(3, None, None, vec![]);
    p.single_post_page_url = "nowhere".into();
    assert_eq!(insert_post_final(1, &p, false, None, vec![]), Err(InsertError::InvalidPostUrl));
}

#[test]
fn a_project_is_written_with_its_resources() {
    let plan = insert_project(&project(9, "someone"), vec![7]).unwrap();
    assert_eq!(
        plan.row,
        DbProject { id: 9, handle: "someone".into(), is_private: true, requires_logged_in: true, data: vec![7], data_version: 1 }
    );
    assert_eq!(
        plan.resources,
        vec![
            (9, "https://staging.cohostcdn.org/avatar/a.png".to_string()),
            (9, "https://staging.cohostcdn.org/avatar/p.png".to_string()),
            (9, "https://staging.cohostcdn.org/header/h.png".to_string()),
            (9, "https://cohost.org/static/banner.png".to_string()),
        ]
    );
}

#[test]
fn a_comment_is_written_for_the_post_it_is_shown_on() {
    let c = comment("abc", Some("parent"), vec![]);
    let plan = insert_comment(5, &c, vec![9, 9]);
    assert_eq!(
        plan.row,
        DbComment {
            id: "abc".into(),
            post_id: 5,
            in_reply_to_id: Some("parent".into()),
            posting_project_id: Some(50),
            published_at: "2024-02-02T00:00:00.000Z".into(),
            data: vec![9, 9],
            data_version: 1,
        }
    );
    assert_eq!(plan.resources, vec!["https://cohost.org/c/abc.png".to_string()]);
}

#[test]
fn comments_are_written_level_by_level() {
    let tree = comment(
        "a",
        None,
        vec![
            comment("b", Some("a"), vec![comment("d", Some("b"), vec![comment("g", Some("d"), vec![])])]),
            comment("c", Some("a"), vec![comment("e", Some("c"), vec![]), comment("f", Some("c"), vec![])]),
        ],
    );
    let order: Vec<&str> = comments_in_order(&tree).iter().map(|c| c.comment.comment_id.as_str()).collect();
    assert_eq!(order, vec!["a", "b", "c", "d", "e", "f", "g"]);
    let single = comment("x", None, vec![]);
    assert_eq!(comments_in_order(&single).len(), 1);
    let lists = vec![(5u64, vec![tree]), (9u64, vec![])];
    assert_eq!(posts_with_comments(&lists), vec![5, 9]);
}

#[test]
fn states_of_posts_are_written_as_numbers() {
    for (state, code) in [(PostState::Draft, 0u32), (PostState::Published, 1), (PostState::Deleted, 2)] {
        assert_eq!(state.code(), code);
        assert_eq!(PostState::from_code(code), Some(state));
    }
    assert_eq!(PostState::from_code(3), None);
    assert_eq!(PostState::from_code(u32::MAX), None);
}

#[test]
fn data_is_read_by_its_version() {
    let mut row = insert_post_final(1, &post(4, None, None, vec![]), false, None, vec![]).unwrap().row;
    assert_eq!(row.data_format(), Ok(PostDataFormat::V2));
    row.data_version = 1;
    assert_eq!(row.data_format(), Ok(PostDataFormat::V1));
    row.data_version = 3;
    assert_eq!(row.data_format(), Err(DbDataError::Version(3)));
    let project_row = DbProject { id: 1, handle: "h".into(), is_private: false, requires_logged_in: false, data: vec![], data_version: 2 };
    assert_eq!(project_row.data_format(), Err(DbDataError::Version(2)));
    assert_eq!(DbProject { data_version: 1, ..project_row }.data_format(), Ok(()));
    let comment_row = insert_comment(1, &comment("a", None, vec![]), vec![]).row;
    assert_eq!(comment_row.data_format(), Ok(()));
    assert_eq!(DbComment { data_version: 0, ..comment_row }.data_format(), Err(DbDataError::Version(0)));
}

#[test]
fn the_first_version_of_the_data_of_a_post_is_brought_to_the_second() {
    let v1 = PostDataV1 {
        blocks: post(1, None, None, vec![]).blocks,
        comments_locked: true,
        shares_locked: true,
        cws: vec!["cw".into()],
        effective_adult_content: true,
        has_cohost_plus: true,
        headline: "h".into(),
        num_comments: 3,
        num_shared_comments: 4,
        pinned: true,
        plain_text_body: "body".into(),
        post_edit_url: "edit".into(),
        single_post_page_url: "page".into(),
    };
    let expected = PostDataV2 {
        blocks: v1.blocks.clone(),
        comments_locked: true,
        shares_locked: true,
        cws: vec!["cw".into()],
        has_cohost_plus: true,
        headline: "h".into(),
        num_comments: 3,
        num_shared_comments: 4,
        plain_text_body: "body".into(),
        post_edit_url: "edit".into(),
        single_post_page_url: "page".into(),
    };
    let mut row = insert_post_final(1, &post(5, None, None, vec![]), false, None, vec![1]).unwrap().row;
    row.data_version = 1;
    let migrated = row.clone().migrate_to_v2(&v1);
    assert_eq!(migrated, DbPost { is_adult_content: true, is_pinned: true, data_version: 2, ..row.clone() });
    assert_eq!(migrated.clone().migrate_to_v2(&v1), migrated);
    assert_eq!(PostDataV2::from_v1(v1.clone()), expected);
    assert_eq!(PostData::V1(v1).upgrade(), expected);
    assert_eq!(PostData::V2(expected.clone()).upgrade(), expected);
}

#[test]
fn data_is_taken_from_entities() {
    let p = post(6, None, None, vec![]);
    let data = PostDataV2::from_post(post(6, None, None, vec![]));
    assert_eq!(data.blocks, p.blocks);
    assert_eq!(data.headline, "post 6");
    assert_eq!(data.single_post_page_url, p.single_post_page_url);
    let pr = project(3, "x");
    let data = ProjectDataV1::from_project(project(3, "x"));
    assert_eq!(data.avatar_url, pr.avatar_url);
    assert_eq!(data.header_url, pr.header_url);
    assert_eq!(data.privacy, ProjectPrivacy::Private);
    let c = comment("a", None, vec![]);
    assert_eq!(
        CommentDataV1::from_comment(&c),
        CommentDataV1 { body: c.comment.body.clone(), deleted: false, has_cohost_plus: false, hidden: false }
    );
}

#[test]
fn ids_are_cut_to_what_a_row_holds() {
    let big = post(u32::MAX as u64 + 5, None, None, vec![]);
    let row = DbPost::from_post(&big, vec![], 2);
    assert_eq!(row.id, 4);
    let negative = post(u32::MAX as u64, None, None, vec![]);
    assert_eq!(DbPost::from_post(&negative, vec![], 2).id, -1);
}
