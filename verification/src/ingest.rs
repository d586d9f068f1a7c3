//! Taking posts, projects and comments into the store: what is written
//! for each, and in which order.
//!
//! A post is written after the posts of its share tree, the earliest
//! first, so that what a post is a share of is there before the post. A
//! comment is written before the replies to it.

use crate::address::{parse_url, parsed_url};
use crate::comment::CommentFromCohost;
use crate::data::{
    opt_row_id, row_id, to_opt_row_id, to_row_id, DbComment, DbPost, DbProject,
    COMMENT_DATA_VERSION, POST_DATA_VERSION, PROJECT_DATA_VERSION,
};
use crate::post::PostFromCohost;
use crate::project::{LoggedOutPostVisibility, ProjectFromCohost, ProjectPrivacy};
use crate::res_ref::{with_block_refs, ResourceRefs};
use crate::text::{decimal, from_chars, push_decimal, push_str, string_views};
use vstd::prelude::*;

verus! {

/// What to do about the post that a post is a share of.
#[derive(Debug, Clone, Copy, PartialEq, Eq, Structural)]
pub enum ShareTargetAction {
    /// It is there: the post is written as a share of it.
    Proceed,
    /// It is not there, or is itself a share of nothing that is known, and
    /// the post came as part of a share tree: the post is asked for on its
    /// own, which brings its whole share tree.
    Refetch,
    /// It is not to be had: the post is written as a share of the last
    /// post of its share tree.
    Infer,
}

/// What to do about the post that a post is a share of, given whether it
/// is there, whether it is a transparent share of nothing that is known,
/// and whether the post came as part of a share tree.
pub fn share_target_action(target_known: bool, target_is_bad: bool, is_share_post: bool) -> (r:
    ShareTargetAction)
    ensures
        r == (if target_known && !target_is_bad {
            ShareTargetAction::Proceed
        } else if is_share_post {
            ShareTargetAction::Refetch
        } else {
            ShareTargetAction::Infer
        }),
{
    if target_known && !target_is_bad {
        ShareTargetAction::Proceed
    } else if is_share_post {
        ShareTargetAction::Refetch
    } else {
        ShareTargetAction::Infer
    }
}

/// What came of asking for a post on its own.
#[derive(Debug, Clone, Copy, PartialEq, Eq, Structural)]
pub enum RefetchResult {
    Found,
    NotFound,
    Failed,
}

/// What to do once a post has been asked for on its own.
#[derive(Debug, Clone, Copy, PartialEq, Eq, Structural)]
pub enum RefetchOutcome {
    /// What came back is taken in, in place of the post.
    Restart,
    /// The post is written as a share of the last post of its share tree.
    Infer,
    /// The post is not written.
    GiveUp,
}

/// What to do once a post has been asked for on its own: a post that is
/// not found is written with what is known of it, and any other failure
/// ends the taking in of the post.
pub fn after_refetch(result: RefetchResult) -> (r: RefetchOutcome)
    ensures
        r == (match result {
            RefetchResult::Found => RefetchOutcome::Restart,
            RefetchResult::NotFound => RefetchOutcome::Infer,
            RefetchResult::Failed => RefetchOutcome::GiveUp,
        }),
{
    match result {
        RefetchResult::Found => RefetchOutcome::Restart,
        RefetchResult::NotFound => RefetchOutcome::Infer,
        RefetchResult::Failed => RefetchOutcome::GiveUp,
    }
}

/// The post that each post of a share tree is written after: the one
/// before it in the tree, and none for the first.
pub open spec fn share_tree_hint(tree: Seq<PostFromCohost>, i: int) -> Option<u64> {
    if 0 < i < tree.len() {
        Some(tree[i - 1].post_id)
    } else {
        None
    }
}

/// For each post of the share tree of a post, in the order in which they
/// are written, the post before it, which it is taken to be a share of
/// where nothing else is known.
pub fn share_tree_hints(post: &PostFromCohost) -> (r: Vec<Option<u64>>)
    ensures
        r@.len() == post.share_tree@.len(),
        forall|i: int| 0 <= i < r@.len() ==> r@[i] == share_tree_hint(post.share_tree@, i),
{
    let mut hints: Vec<Option<u64>> = Vec::new();
    let mut i: usize = 0;
    while i < post.share_tree.len()
        invariant
            i <= post.share_tree.len(),
            hints@.len() == i,
            forall|k: int| 0 <= k < i ==> hints@[k] == share_tree_hint(post.share_tree@, k),
        decreases post.share_tree.len() - i,
    {
        if i == 0 {
            hints.push(None);
        } else {
            hints.push(Some(post.share_tree[i - 1].post_id));
        }
        i = i + 1;
    }
    hints
}

/// One post that is taken in on the way to taking in a post.
#[derive(Debug, Clone, Copy, PartialEq, Eq, Structural)]
pub struct IngestStep {
    /// The place of the post in the share tree; `None` for the post
    /// itself.
    pub tree_index: Option<usize>,
    /// The id of the post.
    pub post_id: u64,
    /// Whether the post is taken in as part of a share tree.
    pub is_share_post: bool,
    /// The post that it is written after.
    pub hint: Option<u64>,
}

/// The step at a place of the order in which a post is taken in: a post
/// of its share tree at the places of the tree, after the post before it
/// in the tree; and then the post itself, as it was handed in.
pub open spec fn ingest_step(
    post: PostFromCohost,
    is_share_post: bool,
    hint: Option<u64>,
    i: int,
) -> IngestStep {
    if 0 <= i < post.share_tree@.len() {
        IngestStep {
            tree_index: Some(i as usize),
            post_id: post.share_tree@[i].post_id,
            is_share_post: true,
            hint: share_tree_hint(post.share_tree@, i),
        }
    } else {
        IngestStep { tree_index: None, post_id: post.post_id, is_share_post, hint }
    }
}

/// The posts to take in for a post, in the order in which they are
/// written: those of its share tree, the earliest first, and then the
/// post itself. So what a post shares is written before the post.
pub fn ingest_order(post: &PostFromCohost, is_share_post: bool, hint: Option<u64>) -> (r: Vec<
    IngestStep,
>)
    ensures
        r@.len() == post.share_tree@.len() + 1,
        forall|i: int|
            0 <= i < r@.len() ==> r@[i] == ingest_step(*post, is_share_post, hint, i),
{
    let mut steps: Vec<IngestStep> = Vec::new();
    let mut i: usize = 0;
    while i < post.share_tree.len()
        invariant
            i <= post.share_tree.len(),
            steps@.len() == i,
            forall|k: int| 0 <= k < i ==> steps@[k] == ingest_step(*post, is_share_post, hint, k),
        decreases post.share_tree.len() - i,
    {
        let before = if i == 0 {
            None
        } else {
            Some(post.share_tree[i - 1].post_id)
        };
        steps.push(
            IngestStep {
                tree_index: Some(i),
                post_id: post.share_tree[i].post_id,
                is_share_post: true,
                hint: before,
            },
        );
        i = i + 1;
    }
    steps.push(IngestStep { tree_index: None, post_id: post.post_id, is_share_post, hint });
    steps
}

/// A post is written after the posts of its share tree, and each of those
/// after the one before it: the post itself is the last step, every step
/// before it is the post at its place in the tree, and each of those but
/// the first is written after the post of the step before.
pub proof fn lemma_post_follows_its_share_tree(
    post: PostFromCohost,
    is_share_post: bool,
    hint: Option<u64>,
    i: int,
)
    requires
        0 <= i < post.share_tree@.len(),
    ensures
        ingest_step(post, is_share_post, hint, i).post_id == post.share_tree@[i].post_id,
        ingest_step(post, is_share_post, hint, i).is_share_post,
        i > 0 ==> ingest_step(post, is_share_post, hint, i).hint == Some(
            ingest_step(post, is_share_post, hint, i - 1).post_id,
        ),
        ingest_step(post, is_share_post, hint, post.share_tree@.len() as int) == (IngestStep {
            tree_index: None,
            post_id: post.post_id,
            is_share_post,
            hint,
        }),
{
}

/// The post that a post is written as a share of: what the post says,
/// unless that is to be inferred; then the last post of its share tree,
/// or, where it has none, the post that it was written after.
pub open spec fn resolved_share_of(
    post: PostFromCohost,
    infer_share_post_from_tree: bool,
    maybe_share_of_post: Option<u64>,
) -> Option<u64> {
    if infer_share_post_from_tree {
        if post.share_tree@.len() > 0 {
            Some(post.share_tree@.last().post_id)
        } else {
            maybe_share_of_post
        }
    } else {
        post.share_of_post_id
    }
}

/// The post that a post is written as a share of.
pub fn resolve_share_of(
    post: &PostFromCohost,
    infer_share_post_from_tree: bool,
    maybe_share_of_post: Option<u64>,
) -> (r: Option<u64>)
    ensures
        r == resolved_share_of(*post, infer_share_post_from_tree, maybe_share_of_post),
{
    if infer_share_post_from_tree {
        if post.share_tree.len() > 0 {
            Some(post.share_tree[post.share_tree.len() - 1].post_id)
        } else {
            maybe_share_of_post
        }
    } else {
        post.share_of_post_id
    }
}

/// A post is only ever written as a share of a post that is there: if
/// the posts of its share tree and the post that it was written after are
/// there, and what it says it shares is there unless that is to be
/// inferred, then what it is written as a share of is there.
pub proof fn lemma_share_target_is_known(
    known: Set<u64>,
    post: PostFromCohost,
    infer_share_post_from_tree: bool,
    maybe_share_of_post: Option<u64>,
)
    requires
        forall|i: int| 0 <= i < post.share_tree@.len() ==> known.contains(post.share_tree@[i].post_id),
        maybe_share_of_post is Some ==> known.contains(maybe_share_of_post.unwrap()),
        !infer_share_post_from_tree && post.share_of_post_id is Some ==> known.contains(
            post.share_of_post_id.unwrap(),
        ),
    ensures
        resolved_share_of(post, infer_share_post_from_tree, maybe_share_of_post) matches Some(target)
            ==> known.contains(target),
{
}

/// The post that is reached from a post by going the given number of
/// times from a post to the post that it is written as a share of;
/// nothing where the chain ends before that. `links` holds, for each post
/// that is there, what it is written as a share of.
pub open spec fn ancestor(links: Map<u64, Option<u64>>, post: u64, steps: nat) -> Option<u64>
    decreases steps,
{
    if steps == 0 {
        Some(post)
    } else if links.contains_key(post) {
        match links[post] {
            Some(shared) => ancestor(links, shared, (steps - 1) as nat),
            None => None,
        }
    } else {
        None
    }
}

/// A root is a post that is there and is a share of nothing.
pub open spec fn is_root(links: Map<u64, Option<u64>>, post: u64) -> bool {
    links.contains_key(post) && links[post] is None
}

/// The chain from the post reaches a root after exactly the given number
/// of steps.
pub open spec fn ends_at_root_within(links: Map<u64, Option<u64>>, post: u64, steps: nat) -> bool {
    match ancestor(links, post, steps) {
        Some(last) => is_root(links, last),
        None => false,
    }
}

/// The chain from the post leads to a root.
pub open spec fn ends_at_root(links: Map<u64, Option<u64>>, post: u64) -> bool {
    exists|steps: nat| #[trigger] ends_at_root_within(links, post, steps)
}

/// From every post that is there the chain leads to a root.
pub open spec fn chains_end(links: Map<u64, Option<u64>>) -> bool {
    forall|post: u64| links.contains_key(post) ==> #[trigger] ends_at_root(links, post)
}

/// The chain from `from` comes by `post`.
pub open spec fn shares_through(links: Map<u64, Option<u64>>, from: u64, post: u64) -> bool {
    exists|steps: nat| #[trigger] ancestor(links, from, steps) == Some(post)
}

/// What a post may be written as a share of so that its chain leads to
/// a root: nothing, or a post whose own chain leads to a root and does
/// not come by the post.
pub open spec fn closes_no_cycle(links: Map<u64, Option<u64>>, post: u64, target: Option<u64>) -> bool {
    match target {
        Some(shared) => ends_at_root(links, shared) && !shares_through(links, shared, post),
        None => true,
    }
}

/// A chain that does not come by the post is the same once the post is
/// written.
proof fn lemma_chain_apart(
    links: Map<u64, Option<u64>>,
    post: u64,
    target: Option<u64>,
    from: u64,
    steps: nat,
)
    requires
        ends_at_root_within(links, from, steps),
        !shares_through(links, from, post),
    ensures
        ends_at_root_within(links.insert(post, target), from, steps),
    decreases steps,
{
    assert(ancestor(links, from, 0) == Some(from));
    if steps > 0 {
        let next = links[from].unwrap();
        assert forall|n: nat| ancestor(links, next, n) != Some(post) by {
            assert(ancestor(links, from, n + 1) == ancestor(links, next, n));
        }
        lemma_chain_apart(links, post, target, next, (steps - 1) as nat);
    }
}

/// The chain from the post that is written leads to a root.
proof fn lemma_written_post_ends(links: Map<u64, Option<u64>>, post: u64, target: Option<u64>)
    requires
        closes_no_cycle(links, post, target),
    ensures
        ends_at_root(links.insert(post, target), post),
{
    let after = links.insert(post, target);
    match target {
        None => {
            assert(ends_at_root_within(after, post, 0));
        },
        Some(shared) => {
            let n = choose|n: nat| ends_at_root_within(links, shared, n);
            lemma_chain_apart(links, post, target, shared, n);
            assert(ancestor(after, post, n + 1) == ancestor(after, shared, n));
            assert(ends_at_root_within(after, post, n + 1));
        },
    }
}

/// A chain that led to a root still leads to one once the post is written.
proof fn lemma_chain_after_write(
    links: Map<u64, Option<u64>>,
    post: u64,
    target: Option<u64>,
    from: u64,
    steps: nat,
)
    requires
        closes_no_cycle(links, post, target),
        ends_at_root_within(links, from, steps),
    ensures
        ends_at_root(links.insert(post, target), from),
    decreases steps,
{
    let after = links.insert(post, target);
    if from == post {
        lemma_written_post_ends(links, post, target);
    } else if steps == 0 {
        assert(ends_at_root_within(after, from, 0));
    } else {
        let next = links[from].unwrap();
        lemma_chain_after_write(links, post, target, next, (steps - 1) as nat);
        let m = choose|m: nat| ends_at_root_within(after, next, m);
        assert(ancestor(after, from, m + 1) == ancestor(after, next, m));
        assert(ends_at_root_within(after, from, m + 1));
    }
}

/// A chain goes on from where it has come to: the post that is reached
/// after some steps and some more is the post that is reached with the
/// second number of steps from the post that is reached with the first.
proof fn lemma_chain_goes_on(links: Map<u64, Option<u64>>, from: u64, first: nat, more: nat)
    ensures
        ancestor(links, from, first + more) == (match ancestor(links, from, first) {
            Some(mid) => ancestor(links, mid, more),
            None => None,
        }),
    decreases first,
{
    if first > 0 && links.contains_key(from) {
        match links[from] {
            Some(next) => {
                lemma_chain_goes_on(links, next, (first - 1) as nat, more);
                assert(ancestor(links, from, first + more) == ancestor(
                    links,
                    next,
                    ((first - 1) + more) as nat,
                ));
            },
            None => {},
        }
    }
}

/// A chain that has not come by the post is the chain that was there
/// before the post was written.
proof fn lemma_chain_as_before(
    links: Map<u64, Option<u64>>,
    post: u64,
    target: Option<u64>,
    from: u64,
    steps: nat,
)
    requires
        forall|k: nat| k < steps ==> ancestor(links.insert(post, target), from, k) != Some(post),
    ensures
        ancestor(links, from, steps) == ancestor(links.insert(post, target), from, steps),
    decreases steps,
{
    let after = links.insert(post, target);
    if steps > 0 {
        assert(ancestor(after, from, 0) == Some(from));
        if links.contains_key(from) {
            match links[from] {
                Some(next) => {
                    assert forall|k: nat| k < steps - 1 implies ancestor(after, next, k)
                        != Some(post) by {
                        assert(ancestor(after, from, k + 1) == ancestor(after, next, k));
                    }
                    lemma_chain_as_before(links, post, target, next, (steps - 1) as nat);
                },
                None => {},
            }
        }
    }
}

/// Where the chain from the post that was written leads to a root, it
/// does so in a number of steps on none of which it is back at the post.
proof fn lemma_shortest_way(links: Map<u64, Option<u64>>, post: u64, steps: nat) -> (shortest: nat)
    requires
        ends_at_root_within(links, post, steps),
    ensures
        shortest <= steps,
        ends_at_root_within(links, post, shortest),
        forall|k: nat| 1 <= k <= shortest ==> ancestor(links, post, k) != Some(post),
    decreases steps,
{
    if exists|k: nat| 1 <= k <= steps && ancestor(links, post, k) == Some(post) {
        let k = choose|k: nat| 1 <= k <= steps && ancestor(links, post, k) == Some(post);
        lemma_chain_goes_on(links, post, k, (steps - k) as nat);
        assert(k + (steps - k) as nat == steps);
        lemma_shortest_way(links, post, (steps - k) as nat)
    } else {
        steps
    }
}

/// The chain from a post that is written as a share of another leads to
/// a root exactly where the chain of the other led to a root and did not
/// come by the post. So a write ends the chain of its post at a root on
/// every input but those on which no write could: the post that is shared
/// leads nowhere, or it is itself, by its chain, a share of the post.
pub proof fn lemma_chain_ends_exactly_where_it_can(
    links: Map<u64, Option<u64>>,
    post: u64,
    shared: u64,
)
    ensures
        ends_at_root(links.insert(post, Some(shared)), post) <==> closes_no_cycle(
            links,
            post,
            Some(shared),
        ),
{
    let target = Some(shared);
    let after = links.insert(post, target);
    if closes_no_cycle(links, post, target) {
        lemma_written_post_ends(links, post, target);
    }
    if ends_at_root(after, post) {
        let n = choose|n: nat| ends_at_root_within(after, post, n);
        let m = lemma_shortest_way(after, post, n);
        assert(ancestor(after, post, 0) == Some(post));
        assert(m >= 1);
        let rest = (m - 1) as nat;
        assert forall|k: nat| ancestor(after, shared, k) == ancestor(after, post, k + 1) by {
            lemma_chain_goes_on(after, post, 1, k);
            assert(ancestor(after, shared, 0) == Some(shared));
            assert(ancestor(after, post, 1) == ancestor(after, shared, 0));
            assert(1 + k == k + 1);
        }
        assert forall|j: nat| j <= rest implies ancestor(links, shared, j) == ancestor(
            after,
            shared,
            j,
        ) by {
            assert forall|k: nat| k < j implies ancestor(after, shared, k) != Some(post) by {
                assert(ancestor(after, shared, k) == ancestor(after, post, k + 1));
            }
            lemma_chain_as_before(links, post, target, shared, j);
        }
        assert(ancestor(links, shared, rest) == ancestor(after, post, m));
        let root = ancestor(after, post, m).unwrap();
        assert(root != post);
        assert(is_root(links, root));
        assert(ends_at_root_within(links, shared, rest));
        assert forall|q: nat| ancestor(links, shared, q) != Some(post) by {
            if q <= rest {
                assert(ancestor(after, shared, q) == ancestor(after, post, q + 1));
            } else {
                lemma_chain_goes_on(links, shared, rest, (q - rest) as nat);
                assert(rest + (q - rest) as nat == q);
                assert(ancestor(links, root, (q - rest) as nat) is None);
            }
        }
    }
}

/// Writing a post closes no cycle and breaks no chain: where what the
/// post is written as a share of leads to a root and is not itself, by
/// its chain, a share of the post, the chain from the post leads to a
/// root once the post is written, and so does every chain that led to
/// one before.
pub proof fn lemma_chains_stay_whole(
    links: Map<u64, Option<u64>>,
    post: u64,
    target: Option<u64>,
    from: u64,
)
    requires
        closes_no_cycle(links, post, target),
    ensures
        ends_at_root(links.insert(post, target), post),
        ends_at_root(links, from) ==> ends_at_root(links.insert(post, target), from),
{
    lemma_written_post_ends(links, post, target);
    if ends_at_root(links, from) {
        let n = choose|n: nat| ends_at_root_within(links, from, n);
        lemma_chain_after_write(links, post, target, from, n);
    }
}

/// Writing a post keeps every chain of shares leading to a root: if from
/// every post that is there the chain leads to a root, and what the post
/// is written as a share of is there and is not itself, by its own chain,
/// a share of the post, then the same holds once the post is written.
pub proof fn lemma_chains_end_after_write(
    links: Map<u64, Option<u64>>,
    post: u64,
    target: Option<u64>,
)
    requires
        chains_end(links),
        target matches Some(shared) ==> links.contains_key(shared) && !shares_through(
            links,
            shared,
            post,
        ),
    ensures
        chains_end(links.insert(post, target)),
{
    let after = links.insert(post, target);
    match target {
        Some(shared) => {
            assert(ends_at_root(links, shared));
        },
        None => {},
    }
    assert forall|p: u64| after.contains_key(p) implies #[trigger] ends_at_root(after, p) by {
        if p != post {
            assert(links.contains_key(p));
            assert(ends_at_root(links, p));
        }
        lemma_chains_stay_whole(links, post, target, p);
    }
}

/// Where every chain leads to a root, what a post is a share of is there.
pub proof fn lemma_shared_post_is_there(links: Map<u64, Option<u64>>, post: u64)
    requires
        chains_end(links),
        links.contains_key(post),
    ensures
        links[post] matches Some(shared) ==> links.contains_key(shared),
{
    if let Some(shared) = links[post] {
        assert(ends_at_root(links, post));
        let n = choose|n: nat| ends_at_root_within(links, post, n);
        assert(ancestor(links, post, 0) == Some(post));
        assert(n > 0);
        assert(ancestor(links, post, n) == ancestor(links, shared, (n - 1) as nat));
        if n - 1 == 0 {
            assert(ancestor(links, shared, 0) == Some(shared));
        }
    }
}

/// Taking a post in ends its chain of shares at a root: whatever the
/// store holds, once the post is written as a share of what the rules
/// give (what it says it shares, or the last post of its share tree, or
/// the post that it was written after, or nothing), the chain from it
/// leads to a root exactly where what it is written as a share of led to
/// one without coming by the post; and then every chain that led to a
/// root before still does.
pub proof fn lemma_share_chain_ends_at_root(
    links: Map<u64, Option<u64>>,
    post: PostFromCohost,
    infer_share_post_from_tree: bool,
    maybe_share_of_post: Option<u64>,
    from: u64,
)
    ensures
        ({
            let target = resolved_share_of(post, infer_share_post_from_tree, maybe_share_of_post);
            let after = links.insert(post.post_id, target);
            &&& ends_at_root(after, post.post_id) <==> closes_no_cycle(links, post.post_id, target)
            &&& closes_no_cycle(links, post.post_id, target) && ends_at_root(links, from)
                ==> ends_at_root(after, from)
        }),
{
    let target = resolved_share_of(post, infer_share_post_from_tree, maybe_share_of_post);
    match target {
        Some(shared) => {
            lemma_chain_ends_exactly_where_it_can(links, post.post_id, shared);
        },
        None => {
            lemma_written_post_ends(links, post.post_id, target);
        },
    }
    if closes_no_cycle(links, post.post_id, target) {
        lemma_chains_stay_whole(links, post.post_id, target, from);
    }
}

/// Why nothing can be written for an entity.
#[derive(Debug, Clone, Copy, PartialEq, Eq, Structural)]
pub enum InsertError {
    /// The address of the page of the post is no address.
    InvalidPostUrl,
    /// The handle of the project gives no address.
    InvalidProjectUrl,
}

/// What is written for a post.
#[derive(Debug, Clone, PartialEq, Eq)]
pub struct PostInsertPlan {
    /// The row of the post, which replaces one of the same id.
    pub row: DbPost,
    /// The like to add, as the liking project and the post.
    pub like: Option<(i32, i32)>,
    /// The projects that the post has to do with, each with the post;
    /// they replace those that were there.
    pub related_projects: Vec<(i32, i32)>,
    /// The tags of the post, each with the post and its place among them;
    /// they replace those that were there.
    pub tags: Vec<(i32, String, i32)>,
    /// The addresses of the resources of the post, each with the post;
    /// they replace those that were there.
    pub resources: Vec<(i32, String)>,
}

/// The texts of rows of an id and a text.
pub open spec fn resource_views(rows: Seq<(i32, String)>) -> Seq<(i32, Seq<char>)> {
    rows.map_values(|r: (i32, String)| (r.0, r.1@))
}

/// The rows that say of each address that the entity of the id refers to
/// it.
pub open spec fn resource_rows(id: i32, refs: Seq<Seq<char>>) -> Seq<(i32, Seq<char>)> {
    refs.map_values(|r: Seq<char>| (id, r))
}

fn to_resource_rows(id: i32, refs: Vec<String>) -> (r: Vec<(i32, String)>)
    ensures
        resource_views(r@) == resource_rows(id, string_views(refs@)),
{
    let mut rows: Vec<(i32, String)> = Vec::new();
    let mut i: usize = 0;
    while i < refs.len()
        invariant
            i <= refs.len(),
            rows@.len() == i,
            forall|k: int| 0 <= k < i ==> rows@[k].0 == id && rows@[k].1@ == refs@[k]@,
        decreases refs.len() - i,
    {
        rows.push((id, refs[i].clone()));
        i = i + 1;
    }
    assert(resource_views(rows@) =~= resource_rows(id, string_views(refs@)));
    rows
}

/// What is written for a post, given the data that goes beside its row:
///
/// - the row of the post, with what the post is written as a share of;
/// - a like by the account, where the post is liked;
/// - the projects that the post has to do with;
/// - the tags of the post, in their order;
/// - the resources that the blocks of the post refer to, resolved against
///   the address of the page of the post.
///
/// What the post is a share of, the project that it is of, and the
/// projects that it has to do with have to be there already.
pub fn insert_post_final(
    login_project_id: u64,
    post: &PostFromCohost,
    infer_share_post_from_tree: bool,
    maybe_share_of_post: Option<u64>,
    data: Vec<u8>,
) -> (r: Result<PostInsertPlan, InsertError>)
    ensures
        parsed_url(post.single_post_page_url@) is None ==> r == Err::<PostInsertPlan, InsertError>(
            InsertError::InvalidPostUrl,
        ),
        parsed_url(post.single_post_page_url@) is Some ==> (r matches Ok(plan) && {
            &&& plan.row.id == row_id(post.post_id)
            &&& plan.row.posting_project_id == row_id(post.posting_project.project_id)
            &&& plan.row.published_at == post.published_at
            &&& plan.row.response_to_ask_id == post.response_to_ask_id
            &&& plan.row.share_of_post_id == opt_row_id(
                resolved_share_of(*post, infer_share_post_from_tree, maybe_share_of_post),
            )
            &&& plan.row.is_transparent_share == post.transparent_share_of_post_id.is_some()
            &&& plan.row.filename == post.filename
            &&& plan.row.data == data
            &&& plan.row.data_version == POST_DATA_VERSION
            &&& plan.row.state == post.state.spec_code()
            &&& plan.row.is_adult_content == post.effective_adult_content
            &&& plan.row.is_pinned == post.pinned
            &&& plan.like == (if post.is_liked {
                Some((row_id(login_project_id), row_id(post.post_id)))
            } else {
                None
            })
            &&& plan.related_projects@.len() == post.related_projects@.len()
            &&& forall|i: int|
                0 <= i < post.related_projects@.len() ==> plan.related_projects@[i] == (
                    row_id(post.post_id),
                    row_id(post.related_projects@[i].project_id),
                )
            &&& plan.tags@.len() == post.tags@.len()
            &&& forall|i: int|
                0 <= i < post.tags@.len() ==> {
                    &&& plan.tags@[i].0 == row_id(post.post_id)
                    &&& plan.tags@[i].1@ == post.tags@[i]@
                    &&& plan.tags@[i].2 == i as i32
                }
            &&& resource_views(plan.resources@) == resource_rows(
                row_id(post.post_id),
                with_block_refs(Seq::empty(), post.single_post_page_url@, post.blocks@),
            )
        }),
{
    if parse_url(post.single_post_page_url.as_str()).is_none() {
        return Err(InsertError::InvalidPostUrl);
    }
    let id = to_row_id(post.post_id);
    let refs = post.collect_refs(post.single_post_page_url.as_str());
    let mut row = DbPost::from_post(post, data, POST_DATA_VERSION);
    row.share_of_post_id = to_opt_row_id(
        resolve_share_of(post, infer_share_post_from_tree, maybe_share_of_post),
    );
    let like = if post.is_liked {
        Some((to_row_id(login_project_id), id))
    } else {
        None
    };
    let mut related_projects: Vec<(i32, i32)> = Vec::new();
    let mut i: usize = 0;
    while i < post.related_projects.len()
        invariant
            i <= post.related_projects.len(),
            id == row_id(post.post_id),
            related_projects@.len() == i,
            forall|k: int|
                0 <= k < i ==> related_projects@[k] == (
                    id,
                    row_id(post.related_projects@[k].project_id),
                ),
        decreases post.related_projects.len() - i,
    {
        related_projects.push((id, to_row_id(post.related_projects[i].project_id)));
        i = i + 1;
    }
    let mut tags: Vec<(i32, String, i32)> = Vec::new();
    let mut i: usize = 0;
    while i < post.tags.len()
        invariant
            i <= post.tags.len(),
            id == row_id(post.post_id),
            tags@.len() == i,
            forall|k: int|
                0 <= k < i ==> tags@[k].0 == id && tags@[k].1@ == post.tags@[k]@ && tags@[k].2
                    == k as i32,
        decreases post.tags.len() - i,
    {
        let pos: i32 = #[verifier::truncate]
        (i as i32);
        tags.push((id, post.tags[i].clone(), pos));
        i = i + 1;
    }
    Ok(PostInsertPlan { row, like, related_projects, tags, resources: to_resource_rows(id, refs) })
}

/// What is written for a project.
#[derive(Debug, Clone, PartialEq, Eq)]
pub struct ProjectInsertPlan {
    /// The row of the project, which replaces one of the same id.
    pub row: DbProject,
    /// The addresses of the resources of the project, each with the
    /// project; they replace those that were there.
    pub resources: Vec<(i32, String)>,
}

/// The address of the page of a project, before it is parsed.
pub open spec fn project_base(handle: Seq<char>) -> Seq<char> {
    "https://cohost.org/"@ + handle
}

/// The address of the page of a project, before it is parsed.
pub fn project_page_address(handle: &str) -> (r: String)
    ensures
        r@ == project_base(handle@),
{
    let mut base: Vec<char> = Vec::new();
    push_str(&mut base, "https://cohost.org/");
    push_str(&mut base, handle);
    from_chars(&base)
}

/// What is written for a project, given the data that goes beside its
/// row: the row, and the resources that the project refers to, resolved
/// against the address of its page.
pub fn insert_project(project: &ProjectFromCohost, data: Vec<u8>) -> (r: Result<
    ProjectInsertPlan,
    InsertError,
>)
    ensures
        parsed_url(project_base(project.handle@)) is None ==> r == Err::<
            ProjectInsertPlan,
            InsertError,
        >(InsertError::InvalidProjectUrl),
        parsed_url(project_base(project.handle@)) is Some ==> (r matches Ok(plan) && {
            &&& plan.row.id == row_id(project.project_id)
            &&& plan.row.handle == project.handle
            &&& plan.row.is_private == (project.privacy == ProjectPrivacy::Private)
            &&& plan.row.requires_logged_in == (project.logged_out_post_visibility
                == LoggedOutPostVisibility::Hidden)
            &&& plan.row.data == data
            &&& plan.row.data_version == PROJECT_DATA_VERSION
            &&& resource_views(plan.resources@) == resource_rows(
                row_id(project.project_id),
                project.with_refs_of(Seq::empty(), project_base(project.handle@)),
            )
        }),
{
    let base = project_page_address(project.handle.as_str());
    if parse_url(base.as_str()).is_none() {
        return Err(InsertError::InvalidProjectUrl);
    }
    let refs = project.collect_refs(base.as_str());
    let row = DbProject::from_project(project, data, PROJECT_DATA_VERSION);
    let id = to_row_id(project.project_id);
    Ok(ProjectInsertPlan { row, resources: to_resource_rows(id, refs) })
}

/// What is written for a comment.
#[derive(Debug, Clone, PartialEq, Eq)]
pub struct CommentInsertPlan {
    /// The row of the comment, which replaces one of the same id.
    pub row: DbComment,
    /// The addresses of the resources of the comment; they replace those
    /// that were there.
    pub resources: Vec<String>,
}

/// The address that the references of a comment are resolved against: a
/// page of the post that the comment says it is on.
pub open spec fn comment_base(post_id: u64) -> Seq<char> {
    "https://cohost.org/undefined/post/"@ + decimal(post_id as nat) + "-undefined"@
}

/// What is written for a comment on the given post, given the data that
/// goes beside its row: the row, and the resources that the text of the
/// comment refers to.
pub fn insert_comment(on_post_id: u64, comment: &CommentFromCohost, data: Vec<u8>) -> (r:
    CommentInsertPlan)
    ensures
        r.row.id == comment.comment.comment_id,
        r.row.post_id == row_id(on_post_id),
        r.row.in_reply_to_id == comment.comment.in_reply_to,
        r.row.posting_project_id == (match comment.poster {
            Some(p) => Some(row_id(p.project_id)),
            None => None,
        }),
        r.row.published_at == comment.comment.posted_at_iso,
        r.row.data == data,
        r.row.data_version == COMMENT_DATA_VERSION,
        string_views(r.resources@) == comment.with_refs_of(
            Seq::empty(),
            comment_base(comment.comment.post_id),
        ),
{
    let mut base: Vec<char> = Vec::new();
    push_str(&mut base, "https://cohost.org/undefined/post/");
    push_decimal(&mut base, comment.comment.post_id);
    push_str(&mut base, "-undefined");
    assert(base@ == comment_base(comment.comment.post_id));
    let base = from_chars(&base);
    let resources = comment.collect_refs(base.as_str());
    let row = DbComment::from_comment(on_post_id, comment, data, COMMENT_DATA_VERSION);
    CommentInsertPlan { row, resources }
}

/// The number of comments in a tree of comments.
pub open spec fn tree_size(comment: CommentFromCohost) -> nat
    decreases comment,
{
    1 + forest_size(comment.comment.children@)
}

/// The number of comments in the trees of a list of comments.
pub open spec fn forest_size(comments: Seq<CommentFromCohost>) -> nat
    decreases comments,
{
    if comments.len() == 0 {
        0
    } else {
        forest_size(comments.drop_last()) + tree_size(comments.last())
    }
}

/// The size of two forests together is the sum of their sizes.
pub proof fn lemma_forest_size_concat(a: Seq<CommentFromCohost>, b: Seq<CommentFromCohost>)
    ensures
        forest_size(a + b) == forest_size(a) + forest_size(b),
    decreases b.len(),
{
    if b.len() == 0 {
        assert(a + b == a);
    } else {
        assert((a + b).drop_last() == a + b.drop_last());
        lemma_forest_size_concat(a, b.drop_last());
    }
}

/// The size of a forest is that of its first tree and that of the rest.
pub proof fn lemma_forest_size_first(q: Seq<CommentFromCohost>)
    requires
        q.len() > 0,
    ensures
        forest_size(q) == tree_size(q[0]) + forest_size(q.skip(1)),
{
    assert(q == seq![q[0]] + q.skip(1));
    lemma_forest_size_concat(seq![q[0]], q.skip(1));
    assert(seq![q[0]].drop_last() == Seq::<CommentFromCohost>::empty());
    assert(forest_size(Seq::<CommentFromCohost>::empty()) == 0);
    assert(forest_size(seq![q[0]]) == tree_size(q[0]));
}

/// The comments of the trees of a queue of comments in the order in which
/// they are written: the first of the queue, then what follows from the
/// rest of the queue with the replies to the first put behind it. So a
/// comment comes before the replies to it, and the replies to one comment
/// come before the replies to those.
pub open spec fn breadth_first(queue: Seq<CommentFromCohost>) -> Seq<CommentFromCohost>
    decreases forest_size(queue),
{
    if queue.len() == 0 {
        Seq::empty()
    } else {
        proof {
            lemma_forest_size_first(queue);
            lemma_forest_size_concat(queue.skip(1), queue[0].comment.children@);
        }
        seq![queue[0]] + breadth_first(queue.skip(1) + queue[0].comment.children@)
    }
}

/// The comments that the references lead to.
pub open spec fn targets(comments: Seq<&CommentFromCohost>) -> Seq<CommentFromCohost> {
    comments.map_values(|c: &CommentFromCohost| *c)
}

/// The comments of a tree of comments in the order in which they are
/// written.
pub fn comments_in_order(comment: &CommentFromCohost) -> (r: Vec<&CommentFromCohost>)
    ensures
        targets(r@) == breadth_first(seq![*comment]),
{
    let mut order: Vec<&CommentFromCohost> = Vec::new();
    order.push(comment);
    let mut i: usize = 0;
    assert(targets(order@) == seq![*comment]);
    assert(targets(order@).take(0) + breadth_first(targets(order@).skip(0)) == breadth_first(
        seq![*comment],
    )) by {
        assert(targets(order@).skip(0) == targets(order@));
        assert(targets(order@).take(0) + breadth_first(seq![*comment]) == breadth_first(
            seq![*comment],
        ));
    }
    while i < order.len()
        invariant
            i <= order.len(),
            targets(order@).take(i as int) + breadth_first(targets(order@).skip(i as int))
                == breadth_first(seq![*comment]),
        decreases forest_size(targets(order@).skip(i as int)),
    {
        let current = order[i];
        let ghost queue = targets(order@).skip(i as int);
        let ghost done = targets(order@).take(i as int);
        let ghost before = targets(order@);
        assert(queue[0] == *current);
        proof {
            lemma_forest_size_first(queue);
            lemma_forest_size_concat(queue.skip(1), current.comment.children@);
        }
        let mut k: usize = 0;
        while k < current.comment.children.len()
            invariant
                k <= current.comment.children.len(),
                i < order.len(),
                targets(order@) == before + current.comment.children@.take(k as int),
            decreases current.comment.children.len() - k,
        {
            let ghost so_far = targets(order@);
            order.push(&current.comment.children[k]);
            assert(targets(order@) == so_far.push(current.comment.children@[k as int]));
            assert(current.comment.children@.take(k + 1) == current.comment.children@.take(
                k as int,
            ).push(current.comment.children@[k as int]));
            k = k + 1;
        }
        assert(current.comment.children@.take(current.comment.children.len() as int)
            == current.comment.children@);
        proof {
            let after = targets(order@);
            assert(after == before + current.comment.children@);
            assert(after.skip(i + 1) == queue.skip(1) + current.comment.children@);
            assert(after.take(i + 1) == done + seq![queue[0]]);
            assert((done + seq![queue[0]]) + breadth_first(after.skip(i + 1)) == done + (
            seq![queue[0]] + breadth_first(queue.skip(1) + queue[0].comment.children@)));
        }
        i = i + 1;
    }
    proof {
        let all = targets(order@);
        assert(all.skip(all.len() as int) == Seq::<CommentFromCohost>::empty());
        assert(all.take(all.len() as int) == all);
        assert(all + Seq::<CommentFromCohost>::empty() == all);
    }
    order
}

/// The posts whose comments a post brought with it, in the order of the
/// lists of comments: each is noted as having its comments once they are
/// written.
pub fn posts_with_comments(comments: &Vec<(u64, Vec<CommentFromCohost>)>) -> (r: Vec<u64>)
    ensures
        r@.len() == comments@.len(),
        forall|i: int| 0 <= i < r@.len() ==> r@[i] == comments@[i].0,
{
    let mut posts: Vec<u64> = Vec::new();
    let mut i: usize = 0;
    while i < comments.len()
        invariant
            i <= comments.len(),
            posts@.len() == i,
            forall|k: int| 0 <= k < i ==> posts@[k] == comments@[k].0,
        decreases comments.len() - i,
    {
        posts.push(comments[i].0);
        i = i + 1;
    }
    posts
}

} // verus!
