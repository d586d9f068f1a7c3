//! The crawl: what has been loaded so far, what to load next, and where a
//! feed goes on.
//!
//! Nothing here touches the network or the store. Each function takes what
//! was seen and says what to do; whoever runs the crawl does it and comes
//! back with what came of it.

use crate::address::{parse_url, parsed_url, ResourceUrl};
use crate::config::Config;
use crate::feed::PaginationMode;
use crate::project::ProjectFromCohost;
use crate::resource::contains_text;
use crate::text::{from_chars, push_str, same_text, string_views, to_chars};
use std::collections::{HashMap, HashSet};
use vstd::prelude::*;

verus! {

broadcast use vstd::std_specs::hash::group_hash_axioms;

/// The version of the record of the crawl that is written and read.
pub const STATE_VERSION: u64 = 1;

/// The number of resources that are fetched side by side.
pub const RESOURCE_LOAD_BATCH_SIZE: u64 = 5;

/// How far the crawl has come. It is written down beside the store, so
/// that a crawl that was cut short goes on where it stopped.
#[derive(Debug)]
pub struct CurrentStateV1 {
    /// The projects whose liked posts are all there.
    pub has_likes: HashSet<u64>,
    /// The projects whose follows are all there.
    pub has_follows: HashSet<u64>,
    /// What is there of each project, under its id.
    pub projects: HashMap<u64, ProjectState>,
    /// The addresses of the resources that are not tried again.
    pub failed_urls: Vec<String>,
    /// What is there of each tag, under the tag; no tag occurs twice.
    pub tagged_posts: Vec<(String, TaggedPostsState)>,
    /// The posts whose comments can no longer be had.
    pub comments_lost_to_time: HashSet<u64>,
}

/// What is there of a project.
#[derive(Debug)]
pub struct ProjectState {
    pub has_all_posts: bool,
    /// The posts of the project whose comments are there.
    pub has_comments: HashSet<u64>,
}

/// What is there of the posts of a tag.
#[derive(Debug, Clone, Copy, PartialEq, Eq)]
pub struct TaggedPostsState {
    pub has_all_posts: bool,
    /// Where the feed of the tag goes on: the time that the feed is read
    /// as of, and the number of posts that have been passed.
    pub has_up_to: Option<(u64, u64)>,
}

/// Why a record of the crawl cannot be used.
#[derive(Debug, Clone, Copy, PartialEq, Eq)]
pub enum StateError {
    /// The record is of a version that is not known.
    UnknownVersion(u64),
}

/// Whether a record of the given version can be read: only one of the
/// current version can.
pub fn check_state_version(version: u64) -> (r: Result<(), StateError>)
    ensures
        version == STATE_VERSION ==> r == Ok::<(), StateError>(()),
        version != STATE_VERSION ==> r == Err::<(), StateError>(
            StateError::UnknownVersion(version),
        ),
{
    if version == STATE_VERSION {
        Ok(())
    } else {
        Err(StateError::UnknownVersion(version))
    }
}

/// The position of the entry of a tag, or the number of entries where
/// there is none.
pub open spec fn tag_index(entries: Seq<(String, TaggedPostsState)>, tag: Seq<char>) -> int
    decreases entries.len(),
{
    if entries.len() == 0 || entries[0].0@ == tag {
        0
    } else {
        1 + tag_index(entries.skip(1), tag)
    }
}

/// The place of a tag among the entries is that of the first entry of the
/// tag, or the number of the entries where none is of it.
pub proof fn lemma_tag_index(entries: Seq<(String, TaggedPostsState)>, tag: Seq<char>)
    ensures
        0 <= tag_index(entries, tag) <= entries.len(),
        tag_index(entries, tag) < entries.len() ==> entries[tag_index(entries, tag)].0@ == tag,
        forall|k: int| 0 <= k < tag_index(entries, tag) ==> entries[k].0@ != tag,
    decreases entries.len(),
{
    if entries.len() == 0 || entries[0].0@ == tag {
    } else {
        lemma_tag_index(entries.skip(1), tag);
        assert forall|k: int| 0 <= k < tag_index(entries, tag) implies entries[k].0@ != tag by {
            if k > 0 {
                assert(entries.skip(1)[k - 1] == entries[k]);
            }
        }
    }
}

impl ProjectState {
    /// Nothing of a project.
    pub fn new() -> (r: Self)
        ensures
            !r.has_all_posts,
            r.has_comments@ == Set::<u64>::empty(),
    {
        ProjectState { has_all_posts: false, has_comments: HashSet::new() }
    }
}

impl TaggedPostsState {
    /// Nothing of a tag.
    pub fn new() -> (r: Self)
        ensures
            r == (TaggedPostsState { has_all_posts: false, has_up_to: None }),
    {
        TaggedPostsState { has_all_posts: false, has_up_to: None }
    }
}

impl CurrentStateV1 {
    /// The record of a crawl that has not begun.
    pub fn new() -> (r: Self)
        ensures
            r.has_likes@ == Set::<u64>::empty(),
            r.has_follows@ == Set::<u64>::empty(),
            r.projects@ == Map::<u64, ProjectState>::empty(),
            r.failed_urls@.len() == 0,
            r.tagged_posts@.len() == 0,
            r.comments_lost_to_time@ == Set::<u64>::empty(),
    {
        CurrentStateV1 {
            has_likes: HashSet::new(),
            has_follows: HashSet::new(),
            projects: HashMap::new(),
            failed_urls: Vec::new(),
            tagged_posts: Vec::new(),
            comments_lost_to_time: HashSet::new(),
        }
    }

    /// Whether all posts of the project are there.
    pub open spec fn spec_has_all_posts(&self, project: u64) -> bool {
        self.projects@.contains_key(project) && self.projects@[project].has_all_posts
    }

    /// Whether the comments of the post of the project are there.
    pub open spec fn spec_has_comments(&self, project: u64, post: u64) -> bool {
        self.projects@.contains_key(project) && self.projects@[project].has_comments@.contains(
            post,
        )
    }

    /// What is there of the posts of a tag: nothing where the record does
    /// not know the tag.
    pub open spec fn spec_tagged(&self, tag: Seq<char>) -> TaggedPostsState {
        let i = tag_index(self.tagged_posts@, tag);
        if i < self.tagged_posts@.len() {
            self.tagged_posts@[i].1
        } else {
            TaggedPostsState { has_all_posts: false, has_up_to: None }
        }
    }

    /// Whether the address is one of those that are not tried again.
    pub open spec fn spec_has_failed(&self, url: Seq<char>) -> bool {
        string_views(self.failed_urls@).contains(url)
    }

    /// Whether all posts of the project are there.
    pub fn has_all_posts(&self, project: u64) -> (r: bool)
        ensures
            r == self.spec_has_all_posts(project),
    {
        match self.projects.get(&project) {
            Some(p) => p.has_all_posts,
            None => false,
        }
    }

    /// Whether the comments of the post of the project are there.
    pub fn has_comments(&self, project: u64, post: u64) -> (r: bool)
        ensures
            r == self.spec_has_comments(project, post),
    {
        match self.projects.get(&project) {
            Some(p) => p.has_comments.contains(&post),
            None => false,
        }
    }

    /// Notes that all posts of the project are there. Nothing changes
    /// for any other project, nor anything else.
    pub fn set_has_all_posts(&mut self, project: u64)
        ensures
            final(self).spec_has_all_posts(project),
            forall|p: u64|
                p != project ==> final(self).spec_has_all_posts(p) == old(self).spec_has_all_posts(
                    p,
                ),
            forall|p: u64, q: u64|
                final(self).spec_has_comments(p, q) == old(self).spec_has_comments(p, q),
            final(self).has_likes == old(self).has_likes,
            final(self).has_follows == old(self).has_follows,
            final(self).failed_urls == old(self).failed_urls,
            final(self).tagged_posts == old(self).tagged_posts,
            final(self).comments_lost_to_time == old(self).comments_lost_to_time,
    {
        let mut entry = match self.projects.remove(&project) {
            Some(e) => e,
            None => ProjectState::new(),
        };
        entry.has_all_posts = true;
        self.projects.insert(project, entry);
    }

    /// Notes that the comments of the post of the project are there.
    /// Nothing else changes.
    pub fn set_has_comments(&mut self, project: u64, post: u64)
        ensures
            final(self).spec_has_comments(project, post),
            forall|p: u64, q: u64|
                old(self).spec_has_comments(p, q) ==> final(self).spec_has_comments(p, q),
            forall|p: u64, q: u64|
                final(self).spec_has_comments(p, q) ==> old(self).spec_has_comments(p, q) || (p
                    == project && q == post),
            forall|p: u64| final(self).spec_has_all_posts(p) == old(self).spec_has_all_posts(p),
            final(self).has_likes == old(self).has_likes,
            final(self).has_follows == old(self).has_follows,
            final(self).failed_urls == old(self).failed_urls,
            final(self).tagged_posts == old(self).tagged_posts,
            final(self).comments_lost_to_time == old(self).comments_lost_to_time,
    {
        let mut entry = match self.projects.remove(&project) {
            Some(e) => e,
            None => ProjectState::new(),
        };
        entry.has_comments.insert(post);
        self.projects.insert(project, entry);
    }

    /// Whether the address is one of those that are not tried again.
    pub fn has_failed(&self, url: &str) -> (r: bool)
        ensures
            r == self.spec_has_failed(url@),
    {
        let chars = to_chars(url);
        contains_text(&self.failed_urls, &chars)
    }

    /// Notes that the address is not to be tried again: the list of such
    /// addresses is as it was, with the address behind it. Nothing else
    /// changes.
    pub fn add_failed_url(&mut self, url: &str)
        ensures
            string_views(final(self).failed_urls@) == string_views(old(self).failed_urls@).push(
                url@,
            ),
            final(self).has_likes == old(self).has_likes,
            final(self).has_follows == old(self).has_follows,
            final(self).projects == old(self).projects,
            final(self).tagged_posts == old(self).tagged_posts,
            final(self).comments_lost_to_time == old(self).comments_lost_to_time,
    {
        let ghost before = string_views(self.failed_urls@);
        let text = url.to_owned();
        self.failed_urls.push(text);
        assert(string_views(self.failed_urls@) == before.push(url@));
    }

    /// Notes that the projects that the account follows are there.
    /// Nothing else changes.
    pub fn set_has_follows(&mut self, account: u64)
        ensures
            final(self).has_follows@ == old(self).has_follows@.insert(account),
            final(self).has_likes == old(self).has_likes,
            final(self).projects == old(self).projects,
            final(self).failed_urls == old(self).failed_urls,
            final(self).tagged_posts == old(self).tagged_posts,
            final(self).comments_lost_to_time == old(self).comments_lost_to_time,
    {
        self.has_follows.insert(account);
    }

    /// Notes that the posts that the account likes are there. Nothing
    /// else changes.
    pub fn set_has_likes(&mut self, account: u64)
        ensures
            final(self).has_likes@ == old(self).has_likes@.insert(account),
            final(self).has_follows == old(self).has_follows,
            final(self).projects == old(self).projects,
            final(self).failed_urls == old(self).failed_urls,
            final(self).tagged_posts == old(self).tagged_posts,
            final(self).comments_lost_to_time == old(self).comments_lost_to_time,
    {
        self.has_likes.insert(account);
    }

    /// Notes that the comments of the post are lost: nothing that shows
    /// them could be found. Nothing else changes.
    pub fn set_comments_lost(&mut self, post: u64)
        ensures
            final(self).comments_lost_to_time@ == old(self).comments_lost_to_time@.insert(post),
            final(self).has_likes == old(self).has_likes,
            final(self).has_follows == old(self).has_follows,
            final(self).projects == old(self).projects,
            final(self).failed_urls == old(self).failed_urls,
            final(self).tagged_posts == old(self).tagged_posts,
    {
        self.comments_lost_to_time.insert(post);
    }

    fn find_tag(&self, tag: &str) -> (r: usize)
        ensures
            r == tag_index(self.tagged_posts@, tag@),
            r <= self.tagged_posts@.len(),
    {
        let mut i: usize = 0;
        proof {
            lemma_tag_index(self.tagged_posts@, tag@);
        }
        while i < self.tagged_posts.len()
            invariant
                i <= self.tagged_posts@.len(),
                forall|k: int| 0 <= k < i ==> self.tagged_posts@[k].0@ != tag@,
                0 <= tag_index(self.tagged_posts@, tag@) <= self.tagged_posts@.len(),
                tag_index(self.tagged_posts@, tag@) < self.tagged_posts@.len()
                    ==> self.tagged_posts@[tag_index(self.tagged_posts@, tag@)].0@ == tag@,
                forall|k: int|
                    0 <= k < tag_index(self.tagged_posts@, tag@) ==> self.tagged_posts@[k].0@
                        != tag@,
            decreases self.tagged_posts.len() - i,
        {
            if same_text(self.tagged_posts[i].0.as_str(), tag) {
                return i;
            }
            i = i + 1;
        }
        i
    }

    /// What is there of the posts of a tag.
    pub fn tagged(&self, tag: &str) -> (r: TaggedPostsState)
        ensures
            r == self.spec_tagged(tag@),
    {
        let i = self.find_tag(tag);
        if i < self.tagged_posts.len() {
            self.tagged_posts[i].1
        } else {
            TaggedPostsState::new()
        }
    }

    /// Notes what is there of the posts of a tag. Nothing is changed of
    /// any other tag, nor of anything else.
    pub fn set_tagged(&mut self, tag: &str, state: TaggedPostsState)
        ensures
            final(self).spec_tagged(tag@) == state,
            forall|t: Seq<char>| t != tag@ ==> final(self).spec_tagged(t) == old(self).spec_tagged(t),
            final(self).has_likes == old(self).has_likes,
            final(self).has_follows == old(self).has_follows,
            final(self).projects == old(self).projects,
            final(self).failed_urls == old(self).failed_urls,
            final(self).comments_lost_to_time == old(self).comments_lost_to_time,
    {
        let i = self.find_tag(tag);
        let ghost before = self.tagged_posts@;
        proof {
            lemma_tag_index(before, tag@);
        }
        if i < self.tagged_posts.len() {
            let name = self.tagged_posts[i].0.clone();
            self.tagged_posts.set(i, (name, state));
        } else {
            self.tagged_posts.push((tag.to_owned(), state));
        }
        proof {
            let after = self.tagged_posts@;
            assert(after.len() >= before.len());
            assert(after[i as int].0@ == tag@);
            assert(forall|k: int| 0 <= k < after.len() && k != i ==> after[k] == before[k]);
            lemma_tag_index_is(after, tag@, i as int);
            assert forall|t: Seq<char>| t != tag@ implies final(self).spec_tagged(t) == old(self).spec_tagged(t) by {
                lemma_tag_index(before, t);
                let j = tag_index(before, t);
                if j < before.len() {
                    lemma_tag_index_is(after, t, j);
                } else {
                    lemma_tag_index_is(after, t, after.len() as int);
                }
            }
        }
    }
}

/// The entry of a tag is the first that bears it.
pub proof fn lemma_tag_index_is(entries: Seq<(String, TaggedPostsState)>, tag: Seq<char>, n: int)
    requires
        0 <= n <= entries.len(),
        forall|k: int| 0 <= k < n ==> entries[k].0@ != tag,
        n < entries.len() ==> entries[n].0@ == tag,
    ensures
        tag_index(entries, tag) == n,
{
    lemma_tag_index(entries, tag);
}

/// A part of the crawl.
#[derive(Debug, Clone, PartialEq, Eq)]
pub enum WorkUnit {
    /// The projects that the account follows.
    Follows,
    /// The posts that the account likes.
    Likes,
    /// The posts of the project of the given handle.
    ProfilePosts(String),
    /// The posts of every project that is followed.
    Dashboard,
    /// The posts that bear the given tag.
    TaggedPosts(String),
    /// The comments on the posts that are there.
    Comments,
    /// Another look at the shares that do not say what they share.
    FixTransparentShares,
    /// The files whose paths are not what they are meant to be.
    MigrateResourcePaths,
    /// The files of the site itself.
    StaticResources,
    /// The files that posts refer to.
    PostResources,
    /// The files that projects refer to.
    ProjectResources,
    /// The files that comments refer to.
    CommentResources,
}

/// The views of a list of work units: each as a number for its kind, with
/// the handle or tag where it has one.
pub open spec fn unit_view(unit: WorkUnit) -> (int, Seq<char>) {
    match unit {
        WorkUnit::Follows => (0, Seq::empty()),
        WorkUnit::Likes => (1, Seq::empty()),
        WorkUnit::ProfilePosts(handle) => (2, handle@),
        WorkUnit::Dashboard => (3, Seq::empty()),
        WorkUnit::TaggedPosts(tag) => (4, tag@),
        WorkUnit::Comments => (5, Seq::empty()),
        WorkUnit::FixTransparentShares => (6, Seq::empty()),
        WorkUnit::MigrateResourcePaths => (7, Seq::empty()),
        WorkUnit::StaticResources => (8, Seq::empty()),
        WorkUnit::PostResources => (9, Seq::empty()),
        WorkUnit::ProjectResources => (10, Seq::empty()),
        WorkUnit::CommentResources => (11, Seq::empty()),
    }
}

/// Work units as plain values.
pub open spec fn unit_views(units: Seq<WorkUnit>) -> Seq<(int, Seq<char>)> {
    units.map_values(|u: WorkUnit| unit_view(u))
}

/// One unit where the condition holds, and none otherwise.
pub open spec fn unit_if(condition: bool, kind: int) -> Seq<(int, Seq<char>)> {
    if condition {
        seq![(kind, Seq::<char>::empty())]
    } else {
        Seq::empty()
    }
}

/// A unit of the given kind for each text.
pub open spec fn units_of(kind: int, texts: Seq<Seq<char>>) -> Seq<(int, Seq<char>)> {
    texts.map_values(|t: Seq<char>| (kind, t))
}

/// The tags of which not all posts are there, each at the first place
/// where it is listed: a tag that is listed again is not loaded again.
pub open spec fn open_tags(state: CurrentStateV1, tags: Seq<Seq<char>>) -> Seq<Seq<char>>
    decreases tags.len(),
{
    if tags.len() == 0 {
        Seq::empty()
    } else if state.spec_tagged(tags.last()).has_all_posts || tags.drop_last().contains(
        tags.last(),
    ) {
        open_tags(state, tags.drop_last())
    } else {
        open_tags(state, tags.drop_last()).push(tags.last())
    }
}

/// Whether the text at a place of a list stands at an earlier place too.
fn listed_before(texts: &Vec<String>, at: usize) -> (r: bool)
    requires
        at < texts.len(),
    ensures
        r == string_views(texts@).take(at as int).contains(texts@[at as int]@),
{
    let ghost front = string_views(texts@).take(at as int);
    let mut k: usize = 0;
    while k < at
        invariant
            k <= at < texts.len(),
            front == string_views(texts@).take(at as int),
            forall|j: int| 0 <= j < k ==> front[j] != texts@[at as int]@,
        decreases at - k,
    {
        assert(front[k as int] == texts@[k as int]@);
        if crate::text::same_text(texts[k].as_str(), texts[at].as_str()) {
            return true;
        }
        k = k + 1;
    }
    false
}

/// The parts of the crawl that the configuration asks for, in the order
/// in which they are done: follows and likes of the account, unless they
/// are there; the posts of the projects that are named; the dashboard;
/// the posts of the tags that are named, unless they are all there;
/// comments; another look at transparent shares; and the files, those of
/// the site always, those of posts, projects and comments as asked.
pub open spec fn planned_units(config: Config, state: CurrentStateV1, account: u64) -> Seq<
    (int, Seq<char>),
> {
    unit_if(!state.has_follows@.contains(account), 0) + unit_if(
        !state.has_likes@.contains(account) && config.load_likes,
        1,
    ) + units_of(2, string_views(config.load_profile_posts@)) + unit_if(config.load_dashboard, 3)
        + units_of(4, open_tags(state, string_views(config.load_tagged_posts@))) + unit_if(
        config.load_comments,
        5,
    ) + unit_if(config.try_fix_transparent_shares, 6) + unit_if(true, 7) + unit_if(true, 8)
        + unit_if(config.load_post_resources, 9) + unit_if(config.load_project_resources, 10)
        + unit_if(config.load_comment_resources, 11)
}

fn push_unit_if(units: &mut Vec<WorkUnit>, condition: bool, unit: WorkUnit)
    requires
        unit_view(unit).1.len() == 0,
    ensures
        unit_views(final(units)@) == unit_views(old(units)@) + unit_if(condition, unit_view(unit).0),
{
    let ghost before = unit_views(units@);
    if condition {
        assert(unit_view(unit).1 =~= Seq::<char>::empty());
        assert(unit_view(unit) == (unit_view(unit).0, Seq::<char>::empty()));
        units.push(unit);
        assert(unit_views(units@) == before + seq![unit_view(unit)]);
    } else {
        assert(before + Seq::<(int, Seq<char>)>::empty() == before);
    }
}

/// The parts of the crawl that the configuration asks for, in order.
pub fn work_units(config: &Config, state: &CurrentStateV1, account: u64) -> (r: Vec<WorkUnit>)
    ensures
        unit_views(r@) == planned_units(*config, *state, account),
{
    let mut units: Vec<WorkUnit> = Vec::new();
    assert(unit_views(units@) == Seq::<(int, Seq<char>)>::empty());
    push_unit_if(&mut units, !state.has_follows.contains(&account), WorkUnit::Follows);
    push_unit_if(
        &mut units,
        !state.has_likes.contains(&account) && config.load_likes,
        WorkUnit::Likes,
    );
    let ghost head = unit_views(units@);
    let mut i: usize = 0;
    assert(units_of(2, string_views(config.load_profile_posts@).take(0)) == Seq::<
        (int, Seq<char>),
    >::empty());
    while i < config.load_profile_posts.len()
        invariant
            i <= config.load_profile_posts.len(),
            unit_views(units@) == head + units_of(
                2,
                string_views(config.load_profile_posts@).take(i as int),
            ),
        decreases config.load_profile_posts.len() - i,
    {
        let ghost before = unit_views(units@);
        let handle = config.load_profile_posts[i].clone();
        units.push(WorkUnit::ProfilePosts(handle));
        assert(unit_views(units@) == before.push((2int, config.load_profile_posts@[i as int]@)));
        assert(units_of(2, string_views(config.load_profile_posts@).take(i + 1)) == units_of(
            2,
            string_views(config.load_profile_posts@).take(i as int),
        ).push((2int, config.load_profile_posts@[i as int]@)));
        i = i + 1;
    }
    assert(string_views(config.load_profile_posts@).take(config.load_profile_posts.len() as int)
        == string_views(config.load_profile_posts@));
    push_unit_if(&mut units, config.load_dashboard, WorkUnit::Dashboard);
    let ghost head = unit_views(units@);
    let mut i: usize = 0;
    assert(string_views(config.load_tagged_posts@).take(0) == Seq::<Seq<char>>::empty());
    assert(units_of(4, Seq::<Seq<char>>::empty()) == Seq::<(int, Seq<char>)>::empty());
    while i < config.load_tagged_posts.len()
        invariant
            i <= config.load_tagged_posts.len(),
            unit_views(units@) == head + units_of(
                4,
                open_tags(*state, string_views(config.load_tagged_posts@).take(i as int)),
            ),
        decreases config.load_tagged_posts.len() - i,
    {
        let ghost before = unit_views(units@);
        let ghost front = string_views(config.load_tagged_posts@).take(i as int);
        let ghost next = string_views(config.load_tagged_posts@).take(i + 1);
        assert(next.drop_last() == front);
        assert(next.last() == config.load_tagged_posts@[i as int]@);
        if !state.tagged(config.load_tagged_posts[i].as_str()).has_all_posts && !listed_before(
            &config.load_tagged_posts,
            i,
        ) {
            let tag = config.load_tagged_posts[i].clone();
            units.push(WorkUnit::TaggedPosts(tag));
            assert(unit_views(units@) == before.push((4int, config.load_tagged_posts@[i as int]@)));
            assert(units_of(4, open_tags(*state, next)) == units_of(
                4,
                open_tags(*state, front),
            ).push((4int, config.load_tagged_posts@[i as int]@)));
        }
        i = i + 1;
    }
    assert(string_views(config.load_tagged_posts@).take(config.load_tagged_posts.len() as int)
        == string_views(config.load_tagged_posts@));
    push_unit_if(&mut units, config.load_comments, WorkUnit::Comments);
    push_unit_if(&mut units, config.try_fix_transparent_shares, WorkUnit::FixTransparentShares);
    push_unit_if(&mut units, true, WorkUnit::MigrateResourcePaths);
    push_unit_if(&mut units, true, WorkUnit::StaticResources);
    push_unit_if(&mut units, config.load_post_resources, WorkUnit::PostResources);
    push_unit_if(&mut units, config.load_project_resources, WorkUnit::ProjectResources);
    push_unit_if(&mut units, config.load_comment_resources, WorkUnit::CommentResources);
    units
}

/// How the posts of a project are gone through.
#[derive(Debug, Clone, Copy, PartialEq, Eq, Structural)]
pub enum SweepMode {
    /// Every page, until one comes back empty.
    All,
    /// Until a post that is known and not pinned.
    NewOnly,
}

/// Whether the posts of a project are gone through, and how: all of them
/// where not all are there; only the new ones where all are there and the
/// configuration asks for new posts; and not at all otherwise.
pub fn sweep_mode(has_all_posts: bool, load_new_posts: bool) -> (r: Option<SweepMode>)
    ensures
        r == (if !has_all_posts {
            Some(SweepMode::All)
        } else if load_new_posts {
            Some(SweepMode::NewOnly)
        } else {
            None
        }),
{
    if !has_all_posts {
        Some(SweepMode::All)
    } else if load_new_posts {
        Some(SweepMode::NewOnly)
    } else {
        None
    }
}

/// What is done with a post of a page of a project.
#[derive(Debug, Clone, Copy, PartialEq, Eq, Structural)]
pub enum PostAction {
    /// The post is taken in.
    Ingest,
    /// The post is passed over, and the next is looked at.
    Skip,
    /// The project is done.
    Stop,
}

/// What is done with a post of a page of a project: where only new posts
/// are looked for, a post that is known ends the sweep, unless it is
/// pinned, for new posts may follow the pinned ones; a pinned post that is
/// known is passed over. Every other post is taken in.
pub fn profile_post_action(mode: SweepMode, known: bool, pinned: bool) -> (r: PostAction)
    ensures
        r == (if mode == SweepMode::NewOnly && known {
            if pinned {
                PostAction::Skip
            } else {
                PostAction::Stop
            }
        } else {
            PostAction::Ingest
        }),
{
    match mode {
        SweepMode::NewOnly => {
            if known {
                if pinned {
                    PostAction::Skip
                } else {
                    PostAction::Stop
                }
            } else {
                PostAction::Ingest
            }
        },
        SweepMode::All => PostAction::Ingest,
    }
}

/// Where the reading of a feed stands: the time that the feed is read as
/// of, once the first page has named it, and the number of posts to pass
/// over.
#[derive(Debug, Clone, Copy, PartialEq, Eq, Structural)]
pub struct FeedCursor {
    pub ref_timestamp: Option<u64>,
    pub skip_posts: u64,
}

/// What a page of a feed leaves the reader with.
#[derive(Debug, Clone, Copy, PartialEq, Eq, Structural)]
pub struct PageOutcome {
    /// Where the next page is asked for.
    pub cursor: FeedCursor,
    /// Whether there is a next page to ask for.
    pub more: bool,
}

impl FeedCursor {
    /// Where a feed is read from, given where an earlier reading stopped:
    /// there, and at the beginning where there was none.
    pub open spec fn spec_start(saved: Option<(u64, u64)>) -> FeedCursor {
        match saved {
            Some(at) => FeedCursor { ref_timestamp: Some(at.0), skip_posts: at.1 },
            None => FeedCursor { ref_timestamp: None, skip_posts: 0 },
        }
    }

    /// What to write down so that a later reading goes on from here;
    /// nothing before the first page.
    pub open spec fn spec_checkpoint(self) -> Option<(u64, u64)> {
        match self.ref_timestamp {
            Some(t) => Some((t, self.skip_posts)),
            None => None,
        }
    }

    /// Where a feed is read from, given where an earlier reading stopped.
    pub fn start(saved: Option<(u64, u64)>) -> (r: FeedCursor)
        ensures
            r == Self::spec_start(saved),
    {
        match saved {
            Some(at) => FeedCursor { ref_timestamp: Some(at.0), skip_posts: at.1 },
            None => FeedCursor { ref_timestamp: None, skip_posts: 0 },
        }
    }

    /// What to write down so that a later reading goes on from here.
    pub fn checkpoint(&self) -> (r: Option<(u64, u64)>)
        ensures
            r == self.spec_checkpoint(),
    {
        match self.ref_timestamp {
            Some(t) => Some((t, self.skip_posts)),
            None => None,
        }
    }

    /// Where the reading stands after a page: the page's stride further
    /// on, as of the time that the page names. There is a next page where
    /// the page says so and, if `stop_on_empty` is set, held a post. The
    /// result is `None` where the stride leads beyond what a `u64` holds.
    pub open spec fn spec_after_page(
        self,
        pagination: PaginationMode,
        posts_on_page: usize,
        stop_on_empty: bool,
    ) -> Option<PageOutcome> {
        if self.skip_posts + pagination.ideal_page_stride > u64::MAX {
            None
        } else {
            Some(
                PageOutcome {
                    cursor: FeedCursor {
                        ref_timestamp: Some(pagination.ref_timestamp),
                        skip_posts: (self.skip_posts + pagination.ideal_page_stride) as u64,
                    },
                    more: pagination.more_pages_forward && !(stop_on_empty && posts_on_page == 0),
                },
            )
        }
    }

    /// Where the reading stands after a page.
    pub fn after_page(
        &self,
        pagination: &PaginationMode,
        posts_on_page: usize,
        stop_on_empty: bool,
    ) -> (r: Option<PageOutcome>)
        ensures
            r == self.spec_after_page(*pagination, posts_on_page, stop_on_empty),
    {
        match self.skip_posts.checked_add(pagination.ideal_page_stride) {
            Some(skip_posts) => Some(
                PageOutcome {
                    cursor: FeedCursor {
                        ref_timestamp: Some(pagination.ref_timestamp),
                        skip_posts,
                    },
                    more: pagination.more_pages_forward && !(stop_on_empty && posts_on_page == 0),
                },
            ),
            None => None,
        }
    }
}

impl CurrentStateV1 {
    /// Notes that a page of the feed of a tag has arrived. Where the
    /// reading goes on is written down at once, before the posts of the
    /// page are taken in: a reading that is cut short while it takes in
    /// the page goes on at the next page boundary, and asks for no page
    /// a second time. The reading ends where a page holds no post or says
    /// that none follows. Nothing is noted where the stride of the page
    /// leads beyond what a `u64` holds.
    pub fn tagged_page_arrived(
        &mut self,
        tag: &str,
        cursor: &FeedCursor,
        pagination: &PaginationMode,
        posts_on_page: usize,
    ) -> (r: Option<PageOutcome>)
        ensures
            r == cursor.spec_after_page(*pagination, posts_on_page, true),
            r is None ==> *final(self) == *old(self),
            r matches Some(outcome) ==> final(self).spec_tagged(tag@) == (TaggedPostsState {
                has_all_posts: false,
                has_up_to: outcome.cursor.spec_checkpoint(),
            }),
            forall|t: Seq<char>| t != tag@ ==> final(self).spec_tagged(t) == old(self).spec_tagged(t),
            final(self).has_likes == old(self).has_likes,
            final(self).has_follows == old(self).has_follows,
            final(self).projects == old(self).projects,
            final(self).failed_urls == old(self).failed_urls,
            final(self).comments_lost_to_time == old(self).comments_lost_to_time,
    {
        match cursor.after_page(pagination, posts_on_page, true) {
            Some(outcome) => {
                self.set_tagged(
                    tag,
                    TaggedPostsState { has_all_posts: false, has_up_to: outcome.cursor.checkpoint() },
                );
                Some(outcome)
            },
            None => None,
        }
    }

    /// Notes that all posts of a tag are there. Where the reading stood
    /// stays written down.
    pub fn tagged_feed_done(&mut self, tag: &str)
        ensures
            final(self).spec_tagged(tag@) == (TaggedPostsState {
                has_all_posts: true,
                has_up_to: old(self).spec_tagged(tag@).has_up_to,
            }),
            forall|t: Seq<char>| t != tag@ ==> final(self).spec_tagged(t) == old(self).spec_tagged(t),
            final(self).has_likes == old(self).has_likes,
            final(self).has_follows == old(self).has_follows,
            final(self).projects == old(self).projects,
            final(self).failed_urls == old(self).failed_urls,
            final(self).comments_lost_to_time == old(self).comments_lost_to_time,
    {
        let has_up_to = self.tagged(tag).has_up_to;
        self.set_tagged(tag, TaggedPostsState { has_all_posts: true, has_up_to });
    }
}

/// Whether the comments of a post of a project are still to be loaded:
/// they are not there, and they are not known to be lost.
pub open spec fn wants_comments(state: CurrentStateV1, project: u64, post: u64) -> bool {
    !state.spec_has_comments(project, post) && !state.comments_lost_to_time@.contains(post)
}

/// The posts among the given pairs of project and post whose comments are
/// still to be loaded, in order.
pub open spec fn posts_wanting_comments(state: CurrentStateV1, posts: Seq<(u64, u64)>) -> Seq<u64>
    decreases posts.len(),
{
    if posts.len() == 0 {
        Seq::empty()
    } else if wants_comments(state, posts.last().0, posts.last().1) {
        posts_wanting_comments(state, posts.drop_last()).push(posts.last().1)
    } else {
        posts_wanting_comments(state, posts.drop_last())
    }
}

/// The posts among the given pairs of project and post whose comments are
/// still to be loaded.
pub fn posts_without_comments(state: &CurrentStateV1, posts: &Vec<(u64, u64)>) -> (r: Vec<u64>)
    ensures
        r@ == posts_wanting_comments(*state, posts@),
{
    let mut out: Vec<u64> = Vec::new();
    let mut i: usize = 0;
    assert(posts@.take(0) == Seq::<(u64, u64)>::empty());
    while i < posts.len()
        invariant
            i <= posts.len(),
            out@ == posts_wanting_comments(*state, posts@.take(i as int)),
        decreases posts.len() - i,
    {
        assert(posts@.take(i + 1).drop_last() == posts@.take(i as int));
        let (project, post) = posts[i];
        if !state.has_comments(project, post) && !state.comments_lost_to_time.contains(&post) {
            out.push(post);
        }
        i = i + 1;
    }
    assert(posts@.take(posts.len() as int) == posts@);
    out
}

/// The number of batches that so many resources are fetched in.
pub fn batch_count(total: u64) -> (r: u64)
    ensures
        r == (total + RESOURCE_LOAD_BATCH_SIZE - 1) / (RESOURCE_LOAD_BATCH_SIZE as int),
{
    total / RESOURCE_LOAD_BATCH_SIZE + (if total % RESOURCE_LOAD_BATCH_SIZE == 0 {
        0
    } else {
        1
    })
}

/// The number of resources that come before a batch.
pub fn batch_offset(batch: u64, total: u64) -> (r: u64)
    requires
        batch * RESOURCE_LOAD_BATCH_SIZE <= total,
    ensures
        r == batch * RESOURCE_LOAD_BATCH_SIZE,
{
    batch * RESOURCE_LOAD_BATCH_SIZE
}

/// The addresses of a batch that are loaded, and whether that is the
/// whole batch: the texts are read as addresses in order, and the first
/// that is none ends the batch there. The addresses before it are still
/// loaded.
pub fn batch_addresses(texts: &Vec<String>) -> (r: (Vec<ResourceUrl>, bool))
    ensures
        r.0@.len() <= texts@.len(),
        forall|i: int| 0 <= i < r.0@.len() ==> parsed_url(texts@[i]@) == Some(r.0@[i]@),
        r.1 == (r.0@.len() == texts@.len()),
        !r.1 ==> parsed_url(texts@[r.0@.len() as int]@) is None,
{
    let mut addresses: Vec<ResourceUrl> = Vec::new();
    let mut i: usize = 0;
    while i < texts.len()
        invariant
            i <= texts.len(),
            addresses@.len() == i,
            forall|k: int| 0 <= k < i ==> parsed_url(texts@[k]@) == Some(addresses@[k]@),
        decreases texts.len() - i,
    {
        match parse_url(texts[i].as_str()) {
            Some(address) => {
                addresses.push(address);
            },
            None => {
                return (addresses, false);
            },
        }
        i = i + 1;
    }
    (addresses, true)
}

/// The ids stand in rising order.
pub open spec fn is_sorted(ids: Seq<u64>) -> bool {
    forall|i: int, j: int| 0 <= i <= j < ids.len() ==> ids[i] <= ids[j]
}

/// `<[u64]>::sort`: the same ids, in rising order.
#[verifier::external_body]
fn sort_ids(ids: &mut Vec<u64>)
    ensures
        is_sorted(final(ids)@),
        final(ids)@.to_multiset() == old(ids)@.to_multiset(),
{
    ids.sort()
}

/// The loading of comments, post by post.
///
/// A post whose page is gone may still have its comments shown on the
/// page of a post that shares it. So where the page of a post is not
/// found, the posts that share it are tried in its place, and theirs in
/// turn; what they yield belongs to the post that the search began with.
#[derive(Debug)]
pub struct CommentSweep {
    /// The posts that are still to be tried; the last is tried next.
    pub posts: Vec<u64>,
    /// For each post that is tried in place of another, that other.
    pub share_map: HashMap<u64, u64>,
    /// For each post in whose place others are tried, those of them that
    /// are still to be tried.
    pub rev_share_map: HashMap<u64, HashSet<u64>>,
}

/// A post whose page is to be asked for.
#[derive(Debug, Clone, Copy, PartialEq, Eq, Structural)]
pub struct SweepItem {
    /// The post whose page is asked for.
    pub post: u64,
    /// The post whose comments are looked for.
    pub for_post: u64,
    /// Whether no other post is left to try in its place.
    pub is_last: bool,
}

impl CommentSweep {
    /// The post that a post is tried for: itself, unless it stands in the
    /// place of another.
    pub open spec fn spec_for_post(&self, post: u64) -> u64 {
        if self.share_map@.contains_key(post) {
            self.share_map@[post]
        } else {
            post
        }
    }

    /// The posts that are still to be tried in place of a post.
    pub open spec fn spec_pending(&self, post: u64) -> Set<u64> {
        if self.rev_share_map@.contains_key(post) {
            self.rev_share_map@[post]@
        } else {
            Set::empty()
        }
    }

    /// A sweep over the given posts. They are tried from the highest id
    /// down: a later share may show the comments of an earlier post.
    pub fn new(posts: Vec<u64>) -> (r: Self)
        ensures
            is_sorted(r.posts@),
            r.posts@.to_multiset() == posts@.to_multiset(),
            r.share_map@ == Map::<u64, u64>::empty(),
            r.rev_share_map@ == Map::<u64, HashSet<u64>>::empty(),
    {
        let mut posts = posts;
        sort_ids(&mut posts);
        CommentSweep { posts, share_map: HashMap::new(), rev_share_map: HashMap::new() }
    }

    /// The post to try next, or `None` once none is left. The post is
    /// taken off the posts to try, and off those that are tried in place
    /// of the post that it is tried for.
    pub fn next(&mut self) -> (r: Option<SweepItem>)
        ensures
            old(self).posts@.len() == 0 ==> {
                &&& r is None
                &&& final(self).posts@ == old(self).posts@
                &&& final(self).share_map == old(self).share_map
                &&& final(self).rev_share_map == old(self).rev_share_map
            },
            old(self).posts@.len() > 0 ==> {
                let post = old(self).posts@.last();
                let for_post = old(self).spec_for_post(post);
                &&& r == Some(
                    SweepItem {
                        post,
                        for_post,
                        is_last: old(self).spec_pending(for_post).remove(post) == Set::<
                            u64,
                        >::empty(),
                    },
                )
                &&& final(self).posts@ == old(self).posts@.drop_last()
                &&& final(self).share_map == old(self).share_map
                &&& final(self).spec_pending(for_post) == old(self).spec_pending(for_post).remove(
                    post,
                )
                &&& forall|p: u64|
                    p != for_post ==> final(self).spec_pending(p) == old(self).spec_pending(p)
            },
    {
        let post = match self.posts.pop() {
            Some(p) => p,
            None => {
                return None;
            },
        };
        let for_post = match self.share_map.get(&post) {
            Some(shared) => *shared,
            None => post,
        };
        let is_last = match self.rev_share_map.remove(&for_post) {
            Some(pending) => {
                let mut pending = pending;
                pending.remove(&post);
                let empty = pending.is_empty();
                assert(empty == (pending@ =~= Set::<u64>::empty()));
                self.rev_share_map.insert(for_post, pending);
                empty
            },
            None => {
                assert(old(self).spec_pending(for_post).remove(post) =~= Set::<u64>::empty());
                true
            },
        };
        Some(SweepItem { post, for_post, is_last })
    }

    /// Takes note that the page of a post was not found, given the posts
    /// that share the post. Where there are none, the result says whether
    /// the comments that were looked for are lost: they are where no other
    /// post is left to try. Otherwise each of the shares is put on the
    /// posts to try, in place of the post that the search began with.
    pub fn on_not_found(&mut self, item: SweepItem, shares: &Vec<u64>) -> (lost: bool)
        ensures
            shares@.len() == 0 ==> lost == item.is_last && *final(self) == *old(self),
            shares@.len() > 0 ==> {
                &&& !lost
                &&& final(self).posts@ == old(self).posts@ + shares@
                &&& forall|p: u64|
                    shares@.contains(p) ==> final(self).spec_for_post(p) == item.for_post
                &&& forall|p: u64|
                    !shares@.contains(p) ==> final(self).spec_for_post(p) == old(self).spec_for_post(p)
                &&& final(self).spec_pending(item.for_post) == old(self).spec_pending(
                    item.for_post,
                ).union(shares@.to_set())
                &&& forall|p: u64|
                    p != item.for_post ==> final(self).spec_pending(p) == old(self).spec_pending(
                        p,
                    )
            },
    {
        if shares.len() == 0 {
            return item.is_last;
        }
        let mut pending = match self.rev_share_map.remove(&item.for_post) {
            Some(p) => p,
            None => HashSet::new(),
        };
        let ghost before = pending@;
        assert(before == old(self).spec_pending(item.for_post));
        let mut i: usize = 0;
        assert(shares@.take(0) == Seq::<u64>::empty());
        assert(before.union(Seq::<u64>::empty().to_set()) =~= before);
        assert(self.posts@ + shares@.take(0) == self.posts@);
        while i < shares.len()
            invariant
                i <= shares.len(),
                self.posts@ == old(self).posts@ + shares@.take(i as int),
                pending@ == before.union(shares@.take(i as int).to_set()),
                self.rev_share_map@ == old(self).rev_share_map@.remove(item.for_post),
                forall|p: u64|
                    shares@.take(i as int).contains(p) ==> self.spec_for_post(p) == item.for_post,
                forall|p: u64|
                    !shares@.take(i as int).contains(p) ==> self.spec_for_post(p) == old(self).spec_for_post(p),
            decreases shares.len() - i,
        {
            let share = shares[i];
            let ghost front = shares@.take(i as int);
            let ghost next = shares@.take(i + 1);
            assert(next == front.push(share));
            assert(next.to_set() =~= front.to_set().insert(share)) by {
                assert forall|x: u64| next.to_set().contains(x) == front.to_set().insert(
                    share,
                ).contains(x) by {
                    if next.contains(x) {
                        let k = choose|k: int| 0 <= k < next.len() && next[k] == x;
                        if k < front.len() {
                            assert(front[k] == x);
                        }
                    }
                    if front.contains(x) {
                        let k = choose|k: int| 0 <= k < front.len() && front[k] == x;
                        assert(next[k] == x);
                    }
                    assert(next[front.len() as int] == share);
                }
            }
            assert forall|p: u64| next.contains(p) == (front.contains(p) || p == share) by {
                assert(next.to_set().contains(p) == next.contains(p));
                assert(front.to_set().contains(p) == front.contains(p));
            }
            let ghost map_before = self.share_map@;
            let ghost before_self = *self;
            self.share_map.insert(share, item.for_post);
            pending.insert(share);
            self.posts.push(share);
            assert(self.share_map@ == map_before.insert(share, item.for_post));
            assert forall|p: u64| next.contains(p) implies self.spec_for_post(p)
                == item.for_post by {
                if p != share {
                    assert(front.contains(p));
                    assert(before_self.spec_for_post(p) == item.for_post);
                    assert(self.share_map@.contains_key(p) == map_before.contains_key(p));
                } else {
                    assert(self.share_map@.contains_key(share));
                    assert(self.share_map@[share] == item.for_post);
                }
            }
            assert forall|p: u64| !next.contains(p) implies self.spec_for_post(p) == old(self).spec_for_post(p) by {
                assert(!front.contains(p) && p != share);
                assert(before_self.spec_for_post(p) == old(self).spec_for_post(p));
            }
            assert(old(self).posts@ + front.push(share) == (old(self).posts@ + front).push(share));
            assert(pending@ =~= before.union(next.to_set()));
            i = i + 1;
        }
        assert(shares@.take(shares.len() as int) == shares@);
        let ghost after_loop = *self;
        assert forall|p: u64| shares@.contains(p) implies after_loop.spec_for_post(p)
            == item.for_post by {
            assert(shares@.take(shares.len() as int).contains(p));
        }
        self.rev_share_map.insert(item.for_post, pending);
        assert(self.share_map@ == after_loop.share_map@);
        assert forall|p: u64| shares@.contains(p) implies self.spec_for_post(p)
            == item.for_post by {
            assert(after_loop.spec_for_post(p) == item.for_post);
        }
        assert(self.rev_share_map@ == old(self).rev_share_map@.remove(item.for_post).insert(
            item.for_post,
            pending,
        ));
        assert(self.spec_pending(item.for_post) == pending@);
        assert forall|p: u64| p != item.for_post implies self.spec_pending(p) == old(self).spec_pending(p) by {
            assert(self.rev_share_map@.contains_key(p) == old(self).rev_share_map@.contains_key(p));
        }
        false
    }
}

/// The search for a post through which a share that does not say what it
/// shares can be loaded anew: the posts that share it, and theirs in turn.
#[derive(Debug)]
pub struct RepairSearch {
    /// The posts that are still to be tried; the last is tried next.
    pub shares: Vec<u64>,
}

impl RepairSearch {
    /// A search that begins with the posts that share the post.
    pub fn new(shares: Vec<u64>) -> (r: Self)
        ensures
            r.shares == shares,
    {
        RepairSearch { shares }
    }

    /// The post to try next, or `None` once none is left.
    pub fn next(&mut self) -> (r: Option<u64>)
        ensures
            old(self).shares@.len() == 0 ==> r is None && final(self).shares@ == old(self).shares@,
            old(self).shares@.len() > 0 ==> r == Some(old(self).shares@.last()) && final(self).shares@ == old(self).shares@.drop_last(),
    {
        self.shares.pop()
    }

    /// Takes note that the page of a post was not found, given the posts
    /// that share the post: they are tried next.
    pub fn on_not_found(&mut self, share_shares: Vec<u64>)
        ensures
            final(self).shares@ == old(self).shares@ + share_shares@,
    {
        let mut more = share_shares;
        self.shares.append(&mut more);
    }
}

/// Whether a share that did not say what it shares does so now.
pub fn is_share_fixed(is_transparent_share: bool, share_of_post_id: Option<i32>) -> (r: bool)
    ensures
        r == (is_transparent_share && share_of_post_id is Some),
{
    is_transparent_share && share_of_post_id.is_some()
}

/// The position of the first project of the given id, or the number of
/// projects where there is none.
pub open spec fn project_index(projects: Seq<ProjectFromCohost>, project_id: u64) -> int
    decreases projects.len(),
{
    if projects.len() == 0 || projects[0].project_id == project_id {
        0
    } else {
        1 + project_index(projects.skip(1), project_id)
    }
}

/// How the project that the account acts as is named to the user: `@`
/// and its handle, and `(error)` where it is not among the projects of
/// the account.
pub open spec fn handle_shown(projects: Seq<ProjectFromCohost>, project_id: u64) -> Seq<char> {
    let i = project_index(projects, project_id);
    if 0 <= i < projects.len() {
        seq!['@'] + projects[i].handle@
    } else {
        "(error)"@
    }
}

/// How the project that the account acts as is named to the user.
pub fn current_handle(projects: &Vec<ProjectFromCohost>, project_id: u64) -> (r: String)
    ensures
        r@ == handle_shown(projects@, project_id),
{
    let mut i: usize = 0;
    assert(projects@.skip(0) == projects@);
    while i < projects.len()
        invariant
            i <= projects.len(),
            project_index(projects@, project_id) == i + project_index(
                projects@.skip(i as int),
                project_id,
            ),
        decreases projects.len() - i,
    {
        assert(projects@.skip(i as int)[0] == projects@[i as int]);
        assert(projects@.skip(i as int).skip(1) == projects@.skip(i + 1));
        if projects[i].project_id == project_id {
            let mut out: Vec<char> = Vec::new();
            out.push('@');
            push_str(&mut out, projects[i].handle.as_str());
            return from_chars(&out);
        }
        i = i + 1;
    }
    "(error)".to_owned()
}

/// No tag is among the open tags twice.
pub proof fn lemma_open_tags_are_distinct(state: CurrentStateV1, tags: Seq<Seq<char>>)
    ensures
        open_tags(state, tags).no_duplicates(),
        forall|tag: Seq<char>| open_tags(state, tags).contains(tag) ==> tags.contains(tag),
    decreases tags.len(),
{
    if tags.len() > 0 {
        let front = open_tags(state, tags.drop_last());
        lemma_open_tags_are_distinct(state, tags.drop_last());
        assert forall|tag: Seq<char>| open_tags(state, tags).contains(tag) implies tags.contains(
            tag,
        ) by {
            let all = open_tags(state, tags);
            let i = choose|i: int| 0 <= i < all.len() && all[i] == tag;
            if i < front.len() {
                assert(front[i] == tag);
                assert(front.contains(tag));
                assert(tags.drop_last().contains(tag));
                let j = choose|j: int| 0 <= j < tags.drop_last().len() && tags.drop_last()[j] == tag;
                assert(tags[j] == tag);
            } else {
                assert(tags[tags.len() - 1] == tag);
            }
        }
        if !(state.spec_tagged(tags.last()).has_all_posts || tags.drop_last().contains(
            tags.last(),
        )) {
            assert(!front.contains(tags.last()));
            assert forall|i: int, j: int|
                0 <= i < front.push(tags.last()).len() && 0 <= j < front.push(tags.last()).len()
                    && i != j implies front.push(tags.last())[i] != front.push(tags.last())[j] by {
                if i < front.len() && j < front.len() {
                } else if i < front.len() {
                    assert(front.contains(front[i]));
                } else {
                    assert(front.contains(front[j]));
                }
            }
        }
    }
}

/// A tag of which all posts are there is none of the open tags.
proof fn lemma_finished_tag_is_not_open(state: CurrentStateV1, tags: Seq<Seq<char>>, tag: Seq<char>)
    requires
        state.spec_tagged(tag).has_all_posts,
    ensures
        !open_tags(state, tags).contains(tag),
    decreases tags.len(),
{
    if tags.len() > 0 {
        lemma_finished_tag_is_not_open(state, tags.drop_last(), tag);
        let front = open_tags(state, tags.drop_last());
        let all = open_tags(state, tags);
        if all.contains(tag) {
            let i = choose|i: int| 0 <= i < all.len() && all[i] == tag;
            if i < front.len() {
                assert(front[i] == tag);
            }
        }
    }
}

/// What is in two lists put together is in one of them.
proof fn lemma_contains_either(a: Seq<(int, Seq<char>)>, b: Seq<(int, Seq<char>)>, x: (int, Seq<char>))
    ensures
        (a + b).contains(x) == (a.contains(x) || b.contains(x)),
{
    if a.contains(x) {
        let i = choose|i: int| 0 <= i < a.len() && a[i] == x;
        assert((a + b)[i] == x);
    }
    if b.contains(x) {
        let i = choose|i: int| 0 <= i < b.len() && b[i] == x;
        assert((a + b)[a.len() + i] == x);
    }
    if (a + b).contains(x) {
        let i = choose|i: int| 0 <= i < (a + b).len() && (a + b)[i] == x;
        if i < a.len() {
            assert(a[i] == x);
        } else {
            assert(b[i - a.len()] == x);
        }
    }
}

/// A unit of a kind without a text is planned where its condition holds.
proof fn lemma_unit_if_contains(condition: bool, kind: int, x: (int, Seq<char>))
    ensures
        unit_if(condition, kind).contains(x) == (condition && x == (kind, Seq::<char>::empty())),
{
    if condition {
        assert(unit_if(condition, kind)[0] == (kind, Seq::<char>::empty()));
    }
}

/// A unit of a kind with a text is planned where the text is listed.
proof fn lemma_units_of_contains(kind: int, texts: Seq<Seq<char>>, x: (int, Seq<char>))
    ensures
        units_of(kind, texts).contains(x) == (x.0 == kind && texts.contains(x.1)),
{
    if units_of(kind, texts).contains(x) {
        let i = choose|i: int| 0 <= i < units_of(kind, texts).len() && units_of(kind, texts)[i] == x;
        assert(texts[i] == x.1);
    }
    if x.0 == kind && texts.contains(x.1) {
        let i = choose|i: int| 0 <= i < texts.len() && texts[i] == x.1;
        assert(units_of(kind, texts)[i] == x);
    }
}

/// Whether a part of the crawl is planned.
pub open spec fn is_planned(
    config: Config,
    state: CurrentStateV1,
    account: u64,
    unit: (int, Seq<char>),
) -> bool {
    let plain = unit.1 == Seq::<char>::empty();
    ||| unit.0 == 0 && plain && !state.has_follows@.contains(account)
    ||| unit.0 == 1 && plain && !state.has_likes@.contains(account) && config.load_likes
    ||| unit.0 == 2 && string_views(config.load_profile_posts@).contains(unit.1)
    ||| unit.0 == 3 && plain && config.load_dashboard
    ||| unit.0 == 4 && open_tags(state, string_views(config.load_tagged_posts@)).contains(unit.1)
    ||| unit.0 == 5 && plain && config.load_comments
    ||| unit.0 == 6 && plain && config.try_fix_transparent_shares
    ||| unit.0 == 7 && plain
    ||| unit.0 == 8 && plain
    ||| unit.0 == 9 && plain && config.load_post_resources
    ||| unit.0 == 10 && plain && config.load_project_resources
    ||| unit.0 == 11 && plain && config.load_comment_resources
}

/// The plan holds the parts that are planned, and no others.
pub proof fn lemma_plan_holds_what_is_planned(
    config: Config,
    state: CurrentStateV1,
    account: u64,
    unit: (int, Seq<char>),
)
    ensures
        planned_units(config, state, account).contains(unit) == is_planned(
            config,
            state,
            account,
            unit,
        ),
{
    let follows = unit_if(!state.has_follows@.contains(account), 0);
    let likes = unit_if(!state.has_likes@.contains(account) && config.load_likes, 1);
    let profiles = units_of(2, string_views(config.load_profile_posts@));
    let dashboard = unit_if(config.load_dashboard, 3);
    let tags = units_of(4, open_tags(state, string_views(config.load_tagged_posts@)));
    let comments = unit_if(config.load_comments, 5);
    let repairs = unit_if(config.try_fix_transparent_shares, 6);
    let moves = unit_if(true, 7);
    let site_files = unit_if(true, 8);
    let post_files = unit_if(config.load_post_resources, 9);
    let project_files = unit_if(config.load_project_resources, 10);
    let comment_files = unit_if(config.load_comment_resources, 11);
    lemma_unit_if_contains(!state.has_follows@.contains(account), 0, unit);
    lemma_unit_if_contains(!state.has_likes@.contains(account) && config.load_likes, 1, unit);
    lemma_units_of_contains(2, string_views(config.load_profile_posts@), unit);
    lemma_unit_if_contains(config.load_dashboard, 3, unit);
    lemma_units_of_contains(4, open_tags(state, string_views(config.load_tagged_posts@)), unit);
    lemma_unit_if_contains(config.load_comments, 5, unit);
    lemma_unit_if_contains(config.try_fix_transparent_shares, 6, unit);
    lemma_unit_if_contains(true, 7, unit);
    lemma_unit_if_contains(true, 8, unit);
    lemma_unit_if_contains(config.load_post_resources, 9, unit);
    lemma_unit_if_contains(config.load_project_resources, 10, unit);
    lemma_unit_if_contains(config.load_comment_resources, 11, unit);
    let s1 = follows + likes;
    let s2 = s1 + profiles;
    let s3 = s2 + dashboard;
    let s4 = s3 + tags;
    let s5 = s4 + comments;
    let s6 = s5 + repairs;
    let s7 = s6 + moves;
    let s8 = s7 + site_files;
    let s9 = s8 + post_files;
    let s10 = s9 + project_files;
    lemma_contains_either(follows, likes, unit);
    lemma_contains_either(s1, profiles, unit);
    lemma_contains_either(s2, dashboard, unit);
    lemma_contains_either(s3, tags, unit);
    lemma_contains_either(s4, comments, unit);
    lemma_contains_either(s5, repairs, unit);
    lemma_contains_either(s6, moves, unit);
    lemma_contains_either(s7, site_files, unit);
    lemma_contains_either(s8, post_files, unit);
    lemma_contains_either(s9, project_files, unit);
    lemma_contains_either(s10, comment_files, unit);
    assert(planned_units(config, state, account) == s10 + comment_files);
}

/// What is finished is not begun again: the follows and the likes of an
/// account are not planned once the record says that they are there, nor
/// are the posts of a tag once it says that all of them are there.
pub proof fn lemma_finished_parts_are_not_planned(
    config: Config,
    state: CurrentStateV1,
    account: u64,
    tag: String,
)
    ensures
        state.has_follows@.contains(account) ==> !planned_units(config, state, account).contains(
            unit_view(WorkUnit::Follows),
        ),
        state.has_likes@.contains(account) ==> !planned_units(config, state, account).contains(
            unit_view(WorkUnit::Likes),
        ),
        state.spec_tagged(tag@).has_all_posts ==> !planned_units(config, state, account).contains(
            unit_view(WorkUnit::TaggedPosts(tag)),
        ),
{
    lemma_plan_holds_what_is_planned(config, state, account, unit_view(WorkUnit::Follows));
    lemma_plan_holds_what_is_planned(config, state, account, unit_view(WorkUnit::Likes));
    lemma_plan_holds_what_is_planned(config, state, account, unit_view(WorkUnit::TaggedPosts(tag)));
    if state.spec_tagged(tag@).has_all_posts {
        lemma_finished_tag_is_not_open(state, string_views(config.load_tagged_posts@), tag@);
    }
}

/// Only the address that is given up joins those that are not tried
/// again: once it is added, an address is among them exactly if it was
/// before or is the address that was added.
pub proof fn lemma_only_the_failed_address_joins(
    failed: Seq<Seq<char>>,
    url: Seq<char>,
    other: Seq<char>,
)
    ensures
        failed.push(url).contains(other) == (failed.contains(other) || other == url),
{
    let after = failed.push(url);
    if failed.contains(other) {
        let i = choose|i: int| 0 <= i < failed.len() && failed[i] == other;
        assert(after[i] == other);
    }
    if other == url {
        assert(after[failed.len() as int] == other);
    }
    if after.contains(other) {
        let i = choose|i: int| 0 <= i < after.len() && after[i] == other;
        if i < failed.len() {
            assert(failed[i] == other);
        }
    }
}

/// A reading that is cut short after a page has arrived goes on behind
/// that page: what was written down when the page arrived leads to the
/// place behind it, which lies the stride of the page further on than the
/// page itself, as of the time that the page named. So no place before
/// the next page boundary is asked for again.
pub proof fn lemma_restart_goes_on_behind_the_page(
    cursor: FeedCursor,
    pagination: PaginationMode,
    posts_on_page: usize,
    stop_on_empty: bool,
)
    ensures
        cursor.spec_after_page(pagination, posts_on_page, stop_on_empty) matches Some(outcome) ==> {
            let resumed = FeedCursor::spec_start(outcome.cursor.spec_checkpoint());
            &&& resumed == outcome.cursor
            &&& resumed.skip_posts == cursor.skip_posts + pagination.ideal_page_stride
            &&& resumed.skip_posts >= cursor.skip_posts
            &&& resumed.ref_timestamp == Some(pagination.ref_timestamp)
        },
{
}

/// A reading that was cut short goes on where it stopped: what is written
/// down after a page leads back to where the reading stood, and from
/// there to the same next page and no post before it.
pub proof fn lemma_cursor_resumes(cursor: FeedCursor)
    requires
        cursor.ref_timestamp is Some,
    ensures
        FeedCursor::spec_start(cursor.spec_checkpoint()) == cursor,
{
}

} // verus!
