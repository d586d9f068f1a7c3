//! What the user asks the archive to do.

use crate::resource::contains_text;
use crate::text::{string_views, to_chars};
use vstd::prelude::*;

verus! {

/// The number of seconds after which a request is given up where the
/// configuration names none.
pub const DEFAULT_REQUEST_TIMEOUT_SECS: u64 = 120;

/// The configuration of the archive.
#[derive(Debug, Clone, PartialEq, Eq)]
pub struct Config {
    /// Where the store is kept.
    pub database: String,
    /// The session that requests to the site are made in.
    pub cookie: String,
    pub request_timeout_secs: Option<u64>,
    /// The root of the files on disk.
    pub root_dir: String,
    /// Domains that nothing is fetched from.
    pub do_not_fetch_domains: Vec<String>,
    pub load_dashboard: bool,
    pub load_likes: bool,
    /// Handles of the projects whose posts are loaded.
    pub load_profile_posts: Vec<String>,
    /// Tags whose posts are loaded.
    pub load_tagged_posts: Vec<String>,
    /// Addresses of single posts that are loaded.
    pub load_specific_posts: Vec<String>,
    /// Handles of followed projects that the dashboard leaves out.
    pub skip_follows: Vec<String>,
    /// Whether projects whose posts are all there are looked at again for
    /// new ones.
    pub load_new_posts: bool,
    pub load_comments: bool,
    pub try_fix_transparent_shares: bool,
    pub load_post_resources: bool,
    pub load_project_resources: bool,
    pub load_comment_resources: bool,
    pub server_port: u16,
}

impl Config {
    /// The number of seconds after which a request is given up.
    pub fn request_timeout(&self) -> (r: u64)
        ensures
            r == (match self.request_timeout_secs {
                Some(secs) => secs,
                None => DEFAULT_REQUEST_TIMEOUT_SECS,
            }),
    {
        match self.request_timeout_secs {
            Some(secs) => secs,
            None => DEFAULT_REQUEST_TIMEOUT_SECS,
        }
    }

    /// Whether the dashboard leaves out the followed project of this handle.
    pub fn skips_follow(&self, handle: &str) -> (r: bool)
        ensures
            r == string_views(self.skip_follows@).contains(handle@),
    {
        let chars = to_chars(handle);
        contains_text(&self.skip_follows, &chars)
    }
}

} // verus!
