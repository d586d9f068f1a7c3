//! What goes into the pages that the archive serves: the queries that
//! select posts, the requests to the renderer, and the addresses of
//! resources as the pages name them.

pub mod api_data;
pub mod feed;
pub mod md_render;
pub mod project_profile;
pub mod rewrite;
pub mod single_post;
