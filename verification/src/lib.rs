//! Archival model, resource paths and crawl decisions for an offline copy of
//! a social site.

pub mod address;
pub mod comment;
pub mod config;
pub mod context;
pub mod data;
pub mod dl;
pub mod encoding;
pub mod ext;
pub mod feed;
pub mod filepath;
pub mod import_cdl1;
pub mod ingest;
pub mod merge;
pub mod post;
pub mod project;
pub mod render;
pub mod res_ref;
pub mod resource;
pub mod server;
pub mod srcset;
pub mod tags;
pub mod text;
pub mod trpc;
pub mod url_file;
