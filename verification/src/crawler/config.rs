//! What a crawl is asked to do.

use vstd::prelude::*;

use crate::auth::AuthConfig;

verus! {

/// What a crawl is asked to do.
#[derive(Debug)]
pub struct CrawlerConfig {
    pub start_url: String,
    /// How many links away from the start the farthest pages lie that are visited.
    pub max_depth: usize,
    pub concurrency: usize,
    pub headless: bool,
    /// How many milliseconds a page is given to settle.
    pub settle_ms: u64,
    pub auth: AuthConfig,
    /// URL paths that are never visited, with all that lies below them.
    pub skip_paths: Vec<String>,
    /// CSS selector of the part of a page in which links are followed; all of it where
    /// there is none.
    pub link_selector: Option<String>,
}

} // verus!
