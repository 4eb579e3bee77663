//! Settings that the lifecycle reads: where the site is served from and the
//! CSS classes of the index entries.
use vstd::prelude::*;

verus! {

/// Where the generated site is served from.
pub struct Server {
    pub address: [u8; 4],
    pub port: u32,
    pub website_path: String,
}

/// CSS classes of the title and description paragraphs of an index entry.
pub struct Classes {
    pub title_text_main: String,
    pub description_text_main: String,
}

} // verus!
