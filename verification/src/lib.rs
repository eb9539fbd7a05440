//! Finds video files that lack a matching subtitle, derives a web search
//! query from each filename, parses a subtitle site's result pages, and
//! extracts the subtitle payload from a downloaded archive.
//!
//! The modules hold the pure pipeline stages; fetching pages over the
//! network and walking the filesystem are left to the embedding program,
//! which feeds the fetched text and bytes back into these functions.

pub mod normalize;
pub mod paths;
pub mod provider;
pub mod search;
pub mod subscene;
pub mod text;
pub mod utils;
pub mod video;
