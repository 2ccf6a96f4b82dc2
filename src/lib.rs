//! Search coordination and aggregation for a local file-search engine.
//!
//! The library holds the verified core: the result model, the search
//! options, the coordinator's bookkeeping for each search, the per-entry
//! decisions of the name walk, the content scan of one file's bytes, and the
//! aggregator that turns worker messages into interim and final results.
//! Threads, channels and filesystem access are left to the caller.

pub mod aggregator;
pub mod fileinfo;
pub mod manager;
pub mod matching;
pub mod options;
pub mod scan;
pub mod search;
pub mod sort;
pub mod text;
pub mod walk;

pub use aggregator::{Aggregator, FinalResults, Message, SearchResult, Step};
pub use fileinfo::{FileInfo, Match};
pub use manager::{Manager, SearchPlan};
pub use matching::{ContentMatcher, NameMatcher};
pub use options::{ContentOptions, FTypes, NameOptions, Options, Sort};
pub use scan::ContentFileInfoResults;
pub use search::Search;
pub use walk::{decide_entry, entry_with_contents, extension_of, Entry, EntryDecision};
