//! The command-line surface, as plain data: the surrounding binary parses
//! arguments into this shape and hands it to the pipeline.

use vstd::prelude::*;

verus! {

/// The parsed command line.
pub struct Cli {
    /// The selected subcommand, if any.
    pub command: Option<Commands>,
}

/// The two ways to obtain the log IDs to fetch.
pub enum Commands {
    /// Parse files of newline-delimited log IDs.
    Parse {
        /// Files to parse.
        files: Vec<String>,
    },
    /// Search the service for logs, then fetch what the search lists.
    Search {
        /// Title text search; under two characters is rejected.
        title: Option<String>,
        /// Exact name of a map.
        map: Option<String>,
        /// Uploader, as a numeric 64-bit Steam ID.
        uploader: Option<u64>,
        /// One or more players, as numeric 64-bit Steam IDs.
        players: Option<Vec<u64>>,
        /// Limit on the number of results.
        limit: Option<u32>,
        /// Offset into the results.
        offset: Option<u32>,
    },
}

} // verus!
