use vstd::prelude::*;

verus! {

/// A search result with its ranking score.
#[derive(Debug, Clone)]
pub struct SearchRank {
    /// The matched command
    pub command: String,
    /// Working directory
    pub cwd: String,
    /// Relevance score (higher = better match)
    pub score: u64,
    /// How many times this command was run
    pub frequency: u32,
}

impl SearchRank {
    /// Create a new search result.
    pub fn new(command: String, cwd: String, score: u64, frequency: u32) -> (r: Self)
        ensures
            r.command == command,
            r.cwd == cwd,
            r.score == score,
            r.frequency == frequency,
    {
        SearchRank { command, cwd, score, frequency }
    }
}

} // verus!
