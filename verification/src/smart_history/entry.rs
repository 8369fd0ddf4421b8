use vstd::prelude::*;
use crate::clock::unix_now_secs;
use crate::fuzzy::{some_word_within_one_edit, some_word_within_one_edit_chars};
use crate::text::{lowercase, seq_contains, string_of, to_chars, to_lowercase, contains_chars};

verus! {

/// A single command history entry with metadata.
#[derive(Debug, Clone)]
pub struct HistoryEntry {
    /// The command that was executed
    pub command: String,
    /// Working directory where the command was executed
    pub cwd: String,
    /// Exit code of the command
    pub exit_code: i32,
    /// Timestamp when the command was executed
    pub timestamp: u64,
    /// How many times this exact command was run
    pub frequency: u32,
}

/// `query` matches `command`, ignoring case: it occurs in the command, or one
/// of its words is at most one typo away from a word of the command.
pub open spec fn fuzzy_match(command: Seq<char>, query: Seq<char>) -> bool {
    seq_contains(lowercase(command), lowercase(query)) || some_word_within_one_edit(
        lowercase(command),
        lowercase(query),
    )
}

impl HistoryEntry {
    /// Create a new entry, run once, stamped with the current time.
    pub fn new(command: &str, cwd: &str, exit_code: i32) -> (r: Self)
        ensures
            r.command@ == command@,
            r.cwd@ == cwd@,
            r.exit_code == exit_code,
            r.frequency == 1,
    {
        let timestamp = unix_now_secs();
        HistoryEntry { command: string_of(command), cwd: string_of(cwd), exit_code, timestamp, frequency: 1 }
    }

    /// Whether this entry matches a search query (typo-tolerant).
    pub fn matches(&self, query: &str) -> (r: bool)
        ensures
            r == fuzzy_match(self.command@, query@),
    {
        let c = to_lowercase(self.command.as_str());
        let q = to_lowercase(query);
        let cv = to_chars(c.as_str());
        let qv = to_chars(q.as_str());
        contains_chars(&cv, &qv) || some_word_within_one_edit_chars(&cv, &qv)
    }

    /// Count one more run of this command.
    pub fn increment_frequency(&mut self)
        requires
            old(self).frequency < u32::MAX,
        ensures
            final(self).frequency == old(self).frequency + 1,
            final(self).command == old(self).command,
            final(self).cwd == old(self).cwd,
            final(self).exit_code == old(self).exit_code,
            final(self).timestamp == old(self).timestamp,
    {
        self.frequency = self.frequency + 1;
    }
}

} // verus!
