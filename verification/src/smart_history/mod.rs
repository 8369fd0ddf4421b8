//! Smart history: command history with typo-tolerant search, frequency
//! counting and ranking by context.
pub mod entry;
pub mod history;
pub mod rank;

pub use entry::HistoryEntry;
pub use history::SmartHistory;
pub use rank::SearchRank;
