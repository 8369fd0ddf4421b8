//! AI core: deciding when to step in, building prompts and reading replies.
pub mod decision;
pub mod prompt;
pub mod engine;

pub use decision::AiDecision;
pub use prompt::PromptBuilder;
pub use engine::{AiEngine, AiSuggestion};


