use vstd::prelude::*;

verus! {

/// A decision made by the AI engine on whether to intercept.
#[derive(Debug, Clone, PartialEq)]
pub struct AiDecision {
    /// Whether the AI should intercept and offer help
    pub should_intercept: bool,
    /// Reason for interception (e.g., "command_failed", "command_not_found")
    pub reason: &'static str,
    /// Priority of the suggestion (higher = more urgent)
    pub suggestion_priority: u8,
}

impl AiDecision {
    /// A decision to not intercept.
    pub fn no_intercept() -> (r: Self)
        ensures
            !r.should_intercept,
            r.reason@ == ""@,
            r.suggestion_priority == 0,
    {
        AiDecision { should_intercept: false, reason: "", suggestion_priority: 0 }
    }

    /// A decision to intercept with the given reason and priority.
    pub fn intercept(reason: &'static str, priority: u8) -> (r: Self)
        ensures
            r.should_intercept,
            r.reason@ == reason@,
            r.suggestion_priority == priority,
    {
        AiDecision { should_intercept: true, reason, suggestion_priority: priority }
    }
}

} // verus!
