//! Starship integration layer.
//!
//! Exports the shell variables as `SHELLAI_*` environment variables that
//! Starship can read.
use vstd::prelude::*;
use crate::shell_core::types::StringMap;
use crate::text::{string_of, to_uppercase, uppercase};

verus! {

/// The prefix of every exported variable.
pub const SHELLAI_PREFIX: &'static str = "SHELLAI_";

/// Exports the shell variables as environment variables: each key becomes
/// `SHELLAI_` followed by the key in upper case, with its value unchanged.
pub fn export_context(context: &StringMap) -> (r: Vec<(String, String)>)
    ensures
        r.len() == context@.len(),
        forall|i: int|
            0 <= i < r.len() ==> (#[trigger] r@[i]).0@ == SHELLAI_PREFIX@ + uppercase(context@[i].0)
                && r@[i].1@ == context@[i].1,
{
    let mut r: Vec<(String, String)> = Vec::new();
    let mut i: usize = 0;
    while i < context.len()
        invariant
            i <= context@.len(),
            r.len() == i,
            forall|j: int|
                0 <= j < i ==> (#[trigger] r@[j]).0@ == SHELLAI_PREFIX@ + uppercase(context@[j].0)
                    && r@[j].1@ == context@[j].1,
        decreases context@.len() - i,
    {
        let (k, v) = context.pair(i);
        let mut key = string_of(SHELLAI_PREFIX);
        key.append(to_uppercase(k.as_str()).as_str());
        r.push((key, v.clone()));
        i = i + 1;
    }
    r
}

} // verus!
