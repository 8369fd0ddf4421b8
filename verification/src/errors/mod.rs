//! Error type of the Shally framework and its user-facing messages.
use vstd::prelude::*;
use crate::text::string_of;

verus! {

#[verifier::external_type_specification]
#[verifier::external_body]
pub struct ExIoError(std::io::Error);

/// Centralized error type for the Shally framework.
#[derive(Debug)]
pub enum ShallyError {
    ConfigNotFound(String),
    ConfigParseError(String),
    IoError(std::io::Error),
    NetworkError(String),
    PluginError(String),
    HookError(String),
    HistoryError(String),
    AiError(String),
}

/// Result type alias for Shally operations.
pub type ShallyResult<T> = Result<T, ShallyError>;

/// The text `std::io::Error`'s `Display` impl gives. The message comes from
/// the operating system, so nothing is stated about it.
#[verifier::external_body]
fn io_error_text(e: &std::io::Error) -> String {
    e.to_string()
}

/// The message prefix of each error kind.
pub open spec fn error_prefix(e: ShallyError) -> Seq<char> {
    match e {
        ShallyError::ConfigNotFound(_) => "Configuration file not found: "@,
        ShallyError::ConfigParseError(_) => "Failed to parse configuration: "@,
        ShallyError::IoError(_) => "I/O error: "@,
        ShallyError::NetworkError(_) => "Network error: "@,
        ShallyError::PluginError(_) => "Plugin error: "@,
        ShallyError::HookError(_) => "Hook execution error: "@,
        ShallyError::HistoryError(_) => "History error: "@,
        ShallyError::AiError(_) => "AI integration error: "@,
    }
}

/// The detail that follows the prefix, for the kinds that carry text.
pub open spec fn error_detail(e: ShallyError) -> Option<Seq<char>> {
    match e {
        ShallyError::ConfigNotFound(m) => Some(m@),
        ShallyError::ConfigParseError(m) => Some(m@),
        ShallyError::IoError(_) => None,
        ShallyError::NetworkError(m) => Some(m@),
        ShallyError::PluginError(m) => Some(m@),
        ShallyError::HookError(m) => Some(m@),
        ShallyError::HistoryError(m) => Some(m@),
        ShallyError::AiError(m) => Some(m@),
    }
}

impl ShallyError {
    /// The user-facing message: the kind's prefix followed by the detail.
    pub fn message(&self) -> (r: String)
        ensures
            match error_detail(*self) {
                Some(d) => r@ == error_prefix(*self) + d,
                None => r@.len() >= error_prefix(*self).len() && r@.subrange(
                    0,
                    error_prefix(*self).len() as int,
                ) == error_prefix(*self),
            },
    {
        let (prefix, detail) = match self {
            ShallyError::ConfigNotFound(m) => ("Configuration file not found: ", m.clone()),
            ShallyError::ConfigParseError(m) => ("Failed to parse configuration: ", m.clone()),
            ShallyError::IoError(e) => ("I/O error: ", io_error_text(e)),
            ShallyError::NetworkError(m) => ("Network error: ", m.clone()),
            ShallyError::PluginError(m) => ("Plugin error: ", m.clone()),
            ShallyError::HookError(m) => ("Hook execution error: ", m.clone()),
            ShallyError::HistoryError(m) => ("History error: ", m.clone()),
            ShallyError::AiError(m) => ("AI integration error: ", m.clone()),
        };
        let mut r = string_of(prefix);
        r.append(detail.as_str());
        assert(r@.subrange(0, prefix@.len() as int) =~= prefix@);
        r
    }
}

impl From<std::io::Error> for ShallyError {
    /// Wraps an I/O error.
    fn from(err: std::io::Error) -> (r: Self)
        ensures
            r == ShallyError::IoError(err),
    {
        ShallyError::IoError(err)
    }
}

impl vstd::std_specs::convert::FromSpecImpl<std::io::Error> for ShallyError {
    open spec fn obeys_from_spec() -> bool {
        true
    }

    open spec fn from_spec(v: std::io::Error) -> Self {
        ShallyError::IoError(v)
    }
}

} // verus!
