//! The agent CLIs that the daemon can run.

use vstd::prelude::*;

pub mod claude;
pub mod pi;
pub mod plain_text;

verus! {

/// What a provider writes on its standard output.
#[derive(Clone, Copy, Debug, PartialEq, Eq, Structural)]
pub enum OutputFormat {
    StreamJson,
    PlainText,
}

/// How a provider takes up an earlier session.
#[derive(Clone, Copy, Debug, PartialEq, Eq, Structural)]
pub enum ResumeStrategy {
    /// By the id of the session.
    Native,
    /// It cannot.
    Unsupported,
}

/// What a provider can do.
#[derive(Clone, Copy, Debug, PartialEq, Eq, Structural)]
pub struct ProviderCapabilities {
    pub supports_resume: bool,
    pub supports_model_selection: bool,
    pub output_format: OutputFormat,
}

} // verus!
