//! Error taxonomy of the orchestration core.
//!
//! Every failure aborts the whole run; there is no retry or resumption
//! anywhere in the core. Capability-internal failures are not errors at all:
//! by convention a capability encodes its own failure as an ordinary result
//! string.

use vstd::prelude::*;

verus! {

/// One error class per way an orchestration run can abort.
#[derive(Debug)]
pub enum AgentError {
    /// A required agent field was missing at build time, or the tool loop was
    /// requested without a capability registry.
    Configuration(String),
    /// Network failure or a non-success HTTP status.
    Transport(String),
    /// The response body did not have the expected shape, had no choices, or
    /// had no content.
    Protocol(String),
    /// An unknown capability name, or malformed capability-argument JSON.
    Capability(String),
    /// The tool loop exhausted its iteration cap.
    IterationLimit(String),
}

pub ghost enum AgentErrorView {
    Configuration(Seq<char>),
    Transport(Seq<char>),
    Protocol(Seq<char>),
    Capability(Seq<char>),
    IterationLimit(Seq<char>),
}

impl View for AgentError {
    type V = AgentErrorView;

    open spec fn view(&self) -> AgentErrorView {
        match self {
            AgentError::Configuration(m) => AgentErrorView::Configuration(m@),
            AgentError::Transport(m) => AgentErrorView::Transport(m@),
            AgentError::Protocol(m) => AgentErrorView::Protocol(m@),
            AgentError::Capability(m) => AgentErrorView::Capability(m@),
            AgentError::IterationLimit(m) => AgentErrorView::IterationLimit(m@),
        }
    }
}

impl AgentError {
    /// The human-readable message carried by the error.
    pub fn message(&self) -> (r: &str)
        ensures
            r@ == self.spec_message(),
    {
        match self {
            AgentError::Configuration(m) => m.as_str(),
            AgentError::Transport(m) => m.as_str(),
            AgentError::Protocol(m) => m.as_str(),
            AgentError::Capability(m) => m.as_str(),
            AgentError::IterationLimit(m) => m.as_str(),
        }
    }

    pub open spec fn spec_message(&self) -> Seq<char> {
        match self {
            AgentError::Configuration(m) => m@,
            AgentError::Transport(m) => m@,
            AgentError::Protocol(m) => m@,
            AgentError::Capability(m) => m@,
            AgentError::IterationLimit(m) => m@,
        }
    }
}

} // verus!
