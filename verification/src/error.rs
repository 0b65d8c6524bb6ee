//! The failures the tracker tells apart, and which of them end the run.

use vstd::prelude::*;

verus! {

/// What can be wrong with the configured target address.
#[derive(Clone, Debug, PartialEq, Eq)]
pub enum ConfigError {
    /// No target address was configured.
    Missing,
    /// The configured text is not an address; the text is kept for the message.
    Malformed(String),
}

/// A failure of the tracker.
#[derive(Clone, Debug, PartialEq, Eq)]
pub enum TrackerError {
    /// The target address is missing or malformed.
    Configuration(ConfigError),
    /// The subscription to the node could not be established.
    Connection(String),
    /// One identifier could not be resolved to its transaction.
    Resolution(String),
}

impl TrackerError {
    /// Configuration and connection failures end the run; a failed resolution
    /// concerns one identifier only.
    pub open spec fn fatal(self) -> bool {
        !(self is Resolution)
    }

    /// Whether the run must end on this failure.
    pub fn is_fatal(&self) -> (fatal: bool)
        ensures
            fatal == self.fatal(),
    {
        match self {
            TrackerError::Configuration(_) => true,
            TrackerError::Connection(_) => true,
            TrackerError::Resolution(_) => false,
        }
    }
}

} // verus!
