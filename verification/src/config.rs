//! The one configuration parameter: the target contract's address, given as
//! text.

use crate::encoding::address_of_text;
use crate::error::{ConfigError, TrackerError};
use crate::primitives::Address;
use crate::trusted::parse_address;
use vstd::prelude::*;
use vstd::string::StringExecFns;

verus! {

/// `error` is the configuration error owed for `raw`: `Missing` where nothing
/// was configured, else `Malformed` with the configured text.
pub open spec fn is_rejection_of(error: TrackerError, raw: Option<&str>) -> bool {
    match raw {
        None => error == TrackerError::Configuration(ConfigError::Missing),
        Some(text) => match error {
            TrackerError::Configuration(ConfigError::Malformed(kept)) => kept@ == text@,
            _ => false,
        },
    }
}

/// Reads the target address from its configured text, `None` standing for a
/// parameter that was not set. Fails with a configuration error, which is
/// fatal, exactly when the text is missing or spells no address.
pub fn load_target(raw: Option<&str>) -> (target: Result<Address, TrackerError>)
    ensures
        match target {
            Ok(address) => match raw {
                Some(text) => address_of_text(text@) == Some(address@),
                None => false,
            },
            Err(error) => {
                &&& error.fatal()
                &&& is_rejection_of(error, raw)
                &&& match raw {
                    Some(text) => address_of_text(text@) is None,
                    None => true,
                }
            },
        },
{
    match raw {
        None => Err(TrackerError::Configuration(ConfigError::Missing)),
        Some(text) => match parse_address(text) {
            Some(address) => Ok(address),
            None => Err(TrackerError::Configuration(ConfigError::Malformed(String::from_str(text)))),
        },
    }
}

} // verus!
