//! Sanity checks of configurations and their errors.
use vstd::prelude::*;
use crate::error::push_text;

verus! {

/// A configuration value that does not pass its sanity check.
#[derive(Debug, Clone, PartialEq, Eq)]
pub enum ConfigSanityError {
    ParsingError(String),
    MissingField(String),
    InvalidValue { field: String, reason: String },
}

/// The message of a sanity error.
pub open spec fn sanity_message(e: ConfigSanityError) -> Seq<char> {
    match e {
        ConfigSanityError::ParsingError(m) => "Failed to parse value: "@ + m@,
        ConfigSanityError::MissingField(m) => "Missing required field: "@ + m@,
        ConfigSanityError::InvalidValue { field, reason } => "Invalid value for '"@ + field@
            + "': "@ + reason@,
    }
}

impl ConfigSanityError {
    /// The message of the error.
    pub fn to_string(&self) -> (r: String)
        ensures
            r@ == sanity_message(*self),
    {
        let mut s = String::new();
        match self {
            ConfigSanityError::ParsingError(m) => {
                push_text(&mut s, "Failed to parse value: ");
                push_text(&mut s, m.as_str());
            },
            ConfigSanityError::MissingField(m) => {
                push_text(&mut s, "Missing required field: ");
                push_text(&mut s, m.as_str());
            },
            ConfigSanityError::InvalidValue { field, reason } => {
                push_text(&mut s, "Invalid value for '");
                push_text(&mut s, field.as_str());
                push_text(&mut s, "': ");
                push_text(&mut s, reason.as_str());
            },
        }
        s
    }
}

/// A configuration that can check itself for common mistakes.
pub trait ConfigSanity {
    /// Checks the configuration; fails with a description of the first mistake found.
    fn validate_sanity(&self) -> Result<(), ConfigSanityError>;
}

} // verus!
