//! The adapter's error taxonomy. Every failure of an entry point is one
//! of these values; none is recovered locally.

use vstd::prelude::*;
use vstd::string::StringExecFns;
use crate::text::{chars_to_string, dec_digits, u16_dec_chars};

verus! {

/// Why configuration resolution failed.
#[derive(Clone, Copy, Debug, PartialEq, Eq, Structural)]
pub enum ConfigError {
    /// The required `api_key` value was absent.
    ApiKeyMissing,
    /// A `model` value was given but no registry entry matches it.
    ModelNotFound,
    /// A `temperature` value was given but is not a decimal number.
    TemperatureNotFloat,
    /// A `temperature` value parses but lies outside zero to one.
    TemperatureOutOfRange,
}

/// A terminal failure of an entry point.
#[derive(Debug, PartialEq, Eq)]
pub enum Error {
    /// Missing or invalid configuration.
    Config(ConfigError),
    /// A non-success HTTP status, with the raw response body.
    Api(u16, String),
    /// Malformed JSON, from the provider or inside tool-call arguments.
    Decode,
    /// A well-formed response without the text content the plain entry
    /// point needs.
    NoCompletion,
    /// A well-formed response without tool calls.
    NoToolCalls,
}

/// The human-readable description of an error.
pub open spec fn spec_message(e: Error) -> Seq<char> {
    match e {
        Error::Config(ConfigError::ApiKeyMissing) => "API key not found"@,
        Error::Config(ConfigError::ModelNotFound) => "Model not found"@,
        Error::Config(ConfigError::TemperatureNotFloat) => "Temperature must be a float"@,
        Error::Config(ConfigError::TemperatureOutOfRange) => "Temperature out of range"@,
        Error::Api(status, body) => "error calling API\nStatus Code: "@ + dec_digits(
            status as nat,
        ) + "\n Response: "@ + body@,
        Error::Decode => "failed to decode completion response"@,
        Error::NoCompletion => "No completion returned"@,
        Error::NoToolCalls => "No tool calls found"@,
    }
}

impl Error {
    /// Renders the error description.
    pub fn message(&self) -> (r: String)
        ensures
            r@ == spec_message(*self),
    {
        match self {
            Error::Config(ConfigError::ApiKeyMissing) => "API key not found".to_owned(),
            Error::Config(ConfigError::ModelNotFound) => "Model not found".to_owned(),
            Error::Config(ConfigError::TemperatureNotFloat) => {
                "Temperature must be a float".to_owned()
            },
            Error::Config(ConfigError::TemperatureOutOfRange) => {
                "Temperature out of range".to_owned()
            },
            Error::Api(status, body) => {
                let mut s = "error calling API\nStatus Code: ".to_owned();
                let digits = chars_to_string(&u16_dec_chars(*status));
                s.append(digits.as_str());
                s.append("\n Response: ");
                s.append(body.as_str());
                s
            },
            Error::Decode => "failed to decode completion response".to_owned(),
            Error::NoCompletion => "No completion returned".to_owned(),
            Error::NoToolCalls => "No tool calls found".to_owned(),
        }
    }
}

} // verus!
