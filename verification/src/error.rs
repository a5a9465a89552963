//! The ways in which an operation of this library fails.

use vstd::prelude::*;

verus! {

/// What went wrong.
pub enum CoreError {
    /// A required input is missing or empty. Holds the message.
    Configuration(String),
    /// The environment variable that names the target file of a file command
    /// is unset or empty. Holds the variable's name.
    MissingTarget(String),
    /// The delimiter occurs in the key or in the value that it should frame.
    DelimiterCollision,
    /// Writing to a file or to standard output failed. Holds the message.
    Io(String),
    /// An input's value is not of the accepted form. Holds the message.
    Validation(String),
}

/// The text before a variable's name in the message of `MissingTarget`.
pub open spec fn missing_target_prefix() -> Seq<char> {
    "Unable to find environment variable for file command "@
}

/// The message of `DelimiterCollision`.
pub open spec fn delimiter_collision_message() -> Seq<char> {
    "Unexpected input: key and value should not contain the delimiter"@
}

impl CoreError {
    /// The message of an error, as text.
    pub open spec fn message_spec(&self) -> Seq<char> {
        match self {
            CoreError::Configuration(m) => m@,
            CoreError::MissingTarget(name) => missing_target_prefix() + name@,
            CoreError::DelimiterCollision => delimiter_collision_message(),
            CoreError::Io(m) => m@,
            CoreError::Validation(m) => m@,
        }
    }

    /// The message of an error.
    pub fn message(&self) -> (r: String)
        ensures
            r@ == self.message_spec(),
    {
        match self {
            CoreError::Configuration(m) => m.clone(),
            CoreError::MissingTarget(name) => {
                let mut out = String::from_str(
                    "Unable to find environment variable for file command ",
                );
                out.append(name.as_str());
                out
            },
            CoreError::DelimiterCollision => String::from_str(
                "Unexpected input: key and value should not contain the delimiter",
            ),
            CoreError::Io(m) => m.clone(),
            CoreError::Validation(m) => m.clone(),
        }
    }
}

} // verus!
