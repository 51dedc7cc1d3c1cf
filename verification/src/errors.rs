//! What the library refuses, and how it says so.

use vstd::prelude::*;
use vstd::string::StringExecFns;

verus! {

/// The library's error type.
#[derive(Debug, PartialEq, Eq)]
pub enum VolfError {
    /// No configuration was found where one is needed.
    MissingConfig,
    /// A configuration is in the way of a new one.
    ConfigExists,
    /// The hooks are misconfigured: the platform sends events of this type,
    /// which the bot has no use for.
    SpammyGithub(String),
}

/// The library's result type.
pub type VolfResult<T> = Result<T, VolfError>;

impl VolfError {
    /// What [`VolfError::message`] returns.
    pub open spec fn message_of(self) -> Seq<char> {
        match self {
            VolfError::MissingConfig => "Local config volf.json not found"@,
            VolfError::ConfigExists => "Local config volf.json exists"@,
            VolfError::SpammyGithub(event) => event@ + " events should not be sent to volf"@,
        }
    }

    /// The error in words, for a log or a terminal.
    pub fn message(&self) -> (msg: String)
        ensures
            msg@ == self.message_of(),
    {
        match self {
            VolfError::MissingConfig => String::from_str("Local config volf.json not found"),
            VolfError::ConfigExists => String::from_str("Local config volf.json exists"),
            VolfError::SpammyGithub(event) => {
                let mut msg = event.clone();
                msg.append(" events should not be sent to volf");
                msg
            },
        }
    }
}

} // verus!
