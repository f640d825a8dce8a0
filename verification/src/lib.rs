//! A verified core for a nerd-font package manager: platform font-directory
//! resolution, selection reconciliation, catalog decoding, and the
//! install/uninstall batch rules.

pub mod catalog;
pub mod install;
pub mod installed;
pub mod platform;
pub mod selection;

use vstd::prelude::*;
use vstd::string::*;

verus! {

/// The operating system an invocation runs on.
#[derive(Clone, Copy, Debug, PartialEq, Eq, Structural)]
pub enum OsKind {
    Linux,
    MacOs,
    Windows,
    Other,
}

/// Whether an operation targets the per-user or the system-wide font directory.
#[derive(Clone, Copy, Debug, PartialEq, Eq, Structural)]
pub enum Scope {
    User,
    Global,
}

/// The kinds of failure a command can surface.
#[derive(Debug)]
pub enum FontError {
    /// Transport-level failure; carries the context (a font name or a URL).
    Network(String),
    /// A catalog response was malformed or missed an expected field.
    Parse(String),
    /// The font directory was missing or unreadable.
    Filesystem(String),
    /// A required environment variable is absent for the platform and scope.
    Configuration,
    /// The operating system is not in the resolver's known set.
    UnsupportedPlatform,
}

/// The description `message` returns for each kind of failure.
pub open spec fn spec_message(e: FontError) -> Seq<char> {
    match e {
        FontError::Network(c) => "network failure: "@ + c@,
        FontError::Parse(c) => "malformed response: "@ + c@,
        FontError::Filesystem(c) => "filesystem failure: "@ + c@,
        FontError::Configuration => "a required environment variable is not set"@,
        FontError::UnsupportedPlatform => "unsupported operating system"@,
    }
}

impl FontError {
    /// A human-readable description of the failure, with its context.
    pub fn message(&self) -> (r: String)
        ensures
            r@ == spec_message(*self),
    {
        match self {
            FontError::Network(c) => "network failure: ".to_owned().concat(c.as_str()),
            FontError::Parse(c) => "malformed response: ".to_owned().concat(c.as_str()),
            FontError::Filesystem(c) => "filesystem failure: ".to_owned().concat(c.as_str()),
            FontError::Configuration => "a required environment variable is not set".to_owned(),
            FontError::UnsupportedPlatform => "unsupported operating system".to_owned(),
        }
    }
}

} // verus!
