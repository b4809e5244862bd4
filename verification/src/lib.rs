//! Credential-testing orchestrator for a remote-desktop service: builds an
//! ordered credential set from username and secret sources, and drives a
//! sequential attempt loop that stops at the first success.

use vstd::prelude::*;

pub mod builder;
pub mod credentials;
pub mod engine;
pub mod hex;
pub mod text;

verus! {

/// The fatal error taxonomy: every error that aborts a run, by the stage at
/// which it arises.
#[derive(Debug, Clone, Copy, PartialEq, Eq, Structural)]
pub enum FatalError {
    /// Neither a single username nor a username list was supplied.
    Configuration,
    /// A configured file path could not be read.
    Io,
    /// A hash-list entry is not valid hex of even length.
    Format,
    /// The constructed credential set has zero entries.
    EmptyCredentialSet,
    /// The target refused or could not be reached.
    Connect,
    /// The proxy refused or could not be reached.
    Proxy,
}

/// A run needs at least one source of usernames; checking that is the first
/// validation a configuration goes through.
pub fn validate_user_sources(has_username: bool, has_username_list: bool) -> (r: Result<
    (),
    FatalError,
>)
    ensures
        r is Ok <==> (has_username || has_username_list),
        r is Err ==> r->Err_0 == FatalError::Configuration,
{
    if has_username || has_username_list {
        Ok(())
    } else {
        Err(FatalError::Configuration)
    }
}

} // verus!
