//! Synchronize a local list of plaintext key/value secrets into the CI secret
//! store of a GitHub-hosted repository.
//!
//! The verified core: resolving owner and repository from the configured
//! remote URL (`remote`), parsing the secrets file (`secrets` and `text`),
//! sealing each value to the repository's public key (`encode`), framing the
//! publish requests (`request`), and the run's step-by-step control with its
//! fatal-versus-isolated failure rules (`orchestrator`). A thin unverified
//! runner performs the network and file reads the state machine asks for.

use vstd::prelude::*;

pub mod encode;
pub mod orchestrator;
pub mod remote;
pub mod request;
pub mod secrets;
pub mod text;

verus! {

/// True exactly for the HTTP status codes that the remote service
/// treats as success.
pub fn status_is_success(status: u16) -> (r: bool)
    ensures
        r == (200 <= status && status <= 299),
{
    200 <= status && status <= 299
}

} // verus!
