//! Forward authentication for JWT-bearing HTTP requests.
//!
//! The crate holds the decisions of the service as functions on plain values:
//! resolving validator templates, the JWKS refresh protocol, the per-request
//! authorization pipeline and the lifecycle of the configuration snapshot.
//! Network, file-system and runtime concerns live with the caller.

use vstd::prelude::*;

pub mod args;
pub mod probes;
pub mod utils;
pub mod validator_file;
pub mod validators;

verus! {

/// The lifecycle of the service, as the readiness probe reports it.
#[derive(Copy, Clone, Debug, PartialEq, Eq, Structural)]
pub enum States {
    /// The application is starting up.
    Starting,
    /// The application is running normally.
    Running,
    /// The application currently only has a faulty configuration available.
    FaultyConfig,
}

} // verus!
