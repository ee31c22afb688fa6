//! What the health and readiness probes answer.

use vstd::prelude::*;
use crate::States;

verus! {

/// The answer of a probe.
#[derive(Copy, Clone, Debug, PartialEq, Eq)]
pub struct Probe {
    pub status: u16,
    pub body: &'static str,
}

/// The answer of the health probe: the process is alive.
pub fn healthz() -> (r: Probe)
    ensures
        r.status == 200,
        r.body@ == "OK"@,
{
    Probe { status: 200, body: "OK" }
}

/// The answer of the readiness probe in the lifecycle state `state`.
pub fn readyz(state: States) -> (r: Probe)
    ensures
        state == States::Starting ==> r.status == 503 && r.body@ == "Starting"@,
        state == States::Running ==> r.status == 200 && r.body@ == "OK"@,
        state == States::FaultyConfig ==> r.status == 500 && r.body@ == "Faulty configuration"@,
{
    match state {
        States::Starting => Probe { status: 503, body: "Starting" },
        States::Running => Probe { status: 200, body: "OK" },
        States::FaultyConfig => Probe { status: 500, body: "Faulty configuration" },
    }
}

} // verus!
