//! Runtime configuration: every runtime number, named.

use vstd::prelude::*;

verus! {

/// Named runtime parameters for the coalition model and the safety valves.
#[derive(Clone, Copy, Debug, PartialEq, Eq, Structural)]
pub struct RuntimeConfig {
    /// Initial coalition core support.
    pub core_start: i64,
    /// Coalition cost charged per live allocation, per turn.
    pub upkeep_per_alloc: i64,
    /// Upper bound on evaluation steps (an implementation abort, never an in-world halt).
    pub max_steps: u64,
    /// Upper bound on nested function/poly-statement invocations.
    pub max_depth: u64,
    /// Largest apportionment that may be constructed.
    pub max_apportionment: i64,
    /// Largest spread between the biggest and smallest share still called balanced.
    pub balance_tolerance: i64,
}

/// The default configuration.
pub open spec fn default_config() -> RuntimeConfig {
    RuntimeConfig {
        core_start: 3,
        upkeep_per_alloc: 1,
        max_steps: 10_000_000,
        max_depth: 200,
        max_apportionment: 10_000,
        balance_tolerance: 0,
    }
}

impl Default for RuntimeConfig {
    fn default() -> (r: Self)
        ensures
            r == default_config(),
    {
        RuntimeConfig {
            core_start: 3,
            upkeep_per_alloc: 1,
            max_steps: 10_000_000,
            max_depth: 200,
            max_apportionment: 10_000,
            balance_tolerance: 0,
        }
    }
}

} // verus!
