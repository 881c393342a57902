//! What checking a topic's index for consistency reports.

use vstd::prelude::*;

verus! {

/// One check: what was expected, what was found, and the difference.
#[derive(Debug, Clone)]
pub struct ConsistencyCheck {
    pub name: String,
    pub ok: bool,
    pub expected: i64,
    pub actual: i64,
    pub diff: i64,
    pub detail: String,
}

/// Every check made on a topic, and whether all of them passed.
#[derive(Debug, Clone)]
pub struct ConsistencyReport {
    pub topic: String,
    pub overall_ok: bool,
    pub index_state: String,
    pub checks: Vec<ConsistencyCheck>,
}

} // verus!
