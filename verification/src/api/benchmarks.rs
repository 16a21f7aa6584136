//! What the benchmark endpoints decide and count.

use vstd::prelude::*;

verus! {

/// The backend that a benchmark runs on.
#[derive(Debug, Clone, Copy, PartialEq, Eq, Structural)]
pub enum BackendKind {
    Mock,
    Plonky2,
    Plonky3,
    Halo2,
}

/// The backend that a request names; the mock where it names none or another.
pub open spec fn requested_backend(name: Option<Seq<char>>) -> BackendKind {
    match name {
        Some(s) => if s == "plonky2"@ {
            BackendKind::Plonky2
        } else if s == "plonky3"@ {
            BackendKind::Plonky3
        } else if s == "halo2"@ {
            BackendKind::Halo2
        } else {
            BackendKind::Mock
        },
        None => BackendKind::Mock,
    }
}

/// Picks the backend that a request names.
pub fn pick_backend(name: &Option<String>) -> (r: BackendKind)
    ensures
        r == requested_backend(
            match *name {
                Some(s) => Some(s@),
                None => None,
            },
        ),
{
    match name {
        Some(s) => if *s == "plonky2".to_owned() {
            BackendKind::Plonky2
        } else if *s == "plonky3".to_owned() {
            BackendKind::Plonky3
        } else if *s == "halo2".to_owned() {
            BackendKind::Halo2
        } else {
            BackendKind::Mock
        },
        None => BackendKind::Mock,
    }
}

/// How many scenarios of a suite were run, and how they went.
#[derive(Debug, Clone, Copy, PartialEq, Eq, Structural)]
pub struct SuiteSummary {
    pub total_scenarios: usize,
    pub successful: usize,
    pub failed: usize,
}

/// The number of scenarios among the first `n` that succeeded.
pub open spec fn successes(results: Seq<bool>, n: int) -> nat
    decreases n,
{
    if n <= 0 {
        0
    } else {
        successes(results, n - 1) + if results[n - 1] {
            1nat
        } else {
            0nat
        }
    }
}

/// `r` counts how the scenarios of a suite went.
pub open spec fn summarized(results: Seq<bool>, r: SuiteSummary) -> bool {
    &&& r.total_scenarios == results.len()
    &&& r.successful == successes(results, results.len() as int)
    &&& r.successful + r.failed == r.total_scenarios
}

/// Counts the successes and failures of a suite.
pub fn summarize(results: &Vec<bool>) -> (r: SuiteSummary)
    ensures
        r.total_scenarios == results@.len(),
        r.successful == successes(results@, results@.len() as int),
        r.successful + r.failed == r.total_scenarios,
        summarized(results@, r),
{
    let total: usize = results.len();
    let mut successful: usize = 0;
    let mut i: usize = 0;
    while i < total
        invariant
            total == results@.len(),
            i <= total,
            successful <= i,
            successful == successes(results@, i as int),
        decreases total - i,
    {
        if results[i] {
            successful = successful + 1;
        }
        i = i + 1;
    }
    SuiteSummary { total_scenarios: total, successful, failed: total - successful }
}

} // verus!
