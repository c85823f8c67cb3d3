//! `repo fetch` and `repo update`: the git steps over the projects, in
//! order, up to the first that fails.

use vstd::prelude::*;

verus! {

/// One git step of `repo update` on the project at an index.
#[derive(Debug, Clone, Copy, PartialEq, Eq, Structural)]
pub enum SyncStep {
    Fetch(usize),
    Merge(usize),
}

/// The steps of `repo update` over `n` projects, in order: every project is
/// fetched before any is merged; the run stops at the first step that fails.
pub fn update_steps(n: usize) -> (r: Vec<SyncStep>)
    requires
        n <= usize::MAX / 2,
    ensures
        r@.len() == 2 * n,
        forall|i: int| 0 <= i < n ==> #[trigger] r@[i] == SyncStep::Fetch(i as usize),
        forall|i: int| 0 <= i < n ==> #[trigger] r@[n + i] == SyncStep::Merge(i as usize),
{
    let mut r: Vec<SyncStep> = Vec::new();
    let mut i: usize = 0;
    while i < n
        invariant
            i <= n,
            r@.len() == i,
            forall|k: int| 0 <= k < i ==> #[trigger] r@[k] == SyncStep::Fetch(k as usize),
        decreases n - i,
    {
        r.push(SyncStep::Fetch(i));
        i = i + 1;
    }
    let mut j: usize = 0;
    while j < n
        invariant
            j <= n,
            n <= usize::MAX / 2,
            r@.len() == n + j,
            forall|k: int| 0 <= k < n ==> #[trigger] r@[k] == SyncStep::Fetch(k as usize),
            forall|k: int| 0 <= k < j ==> #[trigger] r@[n + k] == SyncStep::Merge(k as usize),
        decreases n - j,
    {
        r.push(SyncStep::Merge(j));
        j = j + 1;
    }
    r
}

/// The steps of `repo fetch` over `n` projects: each project fetched, in
/// order.
pub fn fetch_steps(n: usize) -> (r: Vec<SyncStep>)
    ensures
        r@.len() == n,
        forall|i: int| 0 <= i < n ==> #[trigger] r@[i] == SyncStep::Fetch(i as usize),
{
    let mut r: Vec<SyncStep> = Vec::new();
    let mut i: usize = 0;
    while i < n
        invariant
            i <= n,
            r@.len() == i,
            forall|k: int| 0 <= k < i ==> #[trigger] r@[k] == SyncStep::Fetch(k as usize),
        decreases n - i,
    {
        r.push(SyncStep::Fetch(i));
        i = i + 1;
    }
    r
}

/// The step to run after step `current` of `total`: the next one if
/// `current` succeeded and there is a next one, else none, as a run stops at
/// the first step that fails.
pub fn next_step(total: usize, current: usize, succeeded: bool) -> (r: Option<usize>)
    ensures
        r == if succeeded && current + 1 < total {
            Some((current + 1) as usize)
        } else {
            None::<usize>
        },
{
    if succeeded && current < total && current + 1 < total {
        Some(current + 1)
    } else {
        None
    }
}

} // verus!
