//! The bounded range of log positions that a search for an existing store
//! covers.

use vstd::prelude::*;

verus! {

/// Number of positions searched back from the head when the caller names no
/// limit.
pub const DEFAULT_SEARCH_LIMIT: u64 = 100;

/// The lookback that applies for an optional caller-supplied limit.
pub open spec fn effective_limit(search_limit: Option<u64>) -> u64 {
    match search_limit {
        Some(limit) => limit,
        None => DEFAULT_SEARCH_LIMIT,
    }
}

/// The lowest position of the search window below `head`: `head - limit`,
/// but never below position 1.
pub open spec fn window_start(head: u64, search_limit: Option<u64>) -> u64 {
    if head > effective_limit(search_limit) {
        (head - effective_limit(search_limit)) as u64
    } else {
        1
    }
}

/// Computes the lowest position of the closed search window
/// `[max(1, head - limit), head]`.
pub fn search_window_start(head: u64, search_limit: Option<u64>) -> (low: u64)
    ensures
        low == window_start(head, search_limit),
        1 <= low,
        head >= 1 ==> low <= head,
        low as int == if head - effective_limit(search_limit) > 1 {
            head - effective_limit(search_limit)
        } else {
            1
        },
{
    let limit: u64 = match search_limit {
        Some(limit) => limit,
        None => DEFAULT_SEARCH_LIMIT,
    };
    if head > limit {
        head - limit
    } else {
        1
    }
}

} // verus!
