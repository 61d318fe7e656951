//! Query of the ET112 energy meter history endpoint.

use vstd::prelude::*;

verus! {

/// Query of `GET /api/v1/et112/:addr/history?limit=N`.
#[derive(Debug, Clone, Copy)]
pub struct HistoryParams {
    /// Number of points (360 by default).
    pub limit: Option<usize>,
}

impl HistoryParams {
    /// The number of points asked for: 360 by default, at most 1440.
    pub fn effective_limit(&self) -> (n: usize)
        ensures
            n == (match self.limit {
                Some(l) => if l < 1440 { l } else { 1440 },
                None => 360,
            }),
    {
        let l = match self.limit {
            Some(l) => l,
            None => 360,
        };
        if l < 1440 {
            l
        } else {
            1440
        }
    }
}

} // verus!
