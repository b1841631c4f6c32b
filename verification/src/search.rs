//! The bookkeeping of a search: what it reports, how it divides its quota, and what
//! it keeps in mind while it goes through the candidates.

use vstd::prelude::*;

verus! {

/// What a search found out about a position, for the player to move.
#[derive(Clone, Copy, Debug, PartialEq, Eq)]
pub enum SearchOutcome {
    /// Neither a win nor a loss was established. `depth` tells how many moves deep
    /// the shallowest unresolved line goes.
    Indeterminate { depth: i64 },
    /// The player to move has a winning move.
    Win,
    /// No candidate helps the player to move.
    Loss,
}

/// The result of a search.
#[derive(Clone, Copy, Debug, PartialEq, Eq)]
pub struct SearchResult {
    /// How many positions were evaluated.
    pub used_quota: i64,
    /// The move that the search proposes.
    pub best_move: (i32, i32),
    pub outcome: SearchOutcome,
}

/// The part of the quota that the search below the candidate at `idx` may use: what
/// is left of the quota, divided by the number of candidates that still wait,
/// rounded towards zero.
pub open spec fn share_of(search_quota: int, used_quota: int, total: int, idx: int) -> int {
    let left = search_quota - used_quota;
    if left >= 0 {
        left / (total - idx)
    } else {
        -((-left) / (total - idx))
    }
}

/// The quota for the search below the candidate at `idx` out of `total`. The
/// candidates that wait share what is left, so what one of them does not use is
/// there for those that follow.
pub fn quota_share(search_quota: i64, used_quota: i64, total: usize, idx: usize) -> (share: i64)
    requires
        idx < total <= i64::MAX,
        i64::MIN <= search_quota - used_quota <= i64::MAX,
    ensures
        share == share_of(search_quota as int, used_quota as int, total as int, idx as int),
{
    (search_quota - used_quota) / ((total - idx) as i64)
}

/// Bounds on a share of a quota that is not used up: it is not negative and not more
/// than what is left, and if each waiting candidate but one can still have a unit
/// before the share is taken, so it is after.
pub proof fn lemma_share_bounds(left: int, waiting: int)
    by (nonlinear_arith)
    requires
        0 <= left,
        0 < waiting,
    ensures
        0 <= left / waiting <= left,
        left >= waiting - 1 ==> left - left / waiting >= waiting - 1,
{
}

/// What a search has learned from the candidates that it has looked at so far.
#[derive(Clone, Copy, Debug, PartialEq, Eq)]
pub struct Scan {
    /// How many positions were evaluated, below this one and at it.
    pub used_quota: i64,
    /// The least depth among the replies that were indeterminate.
    pub min_termination_depth: i64,
    /// The candidate whose reply was indeterminate at the greatest depth.
    pub best_move: Option<(i32, i32)>,
    /// That greatest depth.
    pub best_move_depth: i64,
}

impl Scan {
    /// The scan before the first candidate.
    pub open spec fn initial() -> Scan {
        Scan {
            used_quota: 0,
            min_termination_depth: i64::MAX,
            best_move: None,
            best_move_depth: i64::MIN,
        }
    }

    /// The scan after the search below the candidate `mv` has answered `reply`. What
    /// that search used counts in every case. An indeterminate reply is kept in
    /// mind: the least depth is tracked, and the candidate becomes the best one if
    /// its depth is greater than that of every candidate before.
    pub open spec fn absorbed(self, mv: (i32, i32), reply: SearchResult) -> Scan {
        let used_quota = (self.used_quota + reply.used_quota) as i64;
        match reply.outcome {
            SearchOutcome::Indeterminate { depth } => Scan {
                used_quota,
                min_termination_depth: if depth < self.min_termination_depth {
                    depth
                } else {
                    self.min_termination_depth
                },
                best_move: if depth > self.best_move_depth {
                    Some(mv)
                } else {
                    self.best_move
                },
                best_move_depth: if depth > self.best_move_depth {
                    depth
                } else {
                    self.best_move_depth
                },
            },
            _ => Scan { used_quota, ..self },
        }
    }

    /// The result when every candidate has been looked at: indeterminate if a reply
    /// was, one deeper than the shallowest of them and with the best candidate; else
    /// a loss, with `fallback` for a move.
    pub open spec fn finished(self, fallback: (i32, i32)) -> SearchResult {
        match self.best_move {
            Some(best_move) => SearchResult {
                used_quota: self.used_quota,
                best_move,
                outcome: SearchOutcome::Indeterminate {
                    depth: (self.min_termination_depth + 1) as i64,
                },
            },
            None => SearchResult {
                used_quota: self.used_quota,
                best_move: fallback,
                outcome: SearchOutcome::Loss,
            },
        }
    }

    /// The scan before the first candidate.
    pub fn new() -> (scan: Scan)
        ensures
            scan == Scan::initial(),
    {
        Scan {
            used_quota: 0,
            min_termination_depth: i64::MAX,
            best_move: None,
            best_move_depth: i64::MIN,
        }
    }

    /// Takes in the reply of the search below the candidate `mv`. If the reply is a
    /// loss, the scan is over: `mv` wins, and the result says so; else the scan goes
    /// on.
    pub fn absorb(&mut self, mv: (i32, i32), reply: SearchResult) -> (verdict: Option<
        SearchResult,
    >)
        requires
            i64::MIN <= old(self).used_quota + reply.used_quota <= i64::MAX,
        ensures
            *final(self) == old(self).absorbed(mv, reply),
            verdict == if reply.outcome is Loss {
                Some(
                    SearchResult {
                        used_quota: final(self).used_quota,
                        best_move: mv,
                        outcome: SearchOutcome::Win,
                    },
                )
            } else {
                None
            },
    {
        self.used_quota += reply.used_quota;
        match reply.outcome {
            SearchOutcome::Indeterminate { depth } => {
                if depth < self.min_termination_depth {
                    self.min_termination_depth = depth;
                }
                if depth > self.best_move_depth {
                    self.best_move_depth = depth;
                    self.best_move = Some(mv);
                }
                None
            },
            SearchOutcome::Loss => Some(
                SearchResult {
                    used_quota: self.used_quota,
                    best_move: mv,
                    outcome: SearchOutcome::Win,
                },
            ),
            SearchOutcome::Win => None,
        }
    }

    /// The result when every candidate has been looked at.
    pub fn finish(&self, fallback: (i32, i32)) -> (r: SearchResult)
        requires
            self.best_move is Some ==> self.min_termination_depth < i64::MAX,
        ensures
            r == self.finished(fallback),
    {
        if let Some(best_move) = self.best_move {
            SearchResult {
                used_quota: self.used_quota,
                best_move,
                outcome: SearchOutcome::Indeterminate { depth: self.min_termination_depth + 1 },
            }
        } else {
            SearchResult {
                used_quota: self.used_quota,
                best_move: fallback,
                outcome: SearchOutcome::Loss,
            }
        }
    }
}

} // verus!
