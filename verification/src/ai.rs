//! The strategies: each proposes a move for the player whose turn it is.

use crate::cells::{candidate_moves, empty_cells, lemma_reordered_candidates, lists_candidates};
use crate::chance::{random_below, shuffle, thread_rng};
use crate::game::{Game, GameState, BOARD_SIZE};
use crate::outlook::{
    lemma_all_refuted_loses, lemma_winning_move_wins, lost, refuted, winning_move, wins_at_once,
};
use crate::position::{lemma_has_candidate, on_board};
use crate::search::{lemma_share_bounds, quota_share, Scan, SearchOutcome, SearchResult};
use rand::rngs::ThreadRng;
use vstd::prelude::*;

verus! {

/// A strategy: something that proposes a move.
pub trait Ai {
    /// The games on which the strategy may be asked for a move.
    spec fn accepts(&self, g: &Game) -> bool;

    /// Whether the strategy may be asked for a move on `g`.
    fn is_ready(&self, g: &Game) -> (ready: bool)
        ensures
            ready == self.accepts(g),
    ;

    /// A move for the player whose turn it is: a free cell of the board.
    fn get_move(&self, g: &Game) -> (mv: (i32, i32))
        requires
            self.accepts(g),
        ensures
            g@.legal(mv.0 as int, mv.1 as int),
    ;
}

/// Whether the game is in progress.
fn in_progress(g: &Game) -> (b: bool)
    ensures
        b == (g@.state is InProgress),
{
    match g.get_state() {
        GameState::InProgress(_) => true,
        _ => false,
    }
}

/// How often [`random_empty_cell`] draws coordinates before it turns to the list of
/// the free cells: once for each cell of the board.
pub const DRAW_LIMIT: u32 = 225;

/// A free cell of the board, drawn at random.
///
/// Coordinates are drawn until they name a free cell, so that no free cell is
/// preferred to another. After [`DRAW_LIMIT`] misses the cell is drawn from the list
/// of the free cells instead, which prefers none either and bounds the work.
pub fn random_empty_cell(g: &Game, rng: &mut ThreadRng) -> (mv: (i32, i32))
    requires
        !g@.board.full(),
    ensures
        g@.board.free(mv.0 as int, mv.1 as int),
{
    let mut draws: u32 = 0;
    while draws < DRAW_LIMIT
        invariant
            draws <= DRAW_LIMIT,
        decreases DRAW_LIMIT - draws,
    {
        let move_x = random_below(rng, BOARD_SIZE);
        let move_y = random_below(rng, BOARD_SIZE);
        if g.get_cell(move_x, move_y).is_none() {
            return (move_x, move_y);
        }
        draws += 1;
    }
    let cells = empty_cells(g);
    proof {
        let (i, j) = choose|i: int, j: int|
            on_board(i, j) && !(#[trigger] g@.board.cell(i, j) is Some);
        assert(g@.board.free(i, j));
        assert(cells@.contains((i as i32, j as i32)));
    }
    let k = random_below(rng, cells.len() as i32);
    cells[k as usize]
}

/// Picks a free cell at random.
pub struct RandomAi;

impl Ai for RandomAi {
    open spec fn accepts(&self, g: &Game) -> bool {
        g@.state is InProgress
    }

    fn is_ready(&self, g: &Game) -> (ready: bool) {
        in_progress(g)
    }

    fn get_move(&self, g: &Game) -> (mv: (i32, i32)) {
        proof {
            use_type_invariant(g);
        }
        let mut rng = thread_rng();
        random_empty_cell(g, &mut rng)
    }
}

/// How many times [`NonconfrontationalAi`] draws coordinates in search of a move that
/// does not win.
pub const SAFE_ATTEMPTS: u32 = 2000;

/// Whether a piece may be placed on `(i, j)` without winning the game by it.
pub fn is_safe_move(g: &Game, i: i32, j: i32) -> (safe: bool)
    ensures
        safe == g@.safe(i as int, j as int),
{
    if g.get_cell(i, j).is_none() {
        let mut g_clone = g.clone();
        match g_clone.place_piece(i, j) {
            Ok(()) => {
                if let GameState::Winner(_) = g_clone.get_state() {
                    false
                } else {
                    true
                }
            },
            Err(_) => false,
        }
    } else {
        false
    }
}

/// Picks a free cell like [`RandomAi`], but avoids winning.
pub struct NonconfrontationalAi;

impl NonconfrontationalAi {
    /// Draws cells of the board up to [`SAFE_ATTEMPTS`] times and returns the first that
    /// is safe: free, and not won by a piece on it. A draw of a taken cell uses up an
    /// attempt. So nothing is found only after a cell of the board was drawn and refused.
    pub fn safe_move(g: &Game, rng: &mut ThreadRng) -> (found: Option<(i32, i32)>)
        ensures
            found matches Some(mv) ==> g@.safe(mv.0 as int, mv.1 as int),
            found is None ==> exists|i: int, j: int| on_board(i, j) && !#[trigger] g@.safe(i, j),
            (forall|i: int, j: int| on_board(i, j) ==> #[trigger] g@.safe(i, j)) ==> found is Some,
    {
        let mut attempt: u32 = 0;
        while attempt < SAFE_ATTEMPTS
            invariant
                attempt <= SAFE_ATTEMPTS,
                attempt > 0 ==> exists|i: int, j: int| on_board(i, j) && !#[trigger] g@.safe(i, j),
            decreases SAFE_ATTEMPTS - attempt,
        {
            let move_x = random_below(rng, BOARD_SIZE);
            let move_y = random_below(rng, BOARD_SIZE);
            if is_safe_move(g, move_x, move_y) {
                return Some((move_x, move_y));
            }
            assert(on_board(move_x as int, move_y as int) && !g@.safe(move_x as int, move_y as int));
            attempt += 1;
        }
        None
    }
}

impl Ai for NonconfrontationalAi {
    open spec fn accepts(&self, g: &Game) -> bool {
        g@.state is InProgress
    }

    fn is_ready(&self, g: &Game) -> (ready: bool) {
        in_progress(g)
    }

    /// A move that does not win, if the draws of [`NonconfrontationalAi::safe_move`]
    /// find one; else any free cell.
    fn get_move(&self, g: &Game) -> (mv: (i32, i32)) {
        proof {
            use_type_invariant(g);
        }
        let mut rng = thread_rng();
        match Self::safe_move(g, &mut rng) {
            Some(mv) => mv,
            None => random_empty_cell(g, &mut rng),
        }
    }
}

/// Searches the tree of the game below each candidate move, as far as a quota of
/// evaluated positions allows.
pub struct SmartAi {
    search_quota: i64,
}

impl SmartAi {
    /// The quota that each call of `get_move` may use.
    pub closed spec fn quota(&self) -> i64 {
        self.search_quota
    }

    /// A strategy that evaluates at most `search_quota` positions for each move.
    pub fn new(search_quota: i64) -> (ai: Self)
        ensures
            ai.quota() == search_quota,
    {
        Self { search_quota }
    }

    /// Searches below the candidate moves of `g`, looked at in random order, and
    /// evaluates at most `search_quota` positions.
    ///
    /// Each candidate is placed on a copy of the game, which counts as an
    /// evaluation, and the position that follows is searched in turn with a share
    /// of what is left of the quota. The search ends early with a win, when a
    /// candidate wins on the spot or leaves the opponent in a lost position, and
    /// when the quota is used up: then the first candidate is proposed, at depth 0.
    ///
    /// Whatever the order, the move proposed is a candidate, a quota that is not
    /// positive leaves the search without a single evaluation, a win is reported
    /// with a winning move, and a loss only of a lost position. With a quota of at
    /// least the number of candidates every candidate is looked at unless a win is
    /// found before, so a move that wins on the spot is not missed.
    pub fn search(g: &Game, search_quota: i64, rng: &mut ThreadRng) -> (r: SearchResult)
        requires
            g@.state is InProgress,
            exists|i: int, j: int| #[trigger] g@.board.candidate(i, j),
        ensures
            // the move
            g@.board.candidate(r.best_move.0 as int, r.best_move.1 as int),
            // the quota
            0 <= r.used_quota,
            search_quota > 0 ==> r.used_quota <= search_quota,
            search_quota <= 0 ==> r.used_quota == 0 && r.outcome == (SearchOutcome::Indeterminate {
                depth: 0,
            }),
            // depth 0 means that the quota ran out; any other outcome took an evaluation,
            // and all but a win took one for each candidate
            r.outcome == (SearchOutcome::Indeterminate { depth: 0 }) ==> r.used_quota
                >= search_quota,
            r.outcome != (SearchOutcome::Indeterminate { depth: 0 }) ==> r.used_quota >= 1,
            r.outcome is Loss || (r.outcome matches SearchOutcome::Indeterminate { depth } && depth
                > 0) ==> r.used_quota >= g@.board.candidate_count(),
            r.outcome matches SearchOutcome::Indeterminate { depth } ==> 0 <= depth
                <= r.used_quota,
            // the verdict
            r.outcome is Win ==> winning_move(g@, r.best_move.0 as int, r.best_move.1 as int),
            r.outcome is Loss ==> lost(g@),
            // a quota of one evaluation for each candidate
            search_quota >= g@.board.candidate_count() ==> r.outcome
                != (SearchOutcome::Indeterminate { depth: 0 }),
            search_quota >= g@.board.candidate_count() && (exists|i: int, j: int| #[trigger]
                wins_at_once(g@, i, j)) ==> r.outcome is Win,
        decreases search_quota,
    {
        proof {
            use_type_invariant(g);
        }
        if let GameState::InProgress(current_player) = g.get_state() {
            let mut possible_moves = candidate_moves(g);
            let ghost listed = possible_moves@;
            shuffle(&mut possible_moves, rng);
            let total = possible_moves.len();
            proof {
                lemma_reordered_candidates(listed, possible_moves@, g@.board);
                let (i, j) = choose|i: int, j: int| #[trigger] g@.board.candidate(i, j);
            }
            let mut scan = Scan::new();
            let mut idx: usize = 0;
            while idx < total
                invariant
                    idx <= total,
                    0 < total == possible_moves.len() <= 225,
                    total == g@.board.candidate_count(),
                    lists_candidates(possible_moves@, g@.board),
                    g@.wf(),
                    g@.state == GameState::InProgress(current_player),
                    idx <= scan.used_quota,
                    search_quota > 0 ==> scan.used_quota <= search_quota,
                    search_quota <= 0 ==> scan.used_quota == 0 && idx == 0,
                    search_quota >= total ==> search_quota - scan.used_quota >= total - idx,
                    scan.best_move matches Some(mv) ==> {
                        &&& g@.board.candidate(mv.0 as int, mv.1 as int)
                        &&& 0 <= scan.min_termination_depth < scan.used_quota
                    },
                    scan.best_move is None ==> {
                        &&& scan.best_move_depth == i64::MIN
                        &&& scan.min_termination_depth == i64::MAX
                        &&& forall|k: int|
                            0 <= k < idx ==> refuted(
                                g@,
                                (#[trigger] possible_moves@[k]).0 as int,
                                possible_moves@[k].1 as int,
                            )
                    },
                    forall|k: int|
                        0 <= k < idx ==> !wins_at_once(
                            g@,
                            (#[trigger] possible_moves@[k]).0 as int,
                            possible_moves@[k].1 as int,
                        ),
                decreases total - idx,
            {
                if scan.used_quota >= search_quota {
                    return SearchResult {
                        used_quota: scan.used_quota,
                        best_move: possible_moves[0],
                        outcome: SearchOutcome::Indeterminate { depth: 0 },
                    };
                }
                let (i, j) = possible_moves[idx];
                let mut new_g = g.clone();
                new_g.place_piece(i, j).unwrap();
                scan.used_quota += 1;
                match new_g.get_state() {
                    GameState::InProgress(_) => {
                        let share = quota_share(search_quota, scan.used_quota, total, idx);
                        proof {
                            use_type_invariant(&new_g);
                            lemma_has_candidate(new_g@, i as int, j as int);
                            lemma_share_bounds(search_quota - scan.used_quota, total - idx);
                        }
                        let reply = Self::search(&new_g, share, rng);
                        proof {
                            if reply.outcome is Win {
                                lemma_winning_move_wins(
                                    new_g@,
                                    reply.best_move.0 as int,
                                    reply.best_move.1 as int,
                                );
                            }
                        }
                        if let Some(found) = scan.absorb((i, j), reply) {
                            return found;
                        }
                    },
                    GameState::Winner(p) => {
                        if p == current_player {
                            return SearchResult {
                                used_quota: scan.used_quota,
                                best_move: (i, j),
                                outcome: SearchOutcome::Win,
                            };
                        }
                    },
                    GameState::Tie => {},
                }
                idx += 1;
            }
            proof {
                if scan.best_move is None {
                    assert forall|i: int, j: int| #[trigger]
                        g@.board.candidate(i, j) implies refuted(g@, i, j) by {
                        let k = choose|k: int|
                            0 <= k < possible_moves@.len() && possible_moves@[k] == (
                                i as i32,
                                j as i32,
                            );
                        assert(refuted(
                            g@,
                            possible_moves@[k].0 as int,
                            possible_moves@[k].1 as int,
                        ));
                    }
                    lemma_all_refuted_loses(g@);
                }
                if exists|i: int, j: int| #[trigger] wins_at_once(g@, i, j) {
                    let (i, j) = choose|i: int, j: int| #[trigger] wins_at_once(g@, i, j);
                    let k = choose|k: int|
                        0 <= k < possible_moves@.len() && possible_moves@[k] == (
                            i as i32,
                            j as i32,
                        );
                    assert(!wins_at_once(
                        g@,
                        possible_moves@[k].0 as int,
                        possible_moves@[k].1 as int,
                    ));
                }
            }
            scan.finish(possible_moves[0])
        } else {
            vstd::pervasive::unreached()
        }
    }
}

impl Ai for SmartAi {
    /// The search needs a game in progress with a candidate move, so with a piece on
    /// the board: on the empty board it has nothing to look at.
    open spec fn accepts(&self, g: &Game) -> bool {
        &&& g@.state is InProgress
        &&& exists|i: int, j: int| #[trigger] g@.board.candidate(i, j)
    }

    fn is_ready(&self, g: &Game) -> (ready: bool) {
        if in_progress(g) {
            let cells = candidate_moves(g);
            proof {
                if cells.len() > 0 {
                    assert(g@.board.candidate(cells@[0].0 as int, cells@[0].1 as int));
                }
                if exists|i: int, j: int| #[trigger] g@.board.candidate(i, j) {
                    let (i, j) = choose|i: int, j: int| #[trigger] g@.board.candidate(i, j);
                    assert(cells@.contains((i as i32, j as i32)));
                }
            }
            cells.len() > 0
        } else {
            false
        }
    }

    /// The move that [`SmartAi::search`] proposes with the quota of this strategy.
    fn get_move(&self, g: &Game) -> (mv: (i32, i32))
        ensures
            g@.board.candidate(mv.0 as int, mv.1 as int),
            self.quota() >= g@.board.candidate_count() && (exists|i: int, j: int| #[trigger]
                wins_at_once(g@, i, j)) ==> winning_move(g@, mv.0 as int, mv.1 as int),
    {
        let mut rng = thread_rng();
        let search_result = Self::search(g, self.search_quota, &mut rng);
        search_result.best_move
    }
}

} // verus!
