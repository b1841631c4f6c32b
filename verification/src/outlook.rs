//! What the verdict of a search means: which positions count as won, and which as
//! lost, for the player to move.
//!
//! Both are judged over candidate moves only, as the search sees the game. A tie is
//! a dead end: it counts for neither player.

use crate::game::GameState;
use crate::position::{lemma_put_vacancies, Position};
use vstd::prelude::*;

verus! {

/// Placing on `(i, j)` wins the game on the spot.
pub open spec fn wins_at_once(pos: Position, i: int, j: int) -> bool {
    &&& pos.state is InProgress
    &&& pos.board.candidate(i, j)
    &&& pos.place(i, j).state == GameState::Winner(pos.mover())
}

/// The player to move has a winning move.
pub open spec fn won(pos: Position) -> bool
    decreases pos.board.vacancies(), 1nat,
{
    exists|i: int, j: int| #[trigger] pos.board.candidate(i, j) && winning_move(pos, i, j)
}

/// `(i, j)` is a winning move: a candidate that wins on the spot, or that leaves
/// the opponent to move in a lost position.
pub open spec fn winning_move(pos: Position, i: int, j: int) -> bool
    decreases pos.board.vacancies(), 0nat,
{
    &&& pos.state is InProgress
    &&& pos.board.candidate(i, j)
    &&& {
        let next = pos.place(i, j);
        proof {
            lemma_put_vacancies(pos.board, i, j, pos.mover());
        }
        ||| next.state == GameState::Winner(pos.mover())
        ||| next.state is InProgress && lost(next)
    }
}

/// The player to move has lost: no candidate wins on the spot, and each one that
/// leaves the game in progress hands the opponent a won position.
pub open spec fn lost(pos: Position) -> bool
    decreases pos.board.vacancies(), 1nat,
{
    forall|i: int, j: int| #[trigger] pos.board.candidate(i, j) ==> refuted(pos, i, j)
}

/// `(i, j)` does not help the player to move: it does not win on the spot, and if
/// the game goes on after it, the opponent is to move in a won position.
pub open spec fn refuted(pos: Position, i: int, j: int) -> bool
    decreases pos.board.vacancies(), 0nat,
{
    let next = pos.place(i, j);
    &&& next.state != GameState::Winner(pos.mover())
    &&& next.state is InProgress && pos.board.candidate(i, j) ==> {
        proof {
            lemma_put_vacancies(pos.board, i, j, pos.mover());
        }
        won(next)
    }
}

/// A winning move makes a won position.
pub proof fn lemma_winning_move_wins(pos: Position, i: int, j: int)
    requires
        winning_move(pos, i, j),
    ensures
        won(pos),
{
}

/// A position in which every candidate is refuted is lost.
pub proof fn lemma_all_refuted_loses(pos: Position)
    requires
        forall|i: int, j: int| #[trigger] pos.board.candidate(i, j) ==> refuted(pos, i, j),
    ensures
        lost(pos),
{
}

/// No position is both won and lost, so no search has grounds for both verdicts.
pub proof fn lemma_won_excludes_lost(pos: Position)
    ensures
        !(won(pos) && lost(pos)),
    decreases pos.board.vacancies(),
{
    if won(pos) && lost(pos) {
        let (i, j) = choose|i: int, j: int| #[trigger]
            pos.board.candidate(i, j) && winning_move(pos, i, j);
        assert(refuted(pos, i, j));
        lemma_put_vacancies(pos.board, i, j, pos.mover());
        lemma_won_excludes_lost(pos.place(i, j));
    }
}

} // verus!
