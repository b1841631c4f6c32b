//! The mathematical model of a game: which cells hold a piece, what state the game
//! is in, and how a placement changes both.

use crate::game::{GameState, Player};
use vstd::prelude::*;

verus! {

/// Whether `(i, j)` names a cell of the board.
pub open spec fn on_board(i: int, j: int) -> bool {
    0 <= i < 15 && 0 <= j < 15
}

/// The pieces on the board: a map from the occupied cells to their owners.
#[verifier::ext_equal]
pub struct Board {
    pub stones: Map<(int, int), Player>,
}

impl Board {
    /// The board without any piece.
    pub open spec fn empty() -> Board {
        Board { stones: Map::empty() }
    }

    /// What `(i, j)` holds. Coordinates that name no cell hold nothing.
    pub open spec fn cell(self, i: int, j: int) -> Option<Player> {
        if self.stones.dom().contains((i, j)) {
            Some(self.stones[(i, j)])
        } else {
            None
        }
    }

    /// Every piece lies on a cell of the board.
    pub open spec fn wf(self) -> bool {
        forall|i: int, j: int| #[trigger] self.stones.dom().contains((i, j)) ==> on_board(i, j)
    }

    /// The board with a piece of `p` on `(i, j)`.
    pub open spec fn put(self, i: int, j: int, p: Player) -> Board {
        Board { stones: self.stones.insert((i, j), p) }
    }

    /// `(i, j)` is a free cell of the board.
    pub open spec fn free(self, i: int, j: int) -> bool {
        on_board(i, j) && self.cell(i, j) is None
    }

    /// No cell of the board is free.
    pub open spec fn full(self) -> bool {
        forall|i: int, j: int| on_board(i, j) ==> #[trigger] self.cell(i, j) is Some
    }

    /// The five cells that start at `(i, j)` and go on in steps of `(di, dj)` all
    /// hold a piece of `p`.
    pub open spec fn run(self, p: Player, i: int, j: int, di: int, dj: int) -> bool {
        &&& self.cell(i, j) == Some(p)
        &&& self.cell(i + di, j + dj) == Some(p)
        &&& self.cell(i + 2 * di, j + 2 * dj) == Some(p)
        &&& self.cell(i + 3 * di, j + 3 * dj) == Some(p)
        &&& self.cell(i + 4 * di, j + 4 * dj) == Some(p)
    }

    /// A run of `p` starts at `(i, j)` and goes on along the first coordinate, along
    /// the second, or along one of the two diagonals.
    pub open spec fn run_from(self, p: Player, i: int, j: int) -> bool {
        ||| self.run(p, i, j, 1, 0)
        ||| self.run(p, i, j, 0, 1)
        ||| self.run(p, i, j, 1, 1)
        ||| self.run(p, i, j, 1, -1)
    }

    /// `p` has five in a row somewhere.
    pub open spec fn has_run(self, p: Player) -> bool {
        exists|i: int, j: int| #[trigger] self.run_from(p, i, j)
    }

    /// The owner of `(i, j)` has a run that starts there.
    pub open spec fn run_starts_at(self, i: int, j: int) -> bool {
        match self.cell(i, j) {
            Some(p) => self.run_from(p, i, j),
            None => false,
        }
    }

    /// One of the eight cells around `(i, j)` holds a piece.
    pub open spec fn has_neighbour(self, i: int, j: int) -> bool {
        ||| self.cell(i - 1, j - 1) is Some
        ||| self.cell(i - 1, j) is Some
        ||| self.cell(i - 1, j + 1) is Some
        ||| self.cell(i, j - 1) is Some
        ||| self.cell(i, j + 1) is Some
        ||| self.cell(i + 1, j - 1) is Some
        ||| self.cell(i + 1, j) is Some
        ||| self.cell(i + 1, j + 1) is Some
    }

    /// A candidate move: a free cell of the board with a piece next to it.
    pub open spec fn candidate(self, i: int, j: int) -> bool {
        self.free(i, j) && self.has_neighbour(i, j)
    }

    /// How many of the first `k` cells, counted row by row, are free.
    pub open spec fn free_upto(self, k: int) -> nat
        decreases k,
    {
        if k <= 0 {
            0
        } else {
            self.free_upto(k - 1) + if self.free((k - 1) / 15, (k - 1) % 15) {
                1nat
            } else {
                0nat
            }
        }
    }

    /// The number of free cells.
    pub open spec fn vacancies(self) -> nat {
        self.free_upto(225)
    }

    /// How many of the first `k` cells, counted row by row, are candidates.
    pub open spec fn candidates_upto(self, k: int) -> nat
        decreases k,
    {
        if k <= 0 {
            0
        } else {
            self.candidates_upto(k - 1) + if self.candidate((k - 1) / 15, (k - 1) % 15) {
                1nat
            } else {
                0nat
            }
        }
    }

    /// The number of candidate moves.
    pub open spec fn candidate_count(self) -> nat {
        self.candidates_upto(225)
    }

    /// How many of the first `k` cells, counted row by row, hold a piece of `p`.
    pub open spec fn pieces_upto(self, p: Player, k: int) -> nat
        decreases k,
    {
        if k <= 0 {
            0
        } else {
            self.pieces_upto(p, k - 1) + if self.cell((k - 1) / 15, (k - 1) % 15) == Some(p) {
                1nat
            } else {
                0nat
            }
        }
    }

    /// The number of pieces of `p` on the board.
    pub open spec fn pieces(self, p: Player) -> nat {
        self.pieces_upto(p, 225)
    }

    /// The pieces were placed in turn, Black first, and `next` would place the next
    /// one: Black, if both have as many pieces, and White, if Black has one more.
    pub open spec fn in_turn(self, next: Player) -> bool {
        self.pieces(Player::Black) == self.pieces(Player::White) + if next == Player::White {
            1nat
        } else {
            0nat
        }
    }

    /// The state of the game once `mover` has placed a piece and the board is `self`:
    /// won by `mover` with five in a row, else a tie if the board is full, else in
    /// progress with the other player to move.
    pub open spec fn outcome(self, mover: Player) -> GameState {
        if self.has_run(mover) {
            GameState::Winner(mover)
        } else if self.full() {
            GameState::Tie
        } else {
            GameState::InProgress(mover.opponent())
        }
    }
}

/// A game as a value: the board and the state.
#[verifier::ext_equal]
pub struct Position {
    pub board: Board,
    pub state: GameState,
}

impl Position {
    /// The position before the first move.
    pub open spec fn initial() -> Position {
        Position { board: Board::empty(), state: GameState::InProgress(Player::Black) }
    }

    /// The state agrees with the board. While the game is in progress, nobody has a
    /// run, a cell is free, and the player to move is the one whose turn it is by
    /// the count of the pieces. A winner has a run, the other player has none, and
    /// the winner was the last to place. A tie is a full board without a run.
    pub open spec fn wf(self) -> bool {
        &&& self.board.wf()
        &&& match self.state {
            GameState::InProgress(p) => {
                &&& !self.board.has_run(Player::White)
                &&& !self.board.has_run(Player::Black)
                &&& !self.board.full()
                &&& self.board.in_turn(p)
            },
            GameState::Winner(p) => {
                &&& self.board.has_run(p)
                &&& !self.board.has_run(p.opponent())
                &&& self.board.in_turn(p.opponent())
            },
            GameState::Tie => {
                &&& !self.board.has_run(Player::White)
                &&& !self.board.has_run(Player::Black)
                &&& self.board.full()
                &&& (self.board.in_turn(Player::White) || self.board.in_turn(Player::Black))
            },
        }
    }

    /// A piece may be placed on `(i, j)`: the game is in progress and `(i, j)` is a
    /// free cell of the board.
    pub open spec fn legal(self, i: int, j: int) -> bool {
        self.state is InProgress && self.board.free(i, j)
    }

    /// The player to move, while the game is in progress.
    pub open spec fn mover(self) -> Player
        recommends
            self.state is InProgress,
    {
        self.state->InProgress_0
    }

    /// The position after the player to move has placed a piece on `(i, j)`.
    pub open spec fn place(self, i: int, j: int) -> Position
        recommends
            self.legal(i, j),
    {
        let board = self.board.put(i, j, self.mover());
        Position { board, state: board.outcome(self.mover()) }
    }

    /// A piece may be placed on `(i, j)`, and the game is not won by it.
    pub open spec fn safe(self, i: int, j: int) -> bool {
        self.legal(i, j) && !(self.place(i, j).state is Winner)
    }
}

/// The empty board holds no piece of anybody.
pub proof fn lemma_empty_board_pieces(p: Player, k: int)
    ensures
        Board::empty().pieces_upto(p, k) == 0,
    decreases k,
{
    if k > 0 {
        lemma_empty_board_pieces(p, k - 1);
    }
}

/// The position before the first move is well-formed.
pub proof fn lemma_initial_wf()
    ensures
        Position::initial().wf(),
{
    lemma_empty_board_pieces(Player::Black, 225);
    lemma_empty_board_pieces(Player::White, 225);
    assert(on_board(0, 0) && Board::empty().cell(0, 0) is None);
}

/// A placement on a free cell leaves the other player's runs as they were: any run
/// of `q` on the new board was there before.
pub proof fn lemma_put_keeps_runs(board: Board, i: int, j: int, p: Player, q: Player)
    requires
        board.cell(i, j) is None,
        p != q,
        board.put(i, j, p).has_run(q),
    ensures
        board.has_run(q),
{
    let after = board.put(i, j, p);
    let (a, c) = choose|a: int, c: int| #[trigger] after.run_from(q, a, c);
    assert(board.run_from(q, a, c));
}

/// A piece on a free cell of the board takes one from the free cells among the first
/// `k`, if the cell is one of them.
pub proof fn lemma_put_free_upto(board: Board, i: int, j: int, p: Player, k: int)
    requires
        board.free(i, j),
        0 <= k <= 225,
    ensures
        board.put(i, j, p).free_upto(k) + (if 15 * i + j < k {
            1nat
        } else {
            0nat
        }) == board.free_upto(k),
    decreases k,
{
    if k > 0 {
        lemma_put_free_upto(board, i, j, p, k - 1);
        let a = (k - 1) / 15;
        let c = (k - 1) % 15;
        assert((a == i && c == j) <==> 15 * i + j == k - 1);
    }
}

/// Each placement on a free cell of the board leaves one free cell fewer.
pub proof fn lemma_put_vacancies(board: Board, i: int, j: int, p: Player)
    requires
        board.free(i, j),
    ensures
        board.put(i, j, p).vacancies() + 1 == board.vacancies(),
{
    lemma_put_free_upto(board, i, j, p, 225);
}

/// A piece of `p` on a free cell of the board adds one to the pieces of `p` among
/// the first `k` cells, if the cell is one of them, and leaves the pieces of the
/// other player as they were.
pub proof fn lemma_put_pieces_upto(board: Board, i: int, j: int, p: Player, q: Player, k: int)
    requires
        board.free(i, j),
        0 <= k <= 225,
    ensures
        board.put(i, j, p).pieces_upto(q, k) == board.pieces_upto(q, k) + (if q == p && 15 * i + j
            < k {
            1nat
        } else {
            0nat
        }),
    decreases k,
{
    if k > 0 {
        lemma_put_pieces_upto(board, i, j, p, q, k - 1);
        let a = (k - 1) / 15;
        let c = (k - 1) % 15;
        assert((a == i && c == j) <==> 15 * i + j == k - 1);
    }
}

/// After a placement in turn it is the other player's turn.
pub proof fn lemma_put_in_turn(board: Board, i: int, j: int, p: Player)
    requires
        board.free(i, j),
        board.in_turn(p),
    ensures
        board.put(i, j, p).in_turn(p.opponent()),
{
    lemma_put_pieces_upto(board, i, j, p, Player::Black, 225);
    lemma_put_pieces_upto(board, i, j, p, Player::White, 225);
}

/// A legal placement leads from a well-formed position to a well-formed position.
pub proof fn lemma_place_wf(pos: Position, i: int, j: int)
    requires
        pos.wf(),
        pos.legal(i, j),
    ensures
        pos.place(i, j).wf(),
{
    let p = pos.mover();
    let q = p.opponent();
    let after = pos.board.put(i, j, p);
    if after.has_run(q) {
        lemma_put_keeps_runs(pos.board, i, j, p, q);
    }
    lemma_put_in_turn(pos.board, i, j, p);
}

/// Between a piece and a free cell of the board lies a candidate move.
pub proof fn lemma_candidate_between(board: Board, a: int, c: int, x: int, y: int)
    requires
        board.wf(),
        board.cell(a, c) is Some,
        board.free(x, y),
    ensures
        exists|i: int, j: int| #[trigger] board.candidate(i, j),
    decreases (if x >= a { x - a } else { a - x }) + (if y >= c { y - c } else { c - y }),
{
    let a2 = if x > a { a + 1 } else if x < a { a - 1 } else { a };
    let c2 = if y > c { c + 1 } else if y < c { c - 1 } else { c };
    if board.cell(a2, c2) is None {
        assert(board.candidate(a2, c2));
    } else {
        lemma_candidate_between(board, a2, c2, x, y);
    }
}

/// A well-formed position in progress with a piece on the board has a candidate
/// move.
pub proof fn lemma_has_candidate(pos: Position, a: int, c: int)
    requires
        pos.wf(),
        pos.state is InProgress,
        pos.board.cell(a, c) is Some,
    ensures
        exists|i: int, j: int| #[trigger] pos.board.candidate(i, j),
{
    let (x, y) = choose|x: int, y: int| on_board(x, y) && !(#[trigger] pos.board.cell(x, y) is Some);
    lemma_candidate_between(pos.board, a, c, x, y);
}

} // verus!
