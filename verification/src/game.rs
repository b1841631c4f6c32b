//! The game itself: the board, whose turn it is, and the one operation that changes
//! them.

use crate::position::{lemma_initial_wf, lemma_place_wf, on_board, Board, Position};
use vstd::prelude::*;

verus! {

/// The side length of the board.
pub const BOARD_SIZE: i32 = 15;

const BOARD_SIZE_UZ: usize = 15;

/// The two players. Black moves first.
#[derive(Clone, Copy, Debug, PartialEq, Eq, Structural)]
pub enum Player {
    White,
    Black,
}

impl Player {
    /// The other player.
    pub open spec fn opponent(self) -> Player {
        match self {
            Player::White => Player::Black,
            Player::Black => Player::White,
        }
    }

    /// The other player.
    #[verifier::when_used_as_spec(opponent)]
    pub fn other(self) -> (r: Player)
        ensures
            r == self.opponent(),
            r != self,
            r.opponent() == self,
    {
        match self {
            Self::White => Self::Black,
            Self::Black => Self::White,
        }
    }
}

/// What a cell holds: nothing, or a piece of one player.
pub type Cell = Option<Player>;

/// Where a game stands.
#[derive(Clone, Copy, Debug, PartialEq, Eq, Structural)]
pub enum GameState {
    /// The game goes on, and it is this player's turn.
    InProgress(Player),
    /// This player has five in a row.
    Winner(Player),
    /// The board is full and nobody has five in a row.
    Tie,
}

/// Why a piece was not placed: the game is over, the cell is taken, or the
/// coordinates name no cell.
#[derive(Clone, Copy, Debug, PartialEq, Eq, Structural)]
pub struct IllegalMove;

type Grid = [[Cell; BOARD_SIZE_UZ]; BOARD_SIZE_UZ];

/// The pieces that a grid holds.
pub closed spec fn grid_board(grid: Grid) -> Board {
    Board {
        stones: Map::new(
            |c: (int, int)| on_board(c.0, c.1) && grid@[c.0]@[c.1] is Some,
            |c: (int, int)| grid@[c.0]@[c.1]->0,
        ),
    }
}

fn grid_cell(grid: &Grid, i: i32, j: i32) -> (c: Cell)
    ensures
        c == grid_board(*grid).cell(i as int, j as int),
{
    if 0 <= i && i < BOARD_SIZE && 0 <= j && j < BOARD_SIZE {
        grid[i as usize][j as usize]
    } else {
        None
    }
}

/// Whether the five cells from `(i, j)` in steps of `(di, dj)` all hold `p`.
fn grid_run(grid: &Grid, p: Player, i: i32, j: i32, di: i32, dj: i32) -> (r: bool)
    requires
        on_board(i as int, j as int),
        -1 <= di <= 1,
        -1 <= dj <= 1,
    ensures
        r == grid_board(*grid).run(p, i as int, j as int, di as int, dj as int),
{
    grid_cell(grid, i, j) == Some(p)
        && grid_cell(grid, i + di, j + dj) == Some(p)
        && grid_cell(grid, i + 2 * di, j + 2 * dj) == Some(p)
        && grid_cell(grid, i + 3 * di, j + 3 * dj) == Some(p)
        && grid_cell(grid, i + 4 * di, j + 4 * dj) == Some(p)
}

/// A game: the board and the state. Pieces are placed and never taken away, and a
/// game that is won or tied stays as it is.
#[derive(Copy)]
pub struct Game {
    board: Grid,
    state: GameState,
}

impl Clone for Game {
    /// A copy of the game. The copy and the game share nothing: what is placed on
    /// one does not show on the other.
    fn clone(&self) -> (copy: Self)
        ensures
            copy == *self,
    {
        *self
    }
}

impl View for Game {
    type V = Position;

    closed spec fn view(&self) -> Position {
        Position { board: grid_board(self.board), state: self.state }
    }
}

impl Game {
    /// What holds of every game: its state agrees with its board.
    #[verifier::type_invariant]
    pub open spec fn well_formed(&self) -> bool {
        self@.wf()
    }

    /// A game before the first move: no piece on the board, Black to move.
    pub fn new() -> (g: Self)
        ensures
            g@ == Position::initial(),
    {
        let board: Grid = [[None; BOARD_SIZE_UZ]; BOARD_SIZE_UZ];
        proof {
            assert(grid_board(board) =~= Board::empty());
            lemma_initial_wf();
        }
        Self { board, state: GameState::InProgress(Player::Black) }
    }

    /// What the cell `(i, j)` holds. Coordinates outside the board hold nothing.
    pub fn get_cell(&self, i: i32, j: i32) -> (c: Cell)
        ensures
            c == self@.board.cell(i as int, j as int),
            !on_board(i as int, j as int) ==> c is None,
    {
        proof {
            use_type_invariant(self);
        }
        grid_cell(&self.board, i, j)
    }

    /// The state of the game.
    pub fn get_state(&self) -> (s: GameState)
        ensures
            s == self@.state,
    {
        self.state
    }

    /// The state that follows once `current_player` has placed a piece and the grid
    /// is `board`.
    fn calc_next_state(board: &Grid, current_player: Player) -> (s: GameState)
        requires
            !grid_board(*board).has_run(current_player.opponent()),
        ensures
            s == grid_board(*board).outcome(current_player),
    {
        let ghost b = grid_board(*board);
        let mut board_is_full = true;
        let mut i: i32 = 0;
        while i < BOARD_SIZE
            invariant
                0 <= i <= BOARD_SIZE,
                b == grid_board(*board),
                !b.has_run(current_player.opponent()),
                forall|a: int, c: int| 0 <= a < i && 0 <= c < 15 ==> !#[trigger] b.run_starts_at(a, c),
                board_is_full <==> forall|a: int, c: int|
                    0 <= a < i && 0 <= c < 15 ==> #[trigger] b.cell(a, c) is Some,
            decreases BOARD_SIZE - i,
        {
            let mut j: i32 = 0;
            while j < BOARD_SIZE
                invariant
                    0 <= i < BOARD_SIZE,
                    0 <= j <= BOARD_SIZE,
                    b == grid_board(*board),
                    !b.has_run(current_player.opponent()),
                    forall|a: int, c: int|
                        (0 <= a < i && 0 <= c < 15) || (a == i && 0 <= c < j)
                            ==> !#[trigger] b.run_starts_at(a, c),
                    board_is_full <==> forall|a: int, c: int|
                        (0 <= a < i && 0 <= c < 15) || (a == i && 0 <= c < j)
                            ==> #[trigger] b.cell(a, c) is Some,
                decreases BOARD_SIZE - j,
            {
                if let Some(player) = grid_cell(board, i, j) {
                    if grid_run(board, player, i, j, 1, 0) || grid_run(board, player, i, j, 0, 1)
                        || grid_run(board, player, i, j, 1, 1) || grid_run(
                        board,
                        player,
                        i,
                        j,
                        1,
                        -1,
                    ) {
                        assert(b.run_from(player, i as int, j as int));
                        return GameState::Winner(player);
                    }
                } else {
                    board_is_full = false;
                }
                j += 1;
            }
            i += 1;
        }
        proof {
            assert forall|p: Player| !b.has_run(p) by {
                if b.has_run(p) {
                    let (a, c) = choose|a: int, c: int| #[trigger] b.run_from(p, a, c);
                    assert(b.run_starts_at(a, c));
                }
            }
        }
        if board_is_full {
            GameState::Tie
        } else {
            GameState::InProgress(current_player.other())
        }
    }

    /// Places a piece of the player to move on `(i, j)`.
    ///
    /// The piece is placed exactly when the game is in progress and `(i, j)` is a
    /// free cell of the board; otherwise the game stays as it is. Once a piece is
    /// placed, the player who placed it has won if five of their pieces are in a
    /// row, the game is a tie if not and the board is full, and else it is the other
    /// player's turn.
    pub fn place_piece(&mut self, i: i32, j: i32) -> (r: Result<(), IllegalMove>)
        ensures
            r is Ok <==> old(self)@.legal(i as int, j as int),
            r is Ok ==> final(self)@ == old(self)@.place(i as int, j as int),
            r is Err ==> *final(self) == *old(self),
            // a game that is over takes no piece
            !(old(self)@.state is InProgress) ==> r is Err,
            // the turn passes to the other player
            r is Ok && final(self)@.state is InProgress ==> final(self)@.state
                == GameState::InProgress(old(self)@.mover().opponent()),
            // five in a row of the player who placed win the game, and nothing else does
            r is Ok && final(self)@.state is Winner ==> final(self)@.state == GameState::Winner(
                old(self)@.mover(),
            ),
            r is Ok ==> (final(self)@.state is Winner <==> final(self)@.board.has_run(
                old(self)@.mover(),
            )),
            // a full board without five in a row is a tie
            r is Ok ==> (final(self)@.state is Tie <==> final(self)@.board.full()
                && !final(self)@.board.has_run(old(self)@.mover())),
    {
        proof {
            use_type_invariant(&*self);
        }
        if let GameState::InProgress(current_player) = self.state {
            if 0 <= i && i < BOARD_SIZE && 0 <= j && j < BOARD_SIZE {
                let ui = i as usize;
                let uj = j as usize;
                if self.board[ui][uj].is_none() {
                    let mut board = self.board;
                    board[ui][uj] = Some(current_player);
                    proof {
                        assert(grid_board(board) =~= self@.board.put(
                            i as int,
                            j as int,
                            current_player,
                        ));
                        lemma_place_wf(self@, i as int, j as int);
                    }
                    let state = Self::calc_next_state(&board, current_player);
                    *self = Self { board, state };
                    return Ok(());
                }
            }
        }
        Err(IllegalMove)
    }
}

/// A copy goes its own way. Let `copy` be a clone of `game`, and `moved` the copy
/// after a piece was placed on its free cell `(i, j)`. Then the piece shows on
/// `moved` only: `game` is in the state it was in, its cell `(i, j)` is free, and
/// every other cell holds on both what it held before.
pub proof fn lemma_clone_goes_its_own_way(game: Game, copy: Game, moved: Game, i: int, j: int)
    requires
        copy == game,
        copy@.legal(i, j),
        moved@ == copy@.place(i, j),
    ensures
        moved@.board.cell(i, j) == Some(game@.mover()),
        game@.board.cell(i, j) is None,
        game@.state is InProgress,
        forall|a: int, c: int|
            (a, c) != (i, j) ==> moved@.board.cell(a, c) == #[trigger] game@.board.cell(a, c),
{
}

} // verus!
