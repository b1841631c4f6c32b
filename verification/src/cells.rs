//! Lists of cells, as the strategies go through them.

use crate::game::{Game, BOARD_SIZE};
use crate::position::Board;
use vstd::prelude::*;

verus! {

/// The cells of `cells` come row by row, and within a row in the order of the second
/// coordinate; none comes twice.
pub open spec fn row_major(cells: Seq<(i32, i32)>) -> bool {
    forall|k: int, l: int|
        0 <= k < l < cells.len() ==> 15 * (#[trigger] cells[k]).0 + cells[k].1 < 15 * (
        #[trigger] cells[l]).0 + cells[l].1
}

/// `cells` holds the free cells of the board and nothing else.
pub open spec fn lists_free_cells(cells: Seq<(i32, i32)>, board: Board) -> bool {
    &&& forall|k: int|
        0 <= k < cells.len() ==> board.free((#[trigger] cells[k]).0 as int, cells[k].1 as int)
    &&& forall|i: int, j: int| #[trigger] board.free(i, j) ==> cells.contains((i as i32, j as i32))
}

/// `cells` holds the candidate moves of the board and nothing else.
pub open spec fn lists_candidates(cells: Seq<(i32, i32)>, board: Board) -> bool {
    &&& forall|k: int|
        0 <= k < cells.len() ==> board.candidate((#[trigger] cells[k]).0 as int, cells[k].1 as int)
    &&& forall|i: int, j: int| #[trigger]
        board.candidate(i, j) ==> cells.contains((i as i32, j as i32))
}

/// A list of the candidates stays one when its items change places, and keeps its
/// length.
pub proof fn lemma_reordered_candidates(
    listed: Seq<(i32, i32)>,
    reordered: Seq<(i32, i32)>,
    board: Board,
)
    requires
        lists_candidates(listed, board),
        listed.to_multiset() == reordered.to_multiset(),
    ensures
        lists_candidates(reordered, board),
        reordered.len() == listed.len(),
{
    vstd::seq_lib::to_multiset_len(listed);
    vstd::seq_lib::to_multiset_len(reordered);
    assert forall|x: (i32, i32)| listed.contains(x) <==> reordered.contains(x) by {
        vstd::seq_lib::to_multiset_contains(listed, x);
        vstd::seq_lib::to_multiset_contains(reordered, x);
    }
    assert forall|k: int| 0 <= k < reordered.len() implies board.candidate(
        (#[trigger] reordered[k]).0 as int,
        reordered[k].1 as int,
    ) by {
        assert(reordered.contains(reordered[k]));
        let l = choose|l: int| 0 <= l < listed.len() && listed[l] == reordered[k];
    }
    assert forall|i: int, j: int| #[trigger] board.candidate(i, j) implies reordered.contains(
        (i as i32, j as i32),
    ) by {
    }
}

/// The free cells of the board, row by row.
pub fn empty_cells(g: &Game) -> (cells: Vec<(i32, i32)>)
    ensures
        lists_free_cells(cells@, g@.board),
        row_major(cells@),
        cells.len() == g@.board.vacancies(),
        cells.len() <= 225,
{
    let mut cells: Vec<(i32, i32)> = Vec::new();
    let mut i: i32 = 0;
    while i < BOARD_SIZE
        invariant
            0 <= i <= BOARD_SIZE,
            forall|k: int|
                0 <= k < cells.len() ==> g@.board.free(
                    (#[trigger] cells[k]).0 as int,
                    cells[k].1 as int,
                ) && cells[k].0 < i,
            forall|a: int, c: int|
                0 <= a < i && #[trigger] g@.board.free(a, c) ==> cells@.contains(
                    (a as i32, c as i32),
                ),
            row_major(cells@),
            cells.len() == g@.board.free_upto(15 * i),
            cells.len() <= 15 * i,
        decreases BOARD_SIZE - i,
    {
        let mut j: i32 = 0;
        while j < BOARD_SIZE
            invariant
                0 <= i < BOARD_SIZE,
                0 <= j <= BOARD_SIZE,
                forall|k: int|
                    0 <= k < cells.len() ==> g@.board.free(
                        (#[trigger] cells[k]).0 as int,
                        cells[k].1 as int,
                    ) && (cells[k].0 < i || (cells[k].0 == i && cells[k].1 < j)),
                forall|a: int, c: int|
                    (0 <= a < i || (a == i && c < j)) && #[trigger] g@.board.free(a, c)
                        ==> cells@.contains((a as i32, c as i32)),
                row_major(cells@),
                cells.len() == g@.board.free_upto(15 * i + j),
                cells.len() <= 15 * i + j,
            decreases BOARD_SIZE - j,
        {
            let ghost before = cells@;
            if g.get_cell(i, j).is_none() {
                cells.push((i, j));
                proof {
                    assert(cells@[before.len() as int] == (i, j));
                    assert forall|a: int, c: int|
                        (0 <= a < i || (a == i && c < j + 1)) && #[trigger] g@.board.free(
                            a,
                            c,
                        ) implies cells@.contains((a as i32, c as i32)) by {
                        if a == i && c == j {
                        } else {
                            let k = choose|k: int|
                                0 <= k < before.len() && before[k] == (a as i32, c as i32);
                            assert(cells@[k] == (a as i32, c as i32));
                        }
                    }
                }
            }
            j += 1;
        }
        i += 1;
    }
    cells
}

/// The candidate moves, row by row: the free cells with a piece next to them.
pub fn candidate_moves(g: &Game) -> (cells: Vec<(i32, i32)>)
    ensures
        lists_candidates(cells@, g@.board),
        row_major(cells@),
        cells.len() == g@.board.candidate_count(),
        cells.len() <= 225,
{
    let mut cells: Vec<(i32, i32)> = Vec::new();
    let mut i: i32 = 0;
    while i < BOARD_SIZE
        invariant
            0 <= i <= BOARD_SIZE,
            forall|k: int|
                0 <= k < cells.len() ==> g@.board.candidate(
                    (#[trigger] cells[k]).0 as int,
                    cells[k].1 as int,
                ) && cells[k].0 < i,
            forall|a: int, c: int|
                0 <= a < i && #[trigger] g@.board.candidate(a, c) ==> cells@.contains(
                    (a as i32, c as i32),
                ),
            row_major(cells@),
            cells.len() == g@.board.candidates_upto(15 * i),
            cells.len() <= 15 * i,
        decreases BOARD_SIZE - i,
    {
        let mut j: i32 = 0;
        while j < BOARD_SIZE
            invariant
                0 <= i < BOARD_SIZE,
                0 <= j <= BOARD_SIZE,
                forall|k: int|
                    0 <= k < cells.len() ==> g@.board.candidate(
                        (#[trigger] cells[k]).0 as int,
                        cells[k].1 as int,
                    ) && (cells[k].0 < i || (cells[k].0 == i && cells[k].1 < j)),
                forall|a: int, c: int|
                    (0 <= a < i || (a == i && c < j)) && #[trigger] g@.board.candidate(a, c)
                        ==> cells@.contains((a as i32, c as i32)),
                row_major(cells@),
                cells.len() == g@.board.candidates_upto(15 * i + j),
                cells.len() <= 15 * i + j,
            decreases BOARD_SIZE - j,
        {
            let ghost before = cells@;
            if g.get_cell(i, j).is_none() && (g.get_cell(i - 1, j - 1).is_some() || g.get_cell(
                i - 1,
                j,
            ).is_some() || g.get_cell(i - 1, j + 1).is_some() || g.get_cell(i, j - 1).is_some()
                || g.get_cell(i, j + 1).is_some() || g.get_cell(i + 1, j - 1).is_some()
                || g.get_cell(i + 1, j).is_some() || g.get_cell(i + 1, j + 1).is_some()) {
                cells.push((i, j));
                proof {
                    assert(cells@[before.len() as int] == (i, j));
                    assert forall|a: int, c: int|
                        (0 <= a < i || (a == i && c < j + 1)) && #[trigger] g@.board.candidate(
                            a,
                            c,
                        ) implies cells@.contains((a as i32, c as i32)) by {
                        if a == i && c == j {
                        } else {
                            let k = choose|k: int|
                                0 <= k < before.len() && before[k] == (a as i32, c as i32);
                            assert(cells@[k] == (a as i32, c as i32));
                        }
                    }
                }
            }
            j += 1;
        }
        i += 1;
    }
    cells
}

} // verus!
