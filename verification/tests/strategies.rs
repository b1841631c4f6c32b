use gomoku::ai::{
    is_safe_move, random_empty_cell, Ai, NonconfrontationalAi, RandomAi, SmartAi, DRAW_LIMIT,
    SAFE_ATTEMPTS,
};
use gomoku::cells::{candidate_moves, empty_cells};
use gomoku::game::{Game, GameState, Player, BOARD_SIZE};
use gomoku::search::{quota_share, Scan, SearchOutcome, SearchResult};

fn play(moves: &[(i32, i32)]) -> Game {
    let mut game = Game::new();
    for &(i, j) in moves {
        assert_eq!(game.place_piece(i, j), Ok(()));
    }
    game
}

fn on_board(mv: (i32, i32)) -> bool {
    0 <= mv.0 && mv.0 < BOARD_SIZE && 0 <= mv.1 && mv.1 < BOARD_SIZE
}

/// Black has four in a row on row 7, open at both ends, and is to move.
fn black_to_win() -> Game {
    play(&[(7, 3), (0, 0), (7, 4), (0, 2), (7, 5), (0, 4), (7, 6), (0, 6)])
}

/// A game one move before the board is full, with nobody near five in a row, and
/// the last free cell.
fn almost_full() -> (Game, (i32, i32)) {
    let mut black = Vec::new();
    let mut white = Vec::new();
    for i in 0..BOARD_SIZE {
        for j in 0..BOARD_SIZE {
            if (i + 2 * j) % 4 < 2 {
                black.push((i, j));
            } else {
                white.push((i, j));
            }
        }
    }
    let mut game = Game::new();
    for k in 0..white.len() {
        assert_eq!(game.place_piece(black[k].0, black[k].1), Ok(()));
        assert_eq!(game.place_piece(white[k].0, white[k].1), Ok(()));
    }
    (game, black[112])
}

/// A game one move before the board is full, in which Black wins on the last free
/// cell, and that cell.
fn last_cell_wins() -> (Game, (i32, i32)) {
    let is_black = |i: i32, j: i32| match (i, j) {
        (2, 0) | (3, 0) => true,
        (0, 4) | (0, 8) => false,
        _ => (i + 2 * j) % 4 < 2,
    };
    let last = (2, 0);
    let mut black = Vec::new();
    let mut white = Vec::new();
    for i in 0..BOARD_SIZE {
        for j in 0..BOARD_SIZE {
            if (i, j) == last {
                continue;
            }
            if is_black(i, j) {
                black.push((i, j));
            } else {
                white.push((i, j));
            }
        }
    }
    assert_eq!(black.len(), 112);
    assert_eq!(white.len(), 112);
    let mut game = Game::new();
    for k in 0..112 {
        assert_eq!(game.place_piece(black[k].0, black[k].1), Ok(()));
        assert_eq!(game.get_state(), GameState::InProgress(Player::White));
        assert_eq!(game.place_piece(white[k].0, white[k].1), Ok(()));
        assert_eq!(game.get_state(), GameState::InProgress(Player::Black));
    }
    (game, last)
}

enum GameResult {
    Winner(Player),
    Tie,
}

fn run_game() -> GameResult {
    let ai_obj: RandomAi = RandomAi;
    let mut game = Game::new();
    loop {
        let (x, y) = ai_obj.get_move(&game);
        assert_eq!(game.place_piece(x, y), Ok(()));
        match game.get_state() {
            GameState::InProgress(_) => {}
            GameState::Winner(player) => return GameResult::Winner(player),
            GameState::Tie => return GameResult::Tie,
        }
    }
}

#[test]
fn test_game() {
    let mut white_win = 0;
    let mut black_win = 0;
    let mut tie = 0;
    for i in 1..=50000 {
        if i % 1000 == 0 {
            println!("run #{}", i);
        }
        match run_game() {
            GameResult::Winner(Player::White) => white_win += 1,
            GameResult::Winner(Player::Black) => black_win += 1,
            GameResult::Tie => tie += 1,
        }
    }
    println!("{} {} {}", white_win, black_win, tie);
    assert_eq!(white_win + black_win + tie, 50000);
}

#[test]
fn strategies_are_ready_while_the_game_is_in_progress() {
    let mut game = Game::new();
    assert!(RandomAi.is_ready(&game));
    assert!(NonconfrontationalAi.is_ready(&game));
    // the search has nothing to look at on the empty board
    assert!(!SmartAi::new(100).is_ready(&game));
    assert_eq!(game.place_piece(7, 7), Ok(()));
    assert!(RandomAi.is_ready(&game));
    assert!(NonconfrontationalAi.is_ready(&game));
    assert!(SmartAi::new(100).is_ready(&game));
    assert!(SmartAi::new(0).is_ready(&game));
}

#[test]
fn no_strategy_is_ready_once_the_game_is_over() {
    let mut won = black_to_win();
    assert_eq!(won.place_piece(7, 7), Ok(()));
    assert_eq!(won.get_state(), GameState::Winner(Player::Black));
    assert!(!RandomAi.is_ready(&won));
    assert!(!NonconfrontationalAi.is_ready(&won));
    assert!(!SmartAi::new(100).is_ready(&won));
    let (mut tied, last) = almost_full();
    assert!(SmartAi::new(100).is_ready(&tied));
    assert_eq!(tied.place_piece(last.0, last.1), Ok(()));
    assert_eq!(tied.get_state(), GameState::Tie);
    assert!(!RandomAi.is_ready(&tied));
    assert!(!NonconfrontationalAi.is_ready(&tied));
    assert!(!SmartAi::new(100).is_ready(&tied));
}

#[test]
fn the_limits_are_as_documented() {
    assert_eq!(SAFE_ATTEMPTS, 2000);
    assert_eq!(DRAW_LIMIT, 225);
}

#[test]
fn empty_cells_of_a_new_game_are_all_cells_row_by_row() {
    let cells = empty_cells(&Game::new());
    assert_eq!(cells.len(), 225);
    for (k, &(i, j)) in cells.iter().enumerate() {
        assert_eq!((i, j), (k as i32 / 15, k as i32 % 15));
    }
}

#[test]
fn empty_cells_leave_out_the_taken_ones() {
    let game = play(&[(0, 0), (0, 2), (14, 14)]);
    let cells = empty_cells(&game);
    assert_eq!(cells.len(), 222);
    assert_eq!(&cells[..3], &[(0, 1), (0, 3), (0, 4)]);
    assert_eq!(cells[221], (14, 13));
    assert!(!cells.contains(&(0, 0)));
    assert!(!cells.contains(&(0, 2)));
    assert!(!cells.contains(&(14, 14)));
}

#[test]
fn empty_cells_of_a_full_board_are_none() {
    let (mut game, last) = almost_full();
    assert_eq!(empty_cells(&game), vec![last]);
    assert_eq!(game.place_piece(last.0, last.1), Ok(()));
    assert_eq!(empty_cells(&game), vec![]);
}

#[test]
fn an_empty_board_has_no_candidates() {
    assert_eq!(candidate_moves(&Game::new()), vec![]);
}

#[test]
fn candidates_are_the_free_cells_around_the_pieces() {
    let game = play(&[(7, 7)]);
    assert_eq!(
        candidate_moves(&game),
        vec![(6, 6), (6, 7), (6, 8), (7, 6), (7, 8), (8, 6), (8, 7), (8, 8)]
    );
}

#[test]
fn candidates_in_a_corner_stay_on_the_board() {
    let game = play(&[(0, 0), (14, 14)]);
    assert_eq!(
        candidate_moves(&game),
        vec![(0, 1), (1, 0), (1, 1), (13, 13), (13, 14), (14, 13)]
    );
}

#[test]
fn candidates_leave_out_taken_cells_and_come_once() {
    let game = play(&[(7, 7), (7, 8)]);
    assert_eq!(
        candidate_moves(&game),
        vec![(6, 6), (6, 7), (6, 8), (6, 9), (7, 6), (7, 9), (8, 6), (8, 7), (8, 8), (8, 9)]
    );
}

#[test]
fn random_ai_proposes_a_free_cell_of_the_board() {
    let game = play(&[(7, 7), (7, 8), (0, 0), (14, 14)]);
    for _ in 0..2000 {
        let mv = RandomAi.get_move(&game);
        assert!(on_board(mv));
        assert_eq!(game.get_cell(mv.0, mv.1), None);
    }
}

#[test]
fn random_ai_reaches_many_cells() {
    let game = Game::new();
    let mut rows = [false; 15];
    let mut columns = [false; 15];
    for _ in 0..3000 {
        let mv = RandomAi.get_move(&game);
        assert!(on_board(mv));
        rows[mv.0 as usize] = true;
        columns[mv.1 as usize] = true;
    }
    assert!(rows.iter().all(|&seen| seen));
    assert!(columns.iter().all(|&seen| seen));
}

#[test]
fn random_ai_finds_the_last_free_cell() {
    let (game, last) = almost_full();
    for _ in 0..200 {
        assert_eq!(RandomAi.get_move(&game), last);
    }
}

#[test]
fn random_empty_cell_finds_the_last_free_cell() {
    let (game, last) = almost_full();
    let mut rng = rand::rng();
    for _ in 0..200 {
        assert_eq!(random_empty_cell(&game, &mut rng), last);
    }
}

#[test]
fn random_empty_cell_works_on_a_won_game_too() {
    let mut game = black_to_win();
    assert_eq!(game.place_piece(7, 7), Ok(()));
    assert_eq!(game.get_state(), GameState::Winner(Player::Black));
    let mut rng = rand::rng();
    for _ in 0..200 {
        let mv = random_empty_cell(&game, &mut rng);
        assert!(on_board(mv));
        assert_eq!(game.get_cell(mv.0, mv.1), None);
    }
}

#[test]
fn a_move_is_safe_unless_it_wins_or_is_illegal() {
    let game = black_to_win();
    assert!(!is_safe_move(&game, 7, 2));
    assert!(!is_safe_move(&game, 7, 7));
    assert!(is_safe_move(&game, 7, 8));
    assert!(is_safe_move(&game, 6, 2));
    assert!(is_safe_move(&game, 14, 14));
    // taken cells
    assert!(!is_safe_move(&game, 7, 3));
    assert!(!is_safe_move(&game, 0, 0));
    // outside the board
    assert!(!is_safe_move(&game, -1, 2));
    assert!(!is_safe_move(&game, 7, 15));
    assert!(!is_safe_move(&game, i32::MIN, i32::MAX));
}

#[test]
fn no_move_is_safe_in_a_finished_game() {
    let mut game = black_to_win();
    assert_eq!(game.place_piece(7, 7), Ok(()));
    for i in 0..BOARD_SIZE {
        for j in 0..BOARD_SIZE {
            assert!(!is_safe_move(&game, i, j));
        }
    }
}

#[test]
fn the_last_move_of_a_tie_is_safe() {
    let (game, last) = almost_full();
    assert!(is_safe_move(&game, last.0, last.1));
}

#[test]
fn is_safe_move_leaves_the_game_alone() {
    let game = black_to_win();
    assert!(!is_safe_move(&game, 7, 7));
    assert_eq!(game.get_cell(7, 7), None);
    assert_eq!(game.get_state(), GameState::InProgress(Player::Black));
}

#[test]
fn nonconfrontational_ai_never_takes_the_only_winning_cell() {
    // Black has four in a row with one end blocked: (7, 7) is the one cell that wins.
    let game = play(&[(7, 3), (7, 2), (7, 4), (0, 2), (7, 5), (0, 4), (7, 6), (0, 6)]);
    assert_eq!(game.get_state(), GameState::InProgress(Player::Black));
    let mut winning = Vec::new();
    for i in 0..BOARD_SIZE {
        for j in 0..BOARD_SIZE {
            let mut copy = game.clone();
            if copy.place_piece(i, j).is_ok() && copy.get_state() == GameState::Winner(Player::Black)
            {
                winning.push((i, j));
            }
        }
    }
    assert_eq!(winning, vec![(7, 7)]);
    for _ in 0..10_000 {
        let mv = NonconfrontationalAi.get_move(&game);
        assert!(on_board(mv));
        assert_eq!(game.get_cell(mv.0, mv.1), None);
        assert_ne!(mv, (7, 7));
    }
}

#[test]
fn nonconfrontational_ai_wins_when_nothing_else_is_left() {
    let (game, last) = last_cell_wins();
    assert_eq!(game.get_state(), GameState::InProgress(Player::Black));
    assert_eq!(empty_cells(&game), vec![last]);
    assert!(!is_safe_move(&game, last.0, last.1));
    let mut rng = rand::rng();
    assert_eq!(NonconfrontationalAi::safe_move(&game, &mut rng), None);
    for _ in 0..20 {
        assert_eq!(NonconfrontationalAi.get_move(&game), last);
    }
    let mut copy = game.clone();
    assert_eq!(copy.place_piece(last.0, last.1), Ok(()));
    assert_eq!(copy.get_state(), GameState::Winner(Player::Black));
}

#[test]
fn the_search_wins_on_the_last_cell() {
    let (game, last) = last_cell_wins();
    let mut rng = rand::rng();
    assert_eq!(
        SmartAi::search(&game, 1, &mut rng),
        SearchResult { used_quota: 1, best_move: last, outcome: SearchOutcome::Win }
    );
    assert_eq!(
        SmartAi::search(&game, 0, &mut rng),
        SearchResult {
            used_quota: 0,
            best_move: last,
            outcome: SearchOutcome::Indeterminate { depth: 0 }
        }
    );
    assert_eq!(SmartAi::new(1).get_move(&game), last);
}

#[test]
fn safe_move_finds_only_safe_moves() {
    let game = black_to_win();
    let mut rng = rand::rng();
    for _ in 0..500 {
        match NonconfrontationalAi::safe_move(&game, &mut rng) {
            Some(mv) => assert!(is_safe_move(&game, mv.0, mv.1)),
            None => panic!("two thousand draws found no safe cell on a nearly empty board"),
        }
    }
}

#[test]
fn safe_move_always_finds_a_move_on_the_empty_board() {
    // Every cell of the empty board is safe, so the first draw is taken.
    let game = Game::new();
    let mut rng = rand::rng();
    for _ in 0..2000 {
        let found = NonconfrontationalAi::safe_move(&game, &mut rng);
        let mv = found.expect("every cell of the empty board is safe");
        assert!(on_board(mv));
        assert!(is_safe_move(&game, mv.0, mv.1));
    }
}

#[test]
fn safe_move_finds_nothing_only_where_a_cell_is_not_safe() {
    let (game, last) = last_cell_wins();
    let mut rng = rand::rng();
    assert_eq!(NonconfrontationalAi::safe_move(&game, &mut rng), None);
    assert!(!is_safe_move(&game, last.0, last.1));
    assert!(!is_safe_move(&game, 0, 0));
}

#[test]
fn safe_move_gives_up_on_a_finished_game() {
    let mut game = black_to_win();
    assert_eq!(game.place_piece(7, 7), Ok(()));
    let mut rng = rand::rng();
    assert_eq!(NonconfrontationalAi::safe_move(&game, &mut rng), None);
}

#[test]
fn the_share_is_what_is_left_divided_among_those_that_wait() {
    assert_eq!(quota_share(10, 3, 5, 2), 2);
    assert_eq!(quota_share(10, 1, 3, 0), 3);
    assert_eq!(quota_share(10, 10, 3, 2), 0);
    assert_eq!(quota_share(100, 1, 8, 0), 12);
    assert_eq!(quota_share(100, 13, 8, 1), 12);
    assert_eq!(quota_share(100, 95, 8, 7), 5);
    assert_eq!(quota_share(7, 1, 7, 0), 0);
    assert_eq!(quota_share(i64::MAX, 0, 1, 0), i64::MAX);
}

#[test]
fn the_share_of_an_overdrawn_quota_rounds_towards_zero() {
    assert_eq!(quota_share(3, 10, 5, 2), -2);
    assert_eq!(quota_share(0, 1, 2, 0), 0);
    assert_eq!(quota_share(-5, 0, 2, 0), -2);
    assert_eq!(quota_share(0, i64::MAX, 1, 0), -i64::MAX);
}

#[test]
fn a_new_scan_has_seen_nothing() {
    let scan = Scan::new();
    assert_eq!(scan.used_quota, 0);
    assert_eq!(scan.best_move, None);
    assert_eq!(scan.min_termination_depth, i64::MAX);
    assert_eq!(scan.best_move_depth, i64::MIN);
}

#[test]
fn a_scan_without_an_indeterminate_reply_ends_in_a_loss() {
    let mut scan = Scan::new();
    scan.used_quota = 4;
    assert_eq!(
        scan.finish((3, 4)),
        SearchResult { used_quota: 4, best_move: (3, 4), outcome: SearchOutcome::Loss }
    );
    let reply = SearchResult { used_quota: 5, best_move: (1, 1), outcome: SearchOutcome::Win };
    assert_eq!(scan.absorb((9, 9), reply), None);
    assert_eq!(scan.used_quota, 9);
    assert_eq!(scan.best_move, None);
    assert_eq!(
        scan.finish((3, 4)),
        SearchResult { used_quota: 9, best_move: (3, 4), outcome: SearchOutcome::Loss }
    );
}

#[test]
fn a_lost_reply_ends_the_scan_with_a_win() {
    let mut scan = Scan::new();
    scan.used_quota = 2;
    let reply = SearchResult { used_quota: 7, best_move: (1, 1), outcome: SearchOutcome::Loss };
    assert_eq!(
        scan.absorb((5, 6), reply),
        Some(SearchResult { used_quota: 9, best_move: (5, 6), outcome: SearchOutcome::Win })
    );
    assert_eq!(scan.used_quota, 9);
    assert_eq!(scan.best_move, None);
}

#[test]
fn a_scan_keeps_the_deepest_reply_and_reports_the_shallowest_depth() {
    let mut scan = Scan::new();
    scan.used_quota = 1;
    let reply = |used_quota, depth| SearchResult {
        used_quota,
        best_move: (0, 0),
        outcome: SearchOutcome::Indeterminate { depth },
    };
    assert_eq!(scan.absorb((1, 1), reply(3, 2)), None);
    assert_eq!(scan.used_quota, 4);
    assert_eq!(scan.best_move, Some((1, 1)));
    assert_eq!(scan.best_move_depth, 2);
    assert_eq!(scan.min_termination_depth, 2);
    assert_eq!(
        scan.finish((8, 8)),
        SearchResult {
            used_quota: 4,
            best_move: (1, 1),
            outcome: SearchOutcome::Indeterminate { depth: 3 }
        }
    );

    assert_eq!(scan.absorb((2, 2), reply(6, 5)), None);
    assert_eq!(scan.used_quota, 10);
    assert_eq!(scan.best_move, Some((2, 2)));
    assert_eq!(scan.best_move_depth, 5);
    assert_eq!(scan.min_termination_depth, 2);

    assert_eq!(scan.absorb((3, 3), reply(0, 0)), None);
    assert_eq!(scan.used_quota, 10);
    assert_eq!(scan.best_move, Some((2, 2)));
    assert_eq!(scan.best_move_depth, 5);
    assert_eq!(scan.min_termination_depth, 0);

    // an equal depth does not replace the best move
    assert_eq!(scan.absorb((4, 4), reply(1, 5)), None);
    assert_eq!(scan.best_move, Some((2, 2)));
    assert_eq!(
        scan.finish((8, 8)),
        SearchResult {
            used_quota: 11,
            best_move: (2, 2),
            outcome: SearchOutcome::Indeterminate { depth: 1 }
        }
    );
}

#[test]
fn without_quota_the_search_proposes_a_candidate_and_evaluates_nothing() {
    let game = play(&[(7, 7), (7, 8), (8, 8)]);
    let candidates = candidate_moves(&game);
    let mut rng = rand::rng();
    for quota in [0, -1, -1000, i64::MIN] {
        for _ in 0..50 {
            let result = SmartAi::search(&game, quota, &mut rng);
            assert_eq!(result.used_quota, 0);
            assert_eq!(result.outcome, SearchOutcome::Indeterminate { depth: 0 });
            assert!(candidates.contains(&result.best_move));
        }
    }
    for _ in 0..50 {
        let mv = SmartAi::new(0).get_move(&game);
        assert!(candidates.contains(&mv));
        assert_eq!(game.get_cell(mv.0, mv.1), None);
    }
}

#[test]
fn the_search_looks_at_the_candidates_in_changing_order() {
    // Without quota the move proposed is the first candidate after the shuffle.
    let game = play(&[(7, 7), (7, 8), (8, 8)]);
    let in_order = candidate_moves(&game);
    assert!(in_order.len() >= 10);
    let mut rng = rand::rng();
    let mut seen = Vec::new();
    for _ in 0..400 {
        let result = SmartAi::search(&game, 0, &mut rng);
        if !seen.contains(&result.best_move) {
            seen.push(result.best_move);
        }
    }
    assert!(seen.len() >= 2);
    assert!(seen.iter().any(|mv| *mv != in_order[0]));
}

#[test]
fn the_search_stays_within_its_quota() {
    let game = play(&[(7, 7), (7, 8), (8, 8), (6, 6)]);
    let candidates = candidate_moves(&game);
    let mut rng = rand::rng();
    for quota in [1, 2, 5, 17, 60, 300] {
        for _ in 0..5 {
            let result = SmartAi::search(&game, quota, &mut rng);
            assert!(0 <= result.used_quota && result.used_quota <= quota);
            assert!(candidates.contains(&result.best_move));
            if let SearchOutcome::Indeterminate { depth } = result.outcome {
                assert!(0 <= depth && depth <= result.used_quota);
            }
        }
    }
}

#[test]
fn a_quota_of_one_is_used_up_by_the_first_candidate() {
    let game = play(&[(7, 7), (7, 8)]);
    let mut rng = rand::rng();
    for _ in 0..20 {
        let result = SmartAi::search(&game, 1, &mut rng);
        assert_eq!(result.used_quota, 1);
        assert_eq!(result.outcome, SearchOutcome::Indeterminate { depth: 0 });
    }
}

#[test]
fn with_a_quota_of_the_candidate_count_the_search_takes_the_win() {
    let game = black_to_win();
    let quota = candidate_moves(&game).len() as i64;
    let mut rng = rand::rng();
    for _ in 0..200 {
        let result = SmartAi::search(&game, quota, &mut rng);
        assert_eq!(result.outcome, SearchOutcome::Win);
        assert!(result.best_move == (7, 2) || result.best_move == (7, 7));
        assert!(1 <= result.used_quota && result.used_quota <= quota);
    }
}

#[test]
fn smart_ai_takes_the_win() {
    let game = black_to_win();
    let quota = candidate_moves(&game).len() as i64;
    for _ in 0..100 {
        let mv = SmartAi::new(quota).get_move(&game);
        let mut copy = game.clone();
        assert_eq!(copy.place_piece(mv.0, mv.1), Ok(()));
        assert_eq!(copy.get_state(), GameState::Winner(Player::Black));
    }
}

#[test]
fn with_a_large_quota_the_search_reports_a_win() {
    let game = black_to_win();
    let mut rng = rand::rng();
    for _ in 0..5 {
        let result = SmartAi::search(&game, 5000, &mut rng);
        assert_eq!(result.outcome, SearchOutcome::Win);
        assert!(result.used_quota <= 5000);
        assert!(candidate_moves(&game).contains(&result.best_move));
    }
}

#[test]
fn the_search_sees_a_lost_position() {
    // Black is to move on a board that is full but for two cells, and neither wins.
    let (game, last) = almost_full();
    let mut rng = rand::rng();
    let result = SmartAi::search(&game, 10, &mut rng);
    // The one candidate ends the game in a tie: a dead end, which counts as a loss.
    assert_eq!(
        result,
        SearchResult { used_quota: 1, best_move: last, outcome: SearchOutcome::Loss }
    );
}

#[test]
fn smart_ai_plays_against_random_ai_to_the_end() {
    let smart = SmartAi::new(40);
    let mut game = Game::new();
    let mut moves = 0;
    while let GameState::InProgress(player) = game.get_state() {
        let mv = match player {
            Player::Black => RandomAi.get_move(&game),
            Player::White => smart.get_move(&game),
        };
        assert_eq!(game.place_piece(mv.0, mv.1), Ok(()));
        moves += 1;
    }
    assert!(moves >= 9 && moves <= 225);
}
