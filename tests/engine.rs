use rand::rngs::StdRng;
use rand::SeedableRng;
use reversi::ai::{choose_move, legal_moves, select_move, ERROR_SCALE};
use reversi::board::{apply_move, count_cells, is_legal_move, move_cost, MoveError};
use reversi::game::{GameMode, GameStatus, MoveOutcome, Reversi};
use reversi::{Cell, PlayerTurn};

fn rng(seed: u64) -> StdRng {
    StdRng::seed_from_u64(seed)
}

fn at(g: &Reversi, x: usize, y: usize) -> Cell {
    g.cell_at(x, y).unwrap()
}

fn counts(cells: &[Cell]) -> (usize, usize, usize) {
    let b = cells.iter().filter(|c| **c == Cell::Black).count();
    let w = cells.iter().filter(|c| **c == Cell::White).count();
    let f = cells.iter().filter(|c| **c == Cell::Free).count();
    (b, w, f)
}

fn empty_board() -> Vec<Cell> {
    vec![Cell::Free; 64]
}

fn put(b: &mut Vec<Cell>, x: usize, y: usize, c: Cell) {
    b[y * 8 + x] = c;
}

#[test]
fn opening_position() {
    let g = Reversi::new(rng(1));
    let cells = g.board_snapshot();
    assert_eq!(cells.len(), 64);
    assert_eq!(counts(&cells), (2, 2, 60));
    assert_eq!(g.current_turn(), PlayerTurn::Black);
    assert_eq!(g.status(), GameStatus::Active);
    assert_eq!(g.scores(), (2, 2));
    assert_eq!(g.mode(), GameMode::PvP);
    assert_eq!(at(&g, 3, 3), Cell::White);
    assert_eq!(at(&g, 4, 4), Cell::White);
    assert_eq!(at(&g, 4, 3), Cell::Black);
    assert_eq!(at(&g, 3, 4), Cell::Black);
}

#[test]
fn new_game_keeps_mode() {
    let g = Reversi::new_game(GameMode::PvE(200_000), rng(2));
    assert_eq!(g.mode(), GameMode::PvE(200_000));
    assert_eq!(counts(&g.board_snapshot()), (2, 2, 60));
    assert_eq!(g.current_turn(), PlayerTurn::Black);
}

#[test]
fn scores_and_free_cells_fill_board() {
    let mut g = Reversi::new(rng(3));
    let moves = [(2, 3), (2, 2), (3, 2), (4, 2), (5, 3)];
    for (x, y) in moves {
        let out = g.submit_move(x, y);
        assert!(matches!(out, MoveOutcome::Applied(_)), "move {:?} refused", (x, y));
        let (b, w) = g.scores();
        let (cb, cw, cf) = counts(&g.board_snapshot());
        assert_eq!((b as usize, w as usize), (cb, cw));
        assert_eq!(b as usize + w as usize + cf, 64);
    }
}

#[test]
fn occupied_cell_is_rejected() {
    let mut g = Reversi::new(rng(4));
    let before = g.board_snapshot();
    let out = g.submit_move(3, 3);
    assert!(matches!(out, MoveOutcome::Rejected(MoveError::IllegalMove)));
    assert_eq!(g.board_snapshot(), before);
    assert_eq!(g.current_turn(), PlayerTurn::Black);
}

#[test]
fn corner_without_bracket_is_rejected() {
    let mut g = Reversi::new(rng(5));
    let before = g.board_snapshot();
    let out = g.submit_move(0, 0);
    assert!(matches!(out, MoveOutcome::Rejected(MoveError::IllegalMove)));
    assert_eq!(g.board_snapshot(), before);
    assert_eq!(g.current_turn(), PlayerTurn::Black);
    assert_eq!(g.scores(), (2, 2));
}

#[test]
fn off_board_is_rejected() {
    let mut g = Reversi::new(rng(6));
    let before = g.board_snapshot();
    let out = g.submit_move(8, 3);
    assert!(matches!(out, MoveOutcome::Rejected(MoveError::OutOfBounds)));
    assert_eq!(g.board_snapshot(), before);
    assert_eq!(g.current_turn(), PlayerTurn::Black);
    let out = g.submit_move(3, 8);
    assert!(matches!(out, MoveOutcome::Rejected(MoveError::OutOfBounds)));
    assert_eq!(g.cell_at(8, 3), Err(MoveError::OutOfBounds));
}

#[test]
fn first_move_scenario() {
    let mut g = Reversi::new(rng(7));
    assert!(g.is_valid_cell(2, 3));
    let out = g.submit_move(2, 3);
    match out {
        MoveOutcome::Applied(flips) => assert_eq!(flips, vec![(3, 3)]),
        other => panic!("unexpected outcome {:?}", other),
    }
    assert_eq!(at(&g, 2, 3), Cell::Black);
    assert_eq!(at(&g, 3, 3), Cell::Black);
    assert_eq!(at(&g, 4, 3), Cell::Black);
    assert_eq!(at(&g, 3, 4), Cell::Black);
    assert_eq!(at(&g, 4, 4), Cell::White);
    assert_eq!(g.scores(), (4, 1));
    assert_eq!(g.current_turn(), PlayerTurn::White);
    assert_eq!(g.status(), GameStatus::Active);
}

#[test]
fn legal_move_flips_and_places_own_disc() {
    let mut g = Reversi::new(rng(8));
    g.submit_move(2, 3);
    let before = g.board_snapshot();
    let out = g.submit_move(2, 2);
    let flips = match out {
        MoveOutcome::Applied(flips) => flips,
        other => panic!("unexpected outcome {:?}", other),
    };
    assert!(!flips.is_empty());
    assert_eq!(at(&g, 2, 2), Cell::White);
    for (x, y) in flips {
        assert_eq!(before[y * 8 + x], Cell::Black);
        assert_eq!(at(&g, x, y), Cell::White);
    }
}

fn near_full(last_row_rest: Cell, top_rows: Cell, bottom_rows: Cell) -> Vec<Cell> {
    let mut b = vec![Cell::Free; 64];
    for y in 0..8 {
        for x in 0..8 {
            put(&mut b, x, y, if y < 4 { top_rows } else { bottom_rows });
        }
    }
    put(&mut b, 0, 0, Cell::Free);
    put(&mut b, 1, 0, Cell::White);
    put(&mut b, 2, 0, last_row_rest);
    b
}

#[test]
fn last_move_ends_game_with_majority_winner() {
    // Black fills the last cell; White has no move and holds more discs.
    let mut b = vec![Cell::White; 64];
    put(&mut b, 0, 0, Cell::Free);
    put(&mut b, 2, 0, Cell::Black);
    let mut g = Reversi::from_position(b, PlayerTurn::Black, GameMode::PvP, rng(9)).unwrap();
    assert_eq!(g.status(), GameStatus::Active);
    let out = g.submit_move(0, 0);
    assert!(matches!(out, MoveOutcome::Applied(_)));
    assert_eq!(g.scores(), (3, 61));
    assert_eq!(g.status(), GameStatus::Finished(Some(PlayerTurn::White)));
    assert!(matches!(g.submit_move(5, 5), MoveOutcome::GameOver));
    assert_eq!(g.scores(), (3, 61));
}

#[test]
fn last_move_ends_game_black_wins() {
    let b = near_full(Cell::Black, Cell::Black, Cell::Black);
    let mut g = Reversi::from_position(b, PlayerTurn::Black, GameMode::PvP, rng(10)).unwrap();
    g.submit_move(0, 0);
    assert_eq!(g.scores(), (64, 0));
    assert_eq!(g.status(), GameStatus::Finished(Some(PlayerTurn::Black)));
}

#[test]
fn last_move_ends_game_in_tie() {
    let b = near_full(Cell::Black, Cell::Black, Cell::White);
    let mut g = Reversi::from_position(b, PlayerTurn::Black, GameMode::PvP, rng(11)).unwrap();
    g.submit_move(0, 0);
    assert_eq!(g.scores(), (32, 32));
    assert_eq!(g.status(), GameStatus::Finished(None));
}

#[test]
fn from_position_needs_full_board() {
    assert!(Reversi::from_position(vec![Cell::Free; 63], PlayerTurn::Black, GameMode::PvP, rng(12)).is_none());
}

#[test]
fn valid_cell_cost() {
    let g = Reversi::new(rng(13));
    let mut cost: usize = 99;
    assert!(g.is_valid_cell_cost(2, 3, &mut cost));
    assert_eq!(cost, 1);
    let mut cost: usize = 99;
    assert!(!g.is_valid_cell_cost(0, 0, &mut cost));
    assert_eq!(cost, 99);
    assert!(!g.is_valid_cell(3, 3));
    assert!(!g.is_valid_cell(9, 0));
}

#[test]
fn clicked_plays_move() {
    let mut g = Reversi::new(rng(14));
    g.clicked(4, 5);
    assert_eq!(at(&g, 4, 5), Cell::Black);
    assert_eq!(at(&g, 4, 4), Cell::Black);
    assert_eq!(g.current_turn(), PlayerTurn::White);
}

#[test]
fn switch_turn_passes_the_move() {
    let mut g = Reversi::new(rng(15));
    g.switch_turn();
    assert_eq!(g.current_turn(), PlayerTurn::White);
    assert_eq!(g.status(), GameStatus::Active);
    g.switch_turn();
    assert_eq!(g.current_turn(), PlayerTurn::Black);
}

fn two_choice_board() -> Vec<Cell> {
    // White may play (0,0), turning one disc, or (7,7), turning two.
    let mut b = empty_board();
    put(&mut b, 1, 0, Cell::Black);
    put(&mut b, 2, 0, Cell::White);
    put(&mut b, 6, 7, Cell::Black);
    put(&mut b, 5, 7, Cell::Black);
    put(&mut b, 4, 7, Cell::White);
    b
}

#[test]
fn legal_moves_with_costs() {
    let b = two_choice_board();
    assert_eq!(legal_moves(&b, PlayerTurn::White), vec![(0, 0, 1), (7, 7, 2)]);
    assert_eq!(move_cost(&b, PlayerTurn::White, 7, 7), Some(2));
    assert_eq!(move_cost(&b, PlayerTurn::White, 3, 3), None);
}

#[test]
fn careful_opponent_takes_most_discs() {
    let b = two_choice_board();
    for seed in 0..50 {
        let mut r = rng(seed);
        assert_eq!(select_move(&b, PlayerTurn::White, 0, &mut r), Some((7, 7)));
    }
}

#[test]
fn careful_opponent_breaks_ties_row_major() {
    let mut g = Reversi::new_game(GameMode::PvE(0), rng(16));
    let out = g.submit_move(2, 3);
    assert!(matches!(out, MoveOutcome::Applied(_)));
    // White's three replies each turn one disc; the first in row-major order is (2,2).
    assert_eq!(at(&g, 2, 2), Cell::White);
    assert_eq!(at(&g, 3, 3), Cell::White);
    assert_eq!(g.scores(), (3, 3));
    assert_eq!(g.current_turn(), PlayerTurn::Black);
}

#[test]
fn careless_opponent_draws_uniformly() {
    let b = Reversi::new(rng(17)).board_snapshot();
    let legal = legal_moves(&b, PlayerTurn::Black);
    assert_eq!(legal.len(), 4);
    let mut seen = [0usize; 4];
    let mut r = rng(18);
    let trials = 4000;
    for _ in 0..trials {
        let m = select_move(&b, PlayerTurn::Black, ERROR_SCALE, &mut r).unwrap();
        let i = legal.iter().position(|&(x, y, _)| (x, y) == m).expect("move not legal");
        seen[i] += 1;
    }
    for n in seen {
        assert!(n > 850 && n < 1150, "counts {:?}", seen);
    }
}

#[test]
fn no_move_for_opponent_gives_none() {
    let b = empty_board();
    let mut r = rng(19);
    assert_eq!(select_move(&b, PlayerTurn::White, ERROR_SCALE, &mut r), None);
    assert!(legal_moves(&b, PlayerTurn::White).is_empty());
}

#[test]
fn apply_move_errors_and_report() {
    let mut b = Reversi::new(rng(20)).board_snapshot();
    let before = b.clone();
    assert_eq!(apply_move(&mut b, PlayerTurn::Black, 8, 0), Err(MoveError::OutOfBounds));
    assert_eq!(apply_move(&mut b, PlayerTurn::Black, 0, 0), Err(MoveError::IllegalMove));
    assert_eq!(b, before);
    assert_eq!(apply_move(&mut b, PlayerTurn::Black, 5, 4), Ok(vec![(4, 4)]));
    assert_eq!(count_cells(&b, Cell::Black), 4);
    assert_eq!(count_cells(&b, Cell::White), 1);
    assert!(!is_legal_move(&b, PlayerTurn::Black, 5, 4));
}

#[test]
fn capture_in_several_directions() {
    // Black at (3,3) brackets white runs to the east (two discs) and the south (one disc).
    let mut b = empty_board();
    put(&mut b, 4, 3, Cell::White);
    put(&mut b, 5, 3, Cell::White);
    put(&mut b, 6, 3, Cell::Black);
    put(&mut b, 3, 4, Cell::White);
    put(&mut b, 3, 5, Cell::Black);
    put(&mut b, 2, 2, Cell::White);
    assert_eq!(move_cost(&b, PlayerTurn::Black, 3, 3), Some(3));
    let flips = apply_move(&mut b, PlayerTurn::Black, 3, 3).unwrap();
    assert_eq!(flips, vec![(4, 3), (5, 3), (3, 4)]);
    assert_eq!(b[2 * 8 + 2], Cell::White);
    assert_eq!(count_cells(&b, Cell::Black), 6);
}

#[test]
fn cell_and_side_helpers() {
    let mut c = Cell::Black;
    c.inverse();
    assert_eq!(c, Cell::White);
    c.inverse();
    assert_eq!(c, Cell::Black);
    let mut f = Cell::Free;
    f.inverse();
    assert_eq!(f, Cell::Free);
    assert_eq!(PlayerTurn::Black.name(), "Black");
    assert_eq!(PlayerTurn::White.name(), "White");
    assert_eq!(PlayerTurn::Black.produce(), Cell::Black);
    assert_eq!(PlayerTurn::White.produce(), Cell::White);
    assert_eq!(PlayerTurn::Black.opponent(), PlayerTurn::White);
    assert!(PlayerTurn::Black.is_reverse_of(&Cell::White));
    assert!(!PlayerTurn::Black.is_reverse_of(&Cell::Black));
    assert!(!PlayerTurn::White.is_reverse_of(&Cell::Free));
}

#[test]
fn switch_turn_lets_opponent_reply() {
    // Black has just played (2,3) from the opening; passing the turn makes
    // the careful opponent answer at (2,2) and hands the move back.
    let mut played = Reversi::new(rng(21));
    played.submit_move(2, 3);
    let b = played.board_snapshot();
    let mut g = Reversi::from_position(b, PlayerTurn::Black, GameMode::PvE(0), rng(22)).unwrap();
    g.switch_turn();
    assert_eq!(at(&g, 2, 2), Cell::White);
    assert_eq!(at(&g, 3, 3), Cell::White);
    assert_eq!(g.scores(), (3, 3));
    assert_eq!(g.current_turn(), PlayerTurn::Black);
    assert_eq!(g.status(), GameStatus::Active);
}

#[test]
fn switch_turn_opponent_takes_most_discs() {
    let b = two_choice_board();
    let mut g = Reversi::from_position(b, PlayerTurn::Black, GameMode::PvE(0), rng(23)).unwrap();
    g.switch_turn();
    assert_eq!(at(&g, 7, 7), Cell::White);
    assert_eq!(at(&g, 6, 7), Cell::White);
    assert_eq!(at(&g, 5, 7), Cell::White);
    assert_eq!(at(&g, 0, 0), Cell::Free);
    assert_eq!(g.current_turn(), PlayerTurn::Black);
}

#[test]
fn choose_move_follows_draws() {
    let moves = vec![(0, 0, 1), (3, 0, 2), (7, 7, 2), (1, 5, 1)];
    assert_eq!(choose_move(&moves, 10, 3, 20), 3);
    assert_eq!(choose_move(&moves, 10, 0, 20), 0);
    assert_eq!(choose_move(&moves, 20, 3, 20), 1);
    assert_eq!(choose_move(&moves, 5, 3, 0), 1);
    assert_eq!(choose_move(&moves, ERROR_SCALE - 1, 2, ERROR_SCALE), 2);
}

#[test]
fn from_position_without_moves_is_over() {
    let g = Reversi::from_position(empty_board(), PlayerTurn::Black, GameMode::PvP, rng(24)).unwrap();
    assert_eq!(g.status(), GameStatus::Finished(None));
    let mut b = empty_board();
    put(&mut b, 0, 0, Cell::White);
    put(&mut b, 7, 7, Cell::White);
    put(&mut b, 4, 4, Cell::Black);
    let g = Reversi::from_position(b, PlayerTurn::Black, GameMode::PvP, rng(25)).unwrap();
    assert_eq!(g.status(), GameStatus::Finished(Some(PlayerTurn::White)));
}

#[test]
fn clicked_last_move_ends_game_against_opponent() {
    let mut b = vec![Cell::White; 64];
    put(&mut b, 0, 0, Cell::Free);
    put(&mut b, 2, 0, Cell::Black);
    let mut g = Reversi::from_position(b, PlayerTurn::Black, GameMode::PvE(0), rng(26)).unwrap();
    g.clicked(0, 0);
    assert_eq!(g.scores(), (3, 61));
    assert_eq!(g.status(), GameStatus::Finished(Some(PlayerTurn::White)));
}
