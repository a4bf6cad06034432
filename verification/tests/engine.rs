use tictactoe_engine::engine::Engine;
use tictactoe_engine::state::State;

const LINES: [(usize, usize, usize); 8] = [
    (1, 2, 3),
    (4, 5, 6),
    (7, 8, 9),
    (1, 4, 7),
    (2, 5, 8),
    (3, 6, 9),
    (1, 5, 9),
    (3, 5, 7),
];

fn engine_at(board: &str, turn: char) -> Engine {
    let mut engine = Engine::new();
    engine.state.update(board.chars().collect(), turn);
    engine
}

fn search(engine: &mut Engine) -> (isize, usize) {
    let mut best = 0;
    let score = engine.evaluate_state(0, &mut best, isize::MIN, isize::MAX);
    (score, best)
}

/// A board as ten codes: the player to move, then the nine cells.
type Board = [usize; 10];

fn board_of(state: &State) -> Board {
    let mut b = [0; 10];
    for (i, code) in b.iter_mut().enumerate() {
        *code = state.get(i);
    }
    b
}

fn has_line(b: &Board) -> bool {
    LINES.iter().any(|&(x, y, z)| b[x] != 0 && b[x] == b[y] && b[y] == b[z])
}

fn after(b: &Board, cell: usize) -> Board {
    let mut next = *b;
    next[cell] = b[0];
    next[0] = 3 - b[0];
    next
}

/// The value of exhaustive play, with no pruning, and the first best move
/// at the top.
fn exhaustive(b: &Board, depth: isize) -> (isize, usize) {
    if has_line(b) {
        return (if depth % 2 == 1 { 20 - depth } else { depth - 20 }, 0);
    }
    let mut best: Option<(isize, usize)> = None;
    for cell in 1..=9 {
        if b[cell] != 0 {
            continue;
        }
        let (value, _) = exhaustive(&after(b, cell), depth + 1);
        let better = match best {
            None => true,
            Some((held, _)) => if depth % 2 == 0 { value > held } else { value < held },
        };
        if better {
            best = Some((value, cell));
        }
    }
    best.unwrap_or((0, 0))
}

/// Every position that play from the empty board can reach.
fn reachable(b: Board, seen: &mut std::collections::BTreeSet<Board>) {
    if !seen.insert(b) || has_line(&b) {
        return;
    }
    for cell in 1..=9 {
        if b[cell] == 0 {
            reachable(after(&b, cell), seen);
        }
    }
}

fn text_of(b: &Board) -> (String, char) {
    let mark = |code: usize| match code {
        1 => 'x',
        2 => 'o',
        _ => '-',
    };
    ((1..=9).map(|i| mark(b[i])).collect(), mark(b[0]))
}

#[test]
fn a_new_engine_holds_the_empty_board() {
    let engine = Engine::new();
    assert_eq!(engine.state, State::new());
    assert_eq!(engine.is_win_state(), 0);
}

#[test]
fn every_line_is_detected_for_either_player() {
    for &(a, b, c) in LINES.iter() {
        for (mark, code) in [('x', 1), ('o', 2)] {
            let mut board = vec!['-'; 9];
            board[a - 1] = mark;
            board[b - 1] = mark;
            board[c - 1] = mark;
            let mut engine = Engine::new();
            engine.state.update(board, 'x');
            assert_eq!(engine.is_win_state(), code);
        }
    }
}

#[test]
fn mixed_or_open_lines_are_no_win() {
    assert_eq!(engine_at("xxo------", 'x').is_win_state(), 0);
    assert_eq!(engine_at("xx-------", 'o').is_win_state(), 0);
    assert_eq!(engine_at("xoxxoxoxo", 'x').is_win_state(), 0);
    assert_eq!(engine_at("x-o-o-x-x", 'o').is_win_state(), 0);
}

#[test]
fn the_first_filled_line_in_order_is_reported() {
    assert_eq!(engine_at("xxx---ooo", 'x').is_win_state(), 1);
    assert_eq!(engine_at("ooo---xxx", 'x').is_win_state(), 2);
    assert_eq!(engine_at("o-x-ox-ox", 'x').is_win_state(), 1);
}

#[test]
fn the_empty_board_is_a_draw() {
    let mut engine = Engine::new();
    assert_eq!(engine.evaluate(), 0);
    assert_eq!(search(&mut engine).0, 0);
}

#[test]
fn the_empty_board_opens_in_a_corner_or_the_centre() {
    let mut engine = Engine::new();
    let cell = engine.get_best_move();
    assert!([1, 3, 5, 7, 9].contains(&cell));
    assert_eq!(cell, 1);
}

#[test]
fn the_empty_board_is_a_draw_for_the_second_player_too() {
    let mut engine = engine_at("---------", 'o');
    assert_eq!(engine.evaluate(), 0);
    assert_eq!(engine.get_best_move(), 1);
}

#[test]
fn a_filled_line_is_a_loss_for_the_player_to_move() {
    let mut engine = engine_at("xxx-oo---", 'o');
    assert_eq!(engine.evaluate(), -20);
    assert_eq!(engine.get_best_move(), 0);
    let mut engine = engine_at("o-x-ox--o", 'x');
    assert_eq!(search(&mut engine), (-20, 0));
}

#[test]
fn a_full_board_without_a_line_is_a_draw() {
    let mut engine = engine_at("xoxxoxoxo", 'x');
    assert_eq!(engine.evaluate(), 0);
    assert_eq!(engine.get_best_move(), 0);
    let mut engine = engine_at("xoxxoxoxo", 'o');
    assert_eq!(search(&mut engine), (0, 0));
}

#[test]
fn a_full_board_with_a_line_is_a_loss_for_the_player_to_move() {
    let mut engine = engine_at("xxxoxooxo", 'o');
    assert_eq!(engine.evaluate(), -20);
    assert_eq!(engine.get_best_move(), 0);
}

#[test]
fn a_win_in_one_is_taken() {
    let mut engine = engine_at("xx-oo----", 'x');
    assert_eq!(engine.evaluate(), 19);
    assert_eq!(engine.get_best_move(), 3);
    let mut engine = engine_at("xx-oo----", 'o');
    assert_eq!(engine.evaluate(), 19);
    assert_eq!(engine.get_best_move(), 6);
}

#[test]
fn a_win_in_one_is_found_through_every_line_and_gap() {
    for &(a, b, c) in LINES.iter() {
        for gap in [a, b, c] {
            let mut board = vec!['-'; 9];
            for cell in [a, b, c] {
                if cell != gap {
                    board[cell - 1] = 'x';
                }
            }
            let mut engine = Engine::new();
            engine.state.update(board, 'x');
            assert_eq!(engine.evaluate(), 19);
            assert_eq!(engine.get_best_move(), gap);
        }
    }
}

#[test]
fn of_two_wins_in_one_the_first_cell_is_taken() {
    let mut engine = engine_at("-xxo-o-x-", 'x');
    assert_eq!(engine.get_best_move(), 1);
    let mut engine = engine_at("o-oxx-x--", 'x');
    assert_eq!(engine.get_best_move(), 6);
}

#[test]
fn the_best_move_is_an_empty_cell_wherever_play_goes_on() {
    let mut seen = std::collections::BTreeSet::new();
    reachable([1, 0, 0, 0, 0, 0, 0, 0, 0, 0], &mut seen);
    for b in seen.iter() {
        let (board, turn) = text_of(b);
        let mut engine = engine_at(&board, turn);
        let cell = engine.get_best_move();
        if has_line(b) || (1..=9).all(|c| b[c] != 0) {
            assert_eq!(cell, 0);
        } else {
            assert!((1..=9).contains(&cell));
            assert_eq!(b[cell], 0);
            assert_eq!(exhaustive(&after(b, cell), 1).0, exhaustive(b, 0).0);
        }
    }
}

#[test]
fn a_threat_is_blocked() {
    let mut engine = engine_at("oo--x----", 'x');
    assert_eq!(engine.get_best_move(), 3);
    assert_eq!(engine.evaluate(), 0);
}

#[test]
fn a_double_threat_wins_in_three() {
    let mut engine = engine_at("x---o---x", 'o');
    assert_eq!(engine.evaluate(), 0);
    let mut engine = engine_at("x---o---x", 'x');
    assert_eq!(engine.evaluate(), 17);
    assert_eq!(engine.get_best_move(), 3);
    let mut engine = engine_at("oo--x---x", 'x');
    assert_eq!(engine.evaluate(), 17);
    assert_eq!(engine.get_best_move(), 3);
}

#[test]
fn a_slower_win_scores_less() {
    let mut engine = engine_at("x-------o", 'x');
    assert_eq!(engine.evaluate(), 15);
    assert_eq!(engine.get_best_move(), 3);
    let mut engine = engine_at("xo--x----", 'o');
    assert_eq!(engine.evaluate(), -16);
    assert_eq!(engine.get_best_move(), 9);
}

#[test]
fn a_lost_position_is_lost_as_late_as_can_be() {
    let mut engine = engine_at("x-o---x-x", 'o');
    assert_eq!(engine.evaluate(), -18);
}

#[test]
fn the_search_leaves_the_position_as_it_found_it() {
    let positions =
        [("---------", 'x'), ("x---o----", 'x'), ("xx-oo----", 'o'), ("xoxxoxoxo", 'x')];
    for (board, turn) in positions {
        let mut engine = engine_at(board, turn);
        let before = engine.state.clone();
        engine.evaluate();
        assert_eq!(engine.state, before);
        engine.get_best_move();
        assert_eq!(engine.state, before);
        let mut best = 0;
        engine.evaluate_state(0, &mut best, -1, 1);
        assert_eq!(engine.state, before);
    }
}

#[test]
fn repeated_searches_agree() {
    let mut engine = engine_at("x---o----", 'x');
    let first = search(&mut engine);
    let second = search(&mut engine);
    assert_eq!(first, second);
    assert_eq!(engine.evaluate(), first.0);
    assert_eq!(engine.get_best_move(), first.1);
    assert_eq!(engine.get_best_move(), first.1);
}

#[test]
fn equal_positions_score_alike_whatever_the_order_of_moves() {
    let mut a = Engine::new();
    a.state.set(1);
    a.state.set(5);
    a.state.set(9);
    let mut b = Engine::new();
    b.state.set(9);
    b.state.set(5);
    b.state.set(1);
    let mut c = engine_at("x---o---x", 'o');
    assert_eq!(a.state, b.state);
    let score = a.evaluate();
    assert_eq!(b.evaluate(), score);
    assert_eq!(c.evaluate(), score);
    let cell = a.get_best_move();
    assert_eq!(b.get_best_move(), cell);
    assert_eq!(c.get_best_move(), cell);
}

#[test]
fn a_search_below_the_top_leaves_the_move_slot_alone() {
    let mut engine = engine_at("xx-oo----", 'x');
    let mut best = 42;
    let score = engine.evaluate_state(2, &mut best, isize::MIN, isize::MAX);
    assert_eq!(best, 42);
    assert_eq!(score, 17);
    let mut best = 42;
    let score = engine.evaluate_state(1, &mut best, isize::MIN, isize::MAX);
    assert_eq!(best, 42);
    assert_eq!(score, -18);
}

#[test]
fn scores_count_the_depth_of_the_filled_line() {
    let mut engine = engine_at("xxx-oo---", 'o');
    let mut best = 7;
    assert_eq!(engine.evaluate_state(0, &mut best, 0, 0), -20);
    assert_eq!(engine.evaluate_state(1, &mut best, 0, 0), 19);
    assert_eq!(engine.evaluate_state(2, &mut best, 5, -5), -18);
    assert_eq!(engine.evaluate_state(3, &mut best, isize::MIN, isize::MAX), 17);
    assert_eq!(engine.evaluate_state(20, &mut best, isize::MIN, isize::MAX), 0);
    assert_eq!(engine.evaluate_state(21, &mut best, isize::MIN, isize::MAX), -1);
    assert_eq!(best, 7);
}

#[test]
fn a_window_above_the_value_returns_its_lower_bound() {
    let mut engine = Engine::new();
    let mut best = 0;
    assert_eq!(engine.evaluate_state(0, &mut best, 5, 10), 5);
    assert_eq!(best, 0);
}

#[test]
fn a_window_below_the_value_fails_high() {
    let mut engine = Engine::new();
    let mut best = 0;
    let score = engine.evaluate_state(0, &mut best, -10, -5);
    assert!(score >= -5);
}

#[test]
fn a_window_around_the_value_finds_it() {
    let mut engine = Engine::new();
    let mut best = 0;
    assert_eq!(engine.evaluate_state(0, &mut best, -1, 1), 0);
    assert_eq!(best, 1);
    let mut engine = engine_at("x---o---x", 'x');
    let mut best = 0;
    assert_eq!(engine.evaluate_state(0, &mut best, 16, 18), 17);
    assert_eq!(best, 3);
}

#[test]
fn a_closed_window_stops_after_the_first_move_that_fails_to_raise() {
    let mut engine = engine_at("xx-oo----", 'x');
    let mut best = 0;
    assert_eq!(engine.evaluate_state(0, &mut best, 19, 19), 19);
    assert_eq!(best, 0);
    let mut best = 0;
    assert_eq!(engine.evaluate_state(0, &mut best, 18, 18), 19);
    assert_eq!(best, 3);
}

#[test]
fn the_pruned_search_agrees_with_exhaustive_play_everywhere() {
    let mut seen = std::collections::BTreeSet::new();
    reachable([1, 0, 0, 0, 0, 0, 0, 0, 0, 0], &mut seen);
    assert_eq!(seen.len(), 5478);
    let mut wins = 0;
    let mut draws = 0;
    let mut losses = 0;
    for b in seen.iter() {
        let (board, turn) = text_of(b);
        let mut engine = engine_at(&board, turn);
        assert_eq!(board_of(&engine.state), *b);
        let expected = exhaustive(b, 0);
        assert_eq!(search(&mut engine), expected);
        assert_eq!(board_of(&engine.state), *b);
        match expected.0.signum() {
            1 => wins += 1,
            0 => draws += 1,
            _ => losses += 1,
        }
    }
    assert_eq!(wins + draws + losses, 5478);
    assert!(wins > 0 && draws > 0 && losses > 0);
}

#[test]
fn any_window_tells_as_much_of_the_value_as_it_can() {
    let mut seen = std::collections::BTreeSet::new();
    reachable([1, 0, 0, 0, 0, 0, 0, 0, 0, 0], &mut seen);
    for b in seen.iter().step_by(7) {
        let (board, turn) = text_of(b);
        let mut engine = engine_at(&board, turn);
        let value = exhaustive(b, 0).0;
        for (alpha, beta) in [(-1, 1), (0, 18), (-18, 0), (-20, -15), (15, 20), (-30, 30)] {
            let mut best = 0;
            let score = engine.evaluate_state(0, &mut best, alpha, beta);
            if value <= alpha {
                assert!(score <= alpha);
            } else if value >= beta {
                assert!(score >= beta);
            } else {
                assert_eq!(score, value);
            }
        }
    }
}
