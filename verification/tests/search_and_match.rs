use boardgame_ai::ai::{get_next_best_step, get_score, search_best_step, AI, SEARCH_DEPTH};
use boardgame_ai::base::{Board, Game, GameState, GameType, OutCome, Player, Role, Step};
use boardgame_ai::display::Display;
use boardgame_ai::tic_tac_toe::{TTTBoard, TTTPiece, TTTPos, TTTStep};

fn board_of(stones: &[(u8, u8, u8)]) -> TTTBoard {
    let mut b = TTTBoard::new();
    for &(p, x, y) in stones {
        assert!(b.hand_put(Player(p), x, y));
    }
    b
}

fn step(p: u8, x: u8, y: u8) -> TTTStep {
    TTTStep::new_put_step((x, y), Player(p))
}

fn plain_minimax(board: &TTTBoard, s: TTTStep, me: Player, deep: u8) -> i32 {
    let after = board.copy_put(s).unwrap();
    if deep == 1 || after.over() != GameState::Running {
        return after.score(me);
    }
    let mover = s.who().rev();
    let replies = after.get_possible_steps(mover, deep - 1);
    if replies.is_empty() {
        return after.score(me);
    }
    let values = replies.iter().map(|r| plain_minimax(&after, *r, me, deep - 1));
    if mover == me {
        values.max().unwrap()
    } else {
        values.min().unwrap()
    }
}

fn plain_choice(board: &TTTBoard, who: Player, deep: u8) -> Option<TTTStep> {
    let mut best: Option<(i32, TTTStep)> = None;
    for s in board.get_possible_steps(who, deep) {
        let v = plain_minimax(board, s, who, deep);
        if best.map_or(true, |(b, _)| v > b) {
            best = Some((v, s));
        }
    }
    best.map(|(_, s)| s)
}

#[test]
fn players_take_turns() {
    assert_eq!(Player(0).rev(), Player(1));
    assert_eq!(Player(1).rev(), Player(0));
    assert_eq!(Player(1).rev().rev(), Player(1));
    assert_eq!(SEARCH_DEPTH, 30);
}

#[test]
fn a_new_match_runs_with_player_zero_to_move() {
    let game: Game<TTTBoard, TTTStep> =
        Game::new(TTTBoard::new(), [Role::Com, Role::Hum], GameType::Put);
    assert_eq!(game.state, GameState::Running);
    assert_eq!(game.curr_player, Player(0));
    assert_eq!(game.players, [Role::Com, Role::Hum]);
    assert_eq!(game.game_type, GameType::Put);
    assert!(game.hist_steps.is_empty());
    assert!(game.board.pieces.is_empty());
}

#[test]
fn a_match_records_its_steps_and_ends_with_the_game() {
    let mut game: Game<TTTBoard, TTTStep> =
        Game::new(TTTBoard::new(), [Role::Hum, Role::Hum], GameType::Put);
    assert!(game.step(step(0, 0, 0)));
    assert_eq!(game.curr_player, Player(1));
    // An occupied cell and a cell off the board are refused; the turn stays.
    assert!(!game.step(step(1, 0, 0)));
    assert!(!game.step(step(1, 3, 1)));
    assert_eq!(game.curr_player, Player(1));
    assert_eq!(game.hist_steps.len(), 1);
    assert!(game.step(step(1, 1, 0)));
    assert!(game.step(step(0, 0, 1)));
    assert!(game.step(step(1, 1, 1)));
    assert_eq!(game.state, GameState::Running);
    assert!(game.step(step(0, 0, 2)));
    assert_eq!(game.state, GameState::Over(OutCome::Winer(Player(0))));
    assert_eq!(game.curr_player, Player(1));
    assert_eq!(game.hist_steps.len(), 5);
    assert_eq!(game.hist_steps[4], step(0, 0, 2));
    assert!(!game.step(step(1, 2, 2)));
    assert_eq!(game.hist_steps.len(), 5);
    assert_eq!(game.board.pieces.len(), 5);
    assert_eq!(game.state, GameState::Over(OutCome::Winer(Player(0))));
}

#[test]
fn cells_of_the_small_board() {
    assert!(TTTPos(0, 0).valid());
    assert!(TTTPos(2, 2).valid());
    assert!(!TTTPos(3, 0).valid());
    assert!(!TTTPos(0, 3).valid());
    let b = board_of(&[(0, 1, 1)]);
    assert!(!b.can_put(&step(1, 1, 1)));
    assert!(b.can_put(&step(1, 1, 2)));
    assert!(!b.can_put(&step(1, 1, 3)));
    assert_eq!(b.pieces, vec![TTTPiece { belong: Player(0), pos: TTTPos(1, 1) }]);
}

#[test]
fn hand_put_places_or_refuses() {
    let mut b = TTTBoard::new();
    assert!(b.hand_put(Player(0), 2, 1));
    assert!(!b.hand_put(Player(1), 2, 1));
    assert!(!b.hand_put(Player(1), 9, 9));
    assert_eq!(b.pieces.len(), 1);
    assert_eq!(b.pieces[0], TTTPiece { belong: Player(0), pos: TTTPos(2, 1) });
}

#[test]
fn every_line_of_three_wins() {
    let lines: [[(u8, u8); 3]; 8] = [
        [(0, 0), (1, 1), (2, 2)],
        [(0, 2), (1, 1), (2, 0)],
        [(0, 0), (0, 1), (0, 2)],
        [(1, 0), (1, 1), (1, 2)],
        [(2, 0), (2, 1), (2, 2)],
        [(0, 0), (1, 0), (2, 0)],
        [(0, 1), (1, 1), (2, 1)],
        [(0, 2), (1, 2), (2, 2)],
    ];
    for line in lines {
        for p in 0..2u8 {
            let mut b = TTTBoard::new();
            for (i, (x, y)) in line.iter().enumerate() {
                assert_eq!(b.over(), GameState::Running);
                assert!(b.hand_put(Player(p), *x, *y), "{}", i);
            }
            assert_eq!(b.over(), GameState::Over(OutCome::Winer(Player(p))));
            assert_eq!(b.score(Player(p)), 32);
            assert_eq!(b.score(Player(1 - p)), -32);
        }
    }
}

#[test]
fn nine_stones_without_a_line_are_a_draw() {
    let b = board_of(&[
        (0, 0, 0),
        (1, 0, 1),
        (0, 0, 2),
        (1, 1, 0),
        (0, 1, 1),
        (1, 2, 0),
        (0, 1, 2),
        (1, 2, 2),
        (0, 2, 1),
    ]);
    assert_eq!(b.over(), GameState::Over(OutCome::Draw));
    assert_eq!(b.score(Player(0)), 0);
    assert!(b.get_possible_steps(Player(0), 9).is_empty());
    assert!(get_next_best_step(&b, Player(0)).is_none());
}

#[test]
fn free_cells_are_proposed_row_by_row() {
    let b = board_of(&[(0, 0, 1), (1, 1, 1), (0, 2, 2)]);
    let cells: Vec<(u8, u8)> = b
        .get_possible_steps(Player(1), 5)
        .iter()
        .map(|s| (s.piece.pos.0, s.piece.pos.1))
        .collect();
    assert_eq!(cells, vec![(0, 0), (0, 2), (1, 0), (1, 2), (2, 0), (2, 1)]);
    assert!(b.get_possible_steps(Player(1), 5).iter().all(|s| s.who() == Player(1)));
}

#[test]
fn copies_are_independent() {
    let b = board_of(&[(0, 0, 0)]);
    let c = b.copy_put(step(1, 1, 1)).unwrap();
    assert_eq!(b.pieces.len(), 1);
    assert_eq!(c.pieces.len(), 2);
    assert!(b.copy_put(step(1, 0, 0)).is_none());
    let d = b.clone();
    assert_eq!(d.pieces, b.pieces);
    let e = b.duplicate();
    assert_eq!(e.pieces, b.pieces);
}

#[test]
fn the_search_takes_a_win_and_prevents_a_loss() {
    // Player 0 can complete the top row.
    let b = board_of(&[(0, 0, 0), (1, 1, 0), (0, 0, 1), (1, 1, 1)]);
    assert_eq!(get_next_best_step(&b, Player(0)), Some(step(0, 0, 2)));
    // Player 1 must stop the top row and then wins with the middle row.
    let b = board_of(&[(0, 0, 0), (1, 2, 2), (0, 0, 1)]);
    assert_eq!(get_next_best_step(&b, Player(1)), Some(step(1, 0, 2)));
    // Among steps of equal value the first proposed is chosen.
    let b = TTTBoard::new();
    assert_eq!(get_next_best_step(&b, Player(0)), Some(step(0, 0, 0)));
    assert_eq!(search_best_step(&b, Player(0), 1), Some(step(0, 0, 0)));
}

#[test]
fn pruned_search_agrees_with_plain_minimax() {
    let starts: [&[(u8, u8, u8)]; 6] = [
        &[],
        &[(0, 1, 1)],
        &[(0, 0, 0), (1, 1, 1)],
        &[(0, 0, 0), (1, 1, 1), (0, 2, 2)],
        &[(0, 0, 1), (1, 0, 0), (0, 2, 1), (1, 1, 1)],
        &[(0, 0, 0), (1, 0, 1), (0, 1, 1), (1, 1, 0), (0, 2, 1)],
    ];
    for stones in starts {
        let b = board_of(stones);
        let who = Player((stones.len() % 2) as u8);
        for deep in [1u8, 2, 3, 4, 9, 30] {
            assert_eq!(search_best_step(&b, who, deep), plain_choice(&b, who, deep));
            for s in b.get_possible_steps(who, deep) {
                let v = plain_minimax(&b, s, who, deep);
                assert_eq!(get_score(&b, s, who, deep, i32::MIN, i32::MAX), v);
                for (alpha, beta) in [(-32, 32), (-1, 1), (0, 32), (-32, 0), (31, 32), (-40, -33)] {
                    let r = get_score(&b, s, who, deep, alpha, beta);
                    if r <= alpha {
                        assert!(v <= r);
                    } else if r >= beta {
                        assert!(v >= r);
                    } else {
                        assert_eq!(r, v);
                    }
                }
            }
        }
    }
}

#[test]
fn perfect_play_ends_in_a_draw() {
    let mut game: Game<TTTBoard, TTTStep> =
        Game::new(TTTBoard::new(), [Role::Com, Role::Com], GameType::Put);
    while game.state == GameState::Running {
        let best = get_next_best_step(&game.board, game.curr_player).unwrap();
        assert!(game.step(best));
    }
    assert_eq!(game.state, GameState::Over(OutCome::Draw));
    assert_eq!(game.hist_steps.len(), 9);
}

#[test]
fn the_small_board_shows_its_stones() {
    let b = board_of(&[(0, 0, 0), (1, 1, 1), (0, 2, 0), (7, 1, 2)]);
    assert_eq!(
        b.to_array(),
        vec![vec!['o', ' ', ' '], vec![' ', 'x', '?'], vec!['o', ' ', ' ']]
    );
    assert_eq!(b.size(), (3, 3));
    assert_eq!(b.to_string(), "");
}

#[test]
fn steps_know_their_player() {
    let s = step(1, 2, 0);
    assert_eq!(s.who(), Player(1));
    assert_eq!(s.piece.pos, TTTPos(2, 0));
}

#[test]
fn a_line_without_a_reply_ends_with_the_score() {
    // The last free cell is taken: no step is left to propose.
    let b = board_of(&[
        (0, 0, 0),
        (1, 0, 1),
        (0, 0, 2),
        (1, 1, 0),
        (0, 1, 1),
        (1, 2, 0),
        (0, 1, 2),
        (1, 2, 2),
    ]);
    let last = step(0, 2, 1);
    let after = b.copy_put(last).unwrap();
    assert!(after.get_possible_steps(Player(1), 4).is_empty());
    for (alpha, beta) in [(i32::MIN, i32::MAX), (-1, 1), (5, 6), (-6, -5)] {
        for deep in [1u8, 2, 5, 30] {
            assert_eq!(get_score(&b, last, Player(0), deep, alpha, beta), after.score(Player(0)));
        }
    }
}
