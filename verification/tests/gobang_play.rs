use boardgame_ai::ai::{get_next_best_step, get_score, search_best_step, AI};
use boardgame_ai::base::{Board, Game, GameState, GameType, OutCome, Player, Role, Step};
use boardgame_ai::display::Display;
use boardgame_ai::gobang::util::{get_cond_by_dir, Cond, Dir, FIVE};
use boardgame_ai::gobang::{GoBoard, GoPiece, GoPos, GoScores, GoStep};

fn play(board: &mut GoBoard, moves: &[(u8, u8, u8)]) {
    for &(r, c, p) in moves {
        assert!(board.put(GoStep::new(r, c, Player(p))), "stone on ({}, {})", r, c);
    }
}

/// Counts the runs of `p` by walking every line of the grid from end to end.
fn rescan(board: &GoBoard, p: u8) -> (u8, [u16; 4], [u16; 3]) {
    let mut five = 0u8;
    let mut open = [0u16; 4];
    let mut half = [0u16; 3];
    let own = |r: i32, c: i32| -> bool {
        (0..15).contains(&r)
            && (0..15).contains(&c)
            && board.pieces[r as usize][c as usize] == GoPiece::P(Player(p))
    };
    let empty = |r: i32, c: i32| -> bool {
        (0..15).contains(&r)
            && (0..15).contains(&c)
            && board.pieces[r as usize][c as usize] == GoPiece::Empty
    };
    for (dr, dc) in [(0, 1), (1, 0), (1, -1), (1, 1)] {
        for r in 0..15i32 {
            for c in 0..15i32 {
                if !own(r, c) || own(r - dr, c - dc) {
                    continue;
                }
                let mut len = 0;
                while own(r + len * dr, c + len * dc) {
                    len += 1;
                }
                let ends = empty(r - dr, c - dc) as u8 + empty(r + len * dr, c + len * dc) as u8;
                if len >= 5 {
                    five = 1;
                } else if ends == 2 {
                    open[len as usize - 1] += 1;
                } else if ends == 1 && len >= 2 {
                    half[len as usize - 2] += 1;
                }
            }
        }
    }
    (five, open, half)
}

fn assert_counters_match(board: &GoBoard) {
    for p in 0..2u8 {
        let s = &board.scores[p as usize];
        assert_eq!((s.five, s.non_block, s.block), rescan(board, p), "player {}", p);
    }
}

#[test]
fn new_board_is_empty_and_running() {
    let board = GoBoard::new();
    assert_eq!(board.pieces_num, 0);
    assert_eq!(board.over(), GameState::Running);
    assert_eq!(board.score(Player(0)), 0);
    assert_eq!(board.score(Player(1)), 0);
    assert_counters_match(&board);
    for row in board.to_array() {
        assert_eq!(row, vec![' '; 15]);
    }
    assert_eq!(board.size(), (15, 15));
}

#[test]
fn illegal_steps_are_refused_and_change_nothing() {
    let mut board = GoBoard::new();
    assert!(board.put(GoStep::new(7, 7, Player(0))));
    let before = board.clone();
    assert!(!board.put(GoStep::new(7, 7, Player(1))));
    assert!(!board.put(GoStep::new(15, 0, Player(1))));
    assert!(!board.put(GoStep::new(0, 15, Player(1))));
    assert!(!board.put(GoStep::new(255, 255, Player(0))));
    assert!(!board.put(GoStep::new(3, 3, Player(2))));
    assert_eq!(board.pieces, before.pieces);
    assert_eq!(board.pieces_num, 1);
    assert_counters_match(&board);
    assert!(board.copy_put(GoStep::new(7, 7, Player(1))).is_none());
    let copy = board.copy_put(GoStep::new(7, 8, Player(1))).unwrap();
    assert_eq!(copy.pieces[7][8], GoPiece::P(Player(1)));
    assert_eq!(board.pieces[7][8], GoPiece::Empty);
}

#[test]
fn counters_follow_a_single_row() {
    let mut board = GoBoard::new();
    play(&mut board, &[(7, 7, 0)]);
    // One stone alone is an open run of one along each of the four axes.
    assert_eq!(board.scores[0].non_block, [4, 0, 0, 0]);
    play(&mut board, &[(7, 8, 0)]);
    // An open two along the row; each stone is still alone along three axes.
    assert_eq!(board.scores[0].non_block, [6, 1, 0, 0]);
    assert_eq!(board.score(Player(0)), 32);
    assert_eq!(board.score(Player(1)), -32);
    play(&mut board, &[(7, 9, 1)]);
    // The two is now closed on one side.
    assert_eq!(board.scores[0].non_block, [6, 0, 0, 0]);
    assert_eq!(board.scores[0].block, [1, 0, 0]);
    assert_eq!(board.scores[1].non_block, [3, 0, 0, 0]);
    assert_eq!(board.score(Player(0)), 2);
    play(&mut board, &[(7, 6, 1)]);
    // Closed on both sides: the two is counted no more.
    assert_eq!(board.scores[0].block, [0, 0, 0]);
    assert_eq!(board.score(Player(0)), 0);
    assert_counters_match(&board);
}

#[test]
fn weights_of_open_and_half_open_runs() {
    assert_eq!(GoScores::get(1, false), 0);
    assert_eq!(GoScores::get(2, false), 32);
    assert_eq!(GoScores::get(3, false), 256);
    assert_eq!(GoScores::get(4, false), 1024);
    assert_eq!(GoScores::get(1, true), 0);
    assert_eq!(GoScores::get(2, true), 2);
    assert_eq!(GoScores::get(3, true), 32);
    assert_eq!(GoScores::get(4, true), 256);
    assert_eq!(GoScores::get(5, false), 5000);
    assert_eq!(GoScores::get(9, true), 5000);
    assert_eq!(GoScores::get(0, false), 0);
    assert_eq!(FIVE, 5000);
    let mut board = GoBoard::new();
    play(&mut board, &[(3, 3, 0), (3, 4, 0), (3, 5, 0)]);
    assert_eq!(board.scores[0].sum(), 256);
    play(&mut board, &[(3, 6, 0)]);
    assert_eq!(board.scores[0].sum(), 1024);
    play(&mut board, &[(3, 2, 1)]);
    assert_eq!(board.scores[0].sum(), 256);
    assert_eq!(board.score(Player(0)), 256);
}

#[test]
fn counters_insert_and_remove_in_pairs() {
    let mut s = GoScores::new();
    assert!(!s.remove(3, false));
    s.insert(3, false);
    s.insert(3, true);
    s.insert(1, true);
    assert_eq!(s.non_block, [0, 0, 1, 0]);
    assert_eq!(s.block, [0, 1, 0]);
    assert!(s.remove(3, false));
    assert!(!s.remove(3, false));
    assert!(!s.remove(1, true));
    assert!(!s.remove(5, false));
    assert!(!s.remove(0, false));
    assert_eq!(s.non_block, [0, 0, 0, 0]);
    s.insert(5, false);
    assert_eq!(s.five, 1);
    s.insert(7, true);
    assert_eq!(s.five, 1);
    assert_eq!(s.sum(), 5000 + 32);
}

#[test]
fn counters_equal_a_rescan_after_every_stone() {
    for seed in [1u64, 7, 42, 2024, 99991] {
        let mut state = seed;
        let mut board = GoBoard::new();
        let mut who = 0u8;
        for _ in 0..160 {
            state = state.wrapping_mul(6364136223846793005).wrapping_add(1442695040888963407);
            let r = ((state >> 33) % 15) as u8;
            let c = ((state >> 17) % 15) as u8;
            if board.put(GoStep::new(r, c, Player(who))) {
                who = 1 - who;
            }
            assert_counters_match(&board);
        }
        let stones = board.pieces.iter().flatten().filter(|p| **p != GoPiece::Empty).count();
        assert_eq!(board.pieces_num as usize, stones);
    }
}

#[test]
fn counters_equal_a_rescan_in_crowded_corners() {
    let mut board = GoBoard::new();
    let mut who = 0u8;
    for r in 0..5u8 {
        for c in 0..5u8 {
            assert!(board.put(GoStep::new(r, 14 - c, Player(who))));
            assert_counters_match(&board);
            if (r + c) % 3 != 0 {
                who = 1 - who;
            }
        }
    }
    for r in 10..15u8 {
        for c in 0..6u8 {
            assert!(board.put(GoStep::new(r, c, Player(who))));
            assert_counters_match(&board);
            if (r * c) % 4 == 1 {
                who = 1 - who;
            }
        }
    }
}

#[test]
fn four_in_an_open_row_is_no_win_and_five_is() {
    let mut board = GoBoard::new();
    play(&mut board, &[(2, 2, 1), (3, 3, 1), (4, 4, 1), (5, 5, 1)]);
    assert_eq!(board.scores[1].non_block[3], 1);
    assert_eq!(board.scores[1].five, 0);
    assert_eq!(board.over(), GameState::Running);
    play(&mut board, &[(6, 6, 1)]);
    assert_eq!(board.scores[1].five, 1);
    assert_eq!(board.scores[1].non_block[3], 0);
    assert_eq!(board.over(), GameState::Over(OutCome::Winer(Player(1))));
}

#[test]
fn more_stones_in_a_won_line_do_not_change_the_win() {
    let mut board = GoBoard::new();
    play(&mut board, &[(9, 3, 0), (9, 4, 0), (9, 5, 0), (9, 6, 0), (9, 7, 0)]);
    assert_eq!(board.scores[0].five, 1);
    let buckets = (board.scores[0].non_block, board.scores[0].block);
    play(&mut board, &[(9, 8, 0)]);
    assert_eq!(board.scores[0].five, 1);
    play(&mut board, &[(9, 2, 0)]);
    assert_eq!(board.scores[0].five, 1);
    // The line is counted in no bucket, before or after.
    assert_eq!(board.scores[0].non_block[1..], buckets.0[1..]);
    assert_eq!(board.scores[0].block, buckets.1);
    assert_eq!(board.over(), GameState::Over(OutCome::Winer(Player(0))));
    // A second line of five, crossing at the new stone, changes nothing either.
    play(&mut board, &[(5, 9, 0), (6, 9, 0), (7, 9, 0), (8, 9, 0), (9, 9, 0)]);
    assert_eq!(board.scores[0].five, 1);
    play(&mut board, &[(0, 0, 1)]);
    assert_eq!(board.scores[0].five, 1);
    assert_eq!(board.scores[1].five, 0);
    assert_counters_match(&board);
}

#[test]
fn two_rows_of_two_merge_into_five() {
    let mut board = GoBoard::new();
    play(&mut board, &[(4, 10, 0), (5, 9, 0), (7, 7, 0), (8, 6, 0)]);
    assert_eq!(board.scores[0].non_block[1], 2);
    assert_eq!(board.part_score(&GoStep::new(6, 8, Player(0))), 5000);
    play(&mut board, &[(6, 8, 0)]);
    assert_eq!(board.scores[0].five, 1);
    assert_eq!(board.scores[0].non_block[1], 0);
    assert_counters_match(&board);
}

#[test]
fn both_players_with_five_counts_for_player_zero() {
    let mut board = GoBoard::new();
    play(&mut board, &[(0, 0, 1), (0, 1, 1), (0, 2, 1), (0, 3, 1), (0, 4, 1)]);
    assert_eq!(board.over(), GameState::Over(OutCome::Winer(Player(1))));
    play(&mut board, &[(2, 0, 0), (2, 1, 0), (2, 2, 0), (2, 3, 0), (2, 4, 0)]);
    assert_eq!(board.over(), GameState::Over(OutCome::Winer(Player(0))));
}

#[test]
fn a_full_board_without_five_is_a_draw() {
    let mut board = GoBoard::new();
    let mut placed = 0;
    for r in 0..15u8 {
        for c in 0..15u8 {
            assert_eq!(board.over(), GameState::Running);
            let who = ((c / 2) + r) % 2;
            assert!(board.put(GoStep::new(r, c, Player(who))));
            placed += 1;
            assert_eq!(board.pieces_num, placed);
        }
    }
    assert_eq!(board.over(), GameState::Over(OutCome::Draw));
    assert_counters_match(&board);
    assert!(board.get_possible_steps(Player(0), 30).is_empty());
    assert!(board.get_possible_steps(Player(0), 2).is_empty());
    assert!(get_next_best_step(&board, Player(0)).is_none());
    assert!(board.best_step_for(Player(0)).is_none());
    assert!(board.best_step_for(Player(1)).is_none());
}

#[test]
fn score_is_zero_sum_and_symmetric_under_exchange_of_the_stones() {
    let moves = [
        (7u8, 7u8, 0u8),
        (7, 8, 1),
        (8, 8, 0),
        (6, 6, 1),
        (9, 9, 0),
        (10, 10, 1),
        (8, 7, 0),
        (8, 6, 1),
        (8, 9, 0),
        (0, 0, 1),
        (8, 10, 0),
        (14, 14, 1),
    ];
    let mut board = GoBoard::new();
    let mut mirror = GoBoard::new();
    for &(r, c, p) in &moves {
        play(&mut board, &[(r, c, p)]);
        play(&mut mirror, &[(r, c, 1 - p)]);
        for p in [Player(0), Player(1)] {
            assert_eq!(board.score(p.rev()), -board.score(p));
            assert_eq!(mirror.score(p), -board.score(p));
            assert_eq!(mirror.score(p.rev()), board.score(p));
        }
    }
    assert_ne!(board.score(Player(0)), 0);
}

#[test]
fn scan_of_one_side() {
    let mut board = GoBoard::new();
    play(&mut board, &[(7, 8, 0), (7, 9, 0), (7, 10, 1), (6, 7, 1), (5, 7, 1)]);
    let at = GoPos(7, 7);
    assert_eq!(
        get_cond_by_dir(&board.pieces, &at, &Dir::Horiz(true)),
        Cond { player: Player(0), num: 2, block: true }
    );
    assert_eq!(
        get_cond_by_dir(&board.pieces, &at, &Dir::Horiz(false)),
        Cond { player: Player(0), num: 0, block: false }
    );
    assert_eq!(
        get_cond_by_dir(&board.pieces, &at, &Dir::Verti(false)),
        Cond { player: Player(1), num: 2, block: false }
    );
    assert_eq!(
        get_cond_by_dir(&board.pieces, &GoPos(0, 3), &Dir::Verti(false)),
        Cond { player: Player(0), num: 0, block: true }
    );
    assert_eq!(
        get_cond_by_dir(&board.pieces, &GoPos(14, 14), &Dir::BSlash(true)),
        Cond { player: Player(0), num: 0, block: true }
    );
    let mut long = GoBoard::new();
    play(&mut long, &[(1, 1, 1), (1, 2, 1), (1, 3, 1), (1, 4, 1), (1, 5, 1), (1, 6, 1), (1, 7, 0)]);
    assert_eq!(
        get_cond_by_dir(&long.pieces, &GoPos(1, 0), &Dir::Horiz(true)),
        Cond { player: Player(1), num: 5, block: false }
    );
    // Two stones up to the edge of the board.
    let mut edge = GoBoard::new();
    play(&mut edge, &[(0, 13, 0), (0, 14, 0)]);
    assert_eq!(
        get_cond_by_dir(&edge.pieces, &GoPos(0, 12), &Dir::Horiz(true)),
        Cond { player: Player(0), num: 2, block: true }
    );
}

#[test]
fn directions_and_steps_along_them() {
    assert_eq!(Dir::nth(0), Dir::Horiz(true));
    assert_eq!(Dir::nth(1), Dir::Horiz(false));
    assert_eq!(Dir::nth(2), Dir::Verti(true));
    assert_eq!(Dir::nth(5), Dir::FSlash(false));
    assert_eq!(Dir::nth(7), Dir::BSlash(false));
    assert_eq!(Dir::Horiz(true).get_pos_offset(), (0, 1));
    assert_eq!(Dir::Verti(false).get_pos_offset(), (-1, 0));
    assert_eq!(Dir::FSlash(true).get_pos_offset(), (1, -1));
    assert_eq!(Dir::FSlash(false).get_pos_offset(), (-1, 1));
    assert_eq!(Dir::BSlash(true).get_pos_offset(), (1, 1));
    assert_eq!(Dir::BSlash(false).get_pos_offset(), (-1, -1));
    let mut p = GoPos(0, 0);
    assert!(!p.dir_add(&Dir::Horiz(false)));
    assert_eq!(p, GoPos(0, 0));
    assert!(!p.dir_add(&Dir::FSlash(true)));
    assert!(p.dir_add(&Dir::Horiz(true)));
    assert_eq!(p, GoPos(0, 1));
    assert!(p.dir_add(&Dir::FSlash(true)));
    assert_eq!(p, GoPos(1, 0));
    let mut q = GoPos(14, 14);
    assert!(!q.dir_add(&Dir::Verti(true)));
    assert!(!q.dir_add(&Dir::BSlash(true)));
    assert!(q.dir_add(&Dir::BSlash(false)));
    assert_eq!(q, GoPos(13, 13));
    assert!(GoPos(14, 0).valid());
    assert!(!GoPos(15, 0).valid());
    assert!(!GoPos(3, 200).valid());
}

#[test]
fn neighbours_of_a_cell() {
    let mut board = GoBoard::new();
    play(&mut board, &[(7, 8, 0), (6, 6, 1), (8, 8, 0)]);
    assert!(board.has_neighbor(&GoStep::new(7, 7, Player(0))));
    assert!(board.has_neighbor(&GoStep::new(7, 7, Player(1))));
    assert!(!board.has_neighbor(&GoStep::new(5, 5, Player(0))));
    assert!(board.has_neighbor(&GoStep::new(5, 5, Player(1))));
    assert!(!board.has_neighbor(&GoStep::new(0, 0, Player(0))));
    assert!(!board.has_neighbor(&GoStep::new(7, 10, Player(0))));
    assert_eq!(
        board.get_pos_neighbor(&GoPos(7, 7), &GoPiece::P(Player(0)), 1),
        vec![GoPos(7, 8), GoPos(8, 8)]
    );
    assert_eq!(
        board.get_pos_neighbor(&GoPos(7, 7), &GoPiece::P(Player(1)), 1),
        vec![GoPos(6, 6)]
    );
    assert_eq!(board.get_pos_neighbor(&GoPos(0, 0), &GoPiece::Empty, 1).len(), 3);
    assert_eq!(board.get_piece(&GoPos(6, 6)), GoPiece::P(Player(1)));
    *board.get_mut_piece(&GoPos(0, 0)) = GoPiece::P(Player(1));
    assert_eq!(board.get_piece(&GoPos(0, 0)), GoPiece::P(Player(1)));
}

#[test]
fn what_a_stone_promises() {
    let mut board = GoBoard::new();
    play(&mut board, &[(7, 7, 0), (7, 8, 0)]);
    // An open three along the row.
    assert_eq!(board.part_score(&GoStep::new(7, 9, Player(0))), 256);
    assert_eq!(board.part_score(&GoStep::new(7, 6, Player(0))), 256);
    // An open two along the column or a diagonal.
    assert_eq!(board.part_score(&GoStep::new(8, 7, Player(0))), 32 + 32);
    // For the opponent the same cell only closes the row.
    assert_eq!(board.part_score(&GoStep::new(7, 9, Player(1))), 0);
    play(&mut board, &[(7, 9, 0), (7, 10, 0)]);
    assert_eq!(board.part_score(&GoStep::new(7, 11, Player(0))), FIVE);
    assert_eq!(board.part_score(&GoStep::new(7, 6, Player(0))), FIVE);
    assert_eq!(board.part_score(&GoStep::new(7, 11, Player(1))), 0);
    // Nothing is changed by asking.
    assert_eq!(board.pieces_num, 4);
    assert_eq!(board.scores[0].non_block[3], 1);
    // A three closed on one side by the edge of the board.
    let mut edge = GoBoard::new();
    play(&mut edge, &[(0, 0, 1), (0, 1, 1)]);
    assert_eq!(edge.part_score(&GoStep::new(0, 2, Player(1))), 32);
}

#[test]
fn candidates_on_the_empty_board_are_the_centre_and_its_neighbours() {
    let board = GoBoard::new();
    let steps = board.get_possible_steps(Player(1), 30);
    let cells: Vec<GoPos> = steps.iter().map(|s| s.pos).collect();
    assert_eq!(cells, vec![GoPos(7, 7), GoPos(6, 7), GoPos(7, 6), GoPos(7, 8), GoPos(8, 7)]);
    assert!(steps.iter().all(|s| s.who() == Player(1)));
    // Near the horizon cells of middling promise are tried if there are any.
    // There are none here, so the same cells are tried as far from it.
    assert!(!board.has_band());
    for deep in 1..5u8 {
        let near: Vec<GoPos> =
            board.get_possible_steps(Player(0), deep).iter().map(|s| s.pos).collect();
        assert_eq!(near, cells);
    }
    assert_eq!(board.rate(7, 7), (0, false));
    assert_eq!(board.rate(0, 0), (-14, false));
    assert_eq!(board.top(), 0);
}

#[test]
fn every_candidate_can_be_played() {
    let mut board = GoBoard::new();
    let mut who = 0u8;
    let mut state = 12345u64;
    for round in 0..40 {
        for deep in [1u8, 2, 4, 5, 6, 30] {
            let steps = board.get_possible_steps(Player(who), deep);
            for (i, s) in steps.iter().enumerate() {
                assert_eq!(s.who(), Player(who));
                assert!(s.pos.valid());
                assert_eq!(board.pieces[s.pos.0 as usize][s.pos.1 as usize], GoPiece::Empty);
                assert!(board.can_put(s));
                assert!(board.copy_put(*s).is_some(), "round {} deep {}", round, deep);
                assert!(steps[..i].iter().all(|t| t.pos != s.pos));
            }
            assert!(!steps.is_empty());
            let rated: Vec<i32> = steps.iter().map(|s| board.rate(s.pos.0, s.pos.1).0).collect();
            assert!(rated.windows(2).all(|w| w[0] >= w[1]));
        }
        loop {
            state = state.wrapping_mul(6364136223846793005).wrapping_add(1442695040888963407);
            let r = (5 + (state >> 33) % 6) as u8;
            let c = (5 + (state >> 17) % 6) as u8;
            if board.put(GoStep::new(r, c, Player(who))) {
                break;
            }
        }
        who = 1 - who;
        if round == 35 {
            break;
        }
    }
}

#[test]
fn candidates_are_ordered_by_promise_then_row_by_row() {
    let mut board = GoBoard::new();
    play(&mut board, &[(7, 7, 0), (7, 8, 0), (7, 9, 0), (3, 3, 1), (3, 4, 1)]);
    let steps = board.get_possible_steps(Player(1), 30);
    // The best cells make an open four for player 0, rated 1024; the floor is 1000.
    let cells: Vec<GoPos> = steps.iter().map(|s| s.pos).collect();
    assert_eq!(cells, vec![GoPos(7, 6), GoPos(7, 10)]);
    assert_eq!(board.rate(7, 6).0, 1024);
    assert_eq!(board.top(), 1024);
    // Near the horizon the band from 250 to 512 is tried instead.
    assert!(board.has_band());
    let near: Vec<GoPos> = board.get_possible_steps(Player(1), 3).iter().map(|s| s.pos).collect();
    assert_eq!(near, vec![GoPos(3, 2), GoPos(3, 5)]);
    assert_eq!(board.rate(3, 2).0, 256);
}

#[test]
fn a_winning_cell_is_tried_at_every_depth() {
    let mut board = GoBoard::new();
    play(
        &mut board,
        &[(7, 7, 0), (8, 7, 1), (7, 8, 0), (9, 9, 1), (7, 9, 0), (5, 5, 1), (7, 10, 0), (10, 3, 1)],
    );
    for deep in 1..=40u8 {
        for who in [Player(0), Player(1)] {
            let cells: Vec<GoPos> =
                board.get_possible_steps(who, deep).iter().map(|s| s.pos).collect();
            assert!(cells.contains(&GoPos(7, 6)), "deep {}", deep);
            assert!(cells.contains(&GoPos(7, 11)), "deep {}", deep);
        }
    }
    // The win for player 0, and an open two for player 1 with the stone on (8, 7).
    assert_eq!(board.rate(7, 6), (5000 + 32, true));
    assert_eq!(board.rate(7, 11), (5000, true));
}

#[test]
fn open_four_is_completed_and_wins_on_the_fifth_stone() {
    let mut game: Game<GoBoard, GoStep> =
        Game::new(GoBoard::new(), [Role::Hum, Role::Com], GameType::Put);
    let moves = [(7, 7), (8, 7), (7, 8), (9, 9), (7, 9), (5, 5), (7, 10), (10, 3)];
    for (r, c) in moves {
        assert_eq!(game.state, GameState::Running);
        let who = game.curr_player;
        assert!(game.step(GoStep::new_put_step((r, c), who)));
    }
    // Four in an open row do not end the game.
    assert_eq!(game.state, GameState::Running);
    assert_eq!(game.board.over(), GameState::Running);
    assert_eq!(game.curr_player, Player(0));
    let best = get_next_best_step(&game.board, Player(0)).unwrap();
    assert_eq!(game.board.best_step_for(Player(0)), Some(best));
    assert_eq!(best.who(), Player(0));
    assert!(best.pos == GoPos(7, 6) || best.pos == GoPos(7, 11));
    assert_eq!(best.pos, GoPos(7, 6));
    assert!(game.step(best));
    assert_eq!(game.state, GameState::Over(OutCome::Winer(Player(0))));
    assert_eq!(game.hist_steps.len(), 9);
    // Nothing more is played once the game is over.
    assert!(!game.step(GoStep::new(0, 0, Player(1))));
    assert_eq!(game.hist_steps.len(), 9);
}

#[test]
fn the_search_blocks_an_open_four_of_the_opponent() {
    let mut board = GoBoard::new();
    play(&mut board, &[(7, 7, 0), (7, 8, 0), (7, 9, 0), (7, 10, 0), (7, 11, 1), (2, 2, 1)]);
    let best = search_best_step(&board, Player(1), 2).unwrap();
    assert_eq!(best.pos, GoPos(7, 6));
}

fn plain_minimax(board: &GoBoard, step: GoStep, me: Player, deep: u8) -> i32 {
    let after = board.copy_put(step).unwrap();
    if deep == 1 || after.over() != GameState::Running {
        return after.score(me);
    }
    let mover = step.who().rev();
    let replies = after.get_possible_steps(mover, deep - 1);
    if replies.is_empty() {
        return after.score(me);
    }
    let values = replies.iter().map(|s| plain_minimax(&after, *s, me, deep - 1));
    if mover == me {
        values.max().unwrap()
    } else {
        values.min().unwrap()
    }
}

#[test]
fn pruning_does_not_change_the_choice() {
    let mut board = GoBoard::new();
    play(
        &mut board,
        &[(7, 7, 0), (6, 7, 1), (7, 8, 0), (6, 8, 1), (7, 9, 0), (8, 9, 1), (5, 6, 0), (6, 6, 1)],
    );
    for deep in 1..=5u8 {
        for who in [Player(0), Player(1)] {
            let steps = board.get_possible_steps(who, deep);
            let mut want: Option<(i32, GoStep)> = None;
            for s in &steps {
                let v = plain_minimax(&board, *s, who, deep);
                assert_eq!(get_score(&board, *s, who, deep, i32::MIN, i32::MAX), v);
                // With a window the result is the value inside it and a bound outside.
                let narrow = get_score(&board, *s, who, deep, -100, 100);
                if narrow <= -100 {
                    assert!(v <= narrow);
                } else if narrow >= 100 {
                    assert!(v >= narrow);
                } else {
                    assert_eq!(narrow, v);
                }
                if want.map_or(true, |(best, _)| v > best) {
                    want = Some((v, *s));
                }
            }
            let got = search_best_step(&board, who, deep);
            assert_eq!(got.map(|s| s.pos), want.map(|(_, s)| s.pos), "deep {}", deep);
        }
    }
}

#[test]
fn log_line_shows_the_counters() {
    let mut board = GoBoard::new();
    assert_eq!(board.to_string(), "0:0[0, 0, 0, 0][0, 0, 0] x:0[0, 0, 0, 0][0, 0, 0]");
    play(&mut board, &[(7, 7, 0), (7, 8, 0), (7, 9, 1)]);
    assert_eq!(board.to_string(), "0:0[6, 0, 0, 0][1, 0, 0] x:0[3, 0, 0, 0][0, 0, 0]");
}

#[test]
fn grid_shows_the_stones() {
    let mut board = GoBoard::new();
    play(&mut board, &[(0, 0, 0), (14, 14, 1), (3, 9, 1)]);
    let arr = board.to_array();
    assert_eq!(arr.len(), 15);
    assert_eq!(arr[0][0], '0');
    assert_eq!(arr[14][14], 'x');
    assert_eq!(arr[3][9], 'x');
    assert_eq!(arr[9][3], ' ');
    let marks = arr.iter().flatten().filter(|c| **c != ' ').count();
    assert_eq!(marks, 3);
}

#[test]
fn steps_are_made_for_placing() {
    let s = GoStep::new_put_step((4, 9), Player(1));
    assert_eq!(s, GoStep::new(4, 9, Player(1)));
    assert_eq!(s.who(), Player(1));
    assert_eq!(s.pos, GoPos(4, 9));
}

#[test]
fn the_library_scan_agrees_with_the_counters() {
    let mut board = GoBoard::new();
    let mut state = 777u64;
    let mut who = 0u8;
    for _ in 0..120 {
        state = state.wrapping_mul(6364136223846793005).wrapping_add(1442695040888963407);
        let r = ((state >> 33) % 15) as u8;
        let c = ((state >> 17) % 15) as u8;
        if board.put(GoStep::new(r, c, Player(who))) {
            who = 1 - who;
        }
        for p in 0..2u8 {
            let scanned = board.rescan(Player(p));
            let kept = &board.scores[p as usize];
            assert_eq!(
                (scanned.five, scanned.non_block, scanned.block),
                (kept.five, kept.non_block, kept.block)
            );
            assert_eq!((scanned.five, scanned.non_block, scanned.block), rescan(&board, p));
        }
    }
    // A grid that was not built stone by stone can be scanned as well.
    let mut set_up = GoBoard::new();
    for c in 3..9 {
        set_up.pieces[4][c] = GoPiece::P(Player(1));
    }
    set_up.pieces[6][6] = GoPiece::P(Player(0));
    set_up.pieces[7][7] = GoPiece::P(Player(0));
    let one = set_up.rescan(Player(1));
    // Six in a row are the win; along the other axes each of the stones is alone.
    assert_eq!((one.five, one.non_block, one.block), (1, [18, 0, 0, 0], [0, 0, 0]));
    let zero = set_up.rescan(Player(0));
    assert_eq!((zero.five, zero.non_block, zero.block), (0, [6, 1, 0, 0], [0, 0, 0]));
    // A player of no seat has no runs.
    let none = set_up.rescan(Player(5));
    assert_eq!((none.five, none.non_block, none.block), (0, [0; 4], [0; 3]));
}

#[test]
fn steps_of_this_game_place_stones() {
    assert!(GoStep::places());
}

#[test]
fn some_step_is_tried_as_long_as_a_cell_is_empty() {
    // A board with one empty cell, far from the centre and of no promise.
    let mut board = GoBoard::new();
    for r in 0..15u8 {
        for c in 0..15u8 {
            if (r, c) != (0, 14) {
                assert!(board.put(GoStep::new(r, c, Player(((c / 2) + r) % 2))));
            }
        }
    }
    assert_eq!(board.over(), GameState::Running);
    for deep in [1u8, 2, 3, 4, 5, 9, 30, 255] {
        for who in [Player(0), Player(1)] {
            let steps = board.get_possible_steps(who, deep);
            assert_eq!(steps.len(), 1, "deep {}", deep);
            assert_eq!(steps[0], GoStep::new(0, 14, who));
        }
    }
    assert_eq!(search_best_step(&board, Player(1), 1), Some(GoStep::new(0, 14, Player(1))));
    assert_eq!(board.best_step_for(Player(0)), Some(GoStep::new(0, 14, Player(0))));
    // Two lone stones in a corner: nothing is of middling promise.
    let mut corner = GoBoard::new();
    play(&mut corner, &[(0, 0, 0), (14, 14, 1)]);
    assert!(!corner.has_band());
    for deep in 1..7u8 {
        let far: Vec<GoPos> =
            corner.get_possible_steps(Player(0), 30).iter().map(|s| s.pos).collect();
        let near: Vec<GoPos> =
            corner.get_possible_steps(Player(0), deep).iter().map(|s| s.pos).collect();
        assert!(!near.is_empty());
        assert_eq!(near, far);
    }
}

#[test]
fn at_the_end_of_a_line_the_score_is_returned_whatever_the_window() {
    let mut board = GoBoard::new();
    play(&mut board, &[(7, 7, 0), (7, 8, 0), (7, 9, 0), (7, 10, 0), (3, 3, 1)]);
    for (alpha, beta) in [(i32::MIN, i32::MAX), (-1, 1), (6000, 6001), (-9000, -8000)] {
        // The last ply.
        let open = GoStep::new(8, 8, Player(1));
        let after = board.copy_put(open).unwrap();
        assert_eq!(get_score(&board, open, Player(1), 1, alpha, beta), after.score(Player(1)));
        // The game is over.
        let win = GoStep::new(7, 11, Player(0));
        let after = board.copy_put(win).unwrap();
        assert_eq!(after.over(), GameState::Over(OutCome::Winer(Player(0))));
        for deep in [1u8, 2, 7, 30] {
            assert_eq!(get_score(&board, win, Player(0), deep, alpha, beta), after.score(Player(0)));
            assert_eq!(get_score(&board, win, Player(1), deep, alpha, beta), after.score(Player(1)));
        }
    }
    assert_eq!(board.pieces_num, 5);
}
