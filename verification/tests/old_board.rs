use boardgame_ai::board::{Pos, Role, TTTBoard};
use boardgame_ai::display::util::{Glyph, Look, Span};
use boardgame_ai::score::{ScoreBoard, TTTScore};
use boardgame_ai::tui::display::{generate_board, generate_empty_board, get_pos};

fn board_of(rows: [&str; 3]) -> TTTBoard {
    let mut b = TTTBoard::new();
    for (i, row) in rows.iter().enumerate() {
        for (j, ch) in row.chars().enumerate() {
            let r = match ch {
                'c' => Role::Com,
                'h' => Role::Hum,
                _ => Role::Empty,
            };
            b.set(Pos(i as i8, j as i8), r);
        }
    }
    b
}

#[test]
fn roles_and_their_letters() {
    assert_eq!(Role::Com.rev(), Role::Hum);
    assert_eq!(Role::Hum.rev(), Role::Com);
    assert_eq!(Role::Empty.rev(), Role::Empty);
    assert_eq!(Role::Com.to_char(), 'c');
    assert_eq!(Role::Hum.to_char(), 'h');
    assert_eq!(Role::Empty.to_char(), ' ');
}

#[test]
fn positions_in_a_range() {
    assert!(Pos(0, 2).valid(0, 2));
    assert!(!Pos(3, 0).valid(0, 2));
    assert!(!Pos(0, -1).valid(0, 2));
    assert!(Pos(-1, -1).valid(-1, 0));
    assert!(!Pos(1, 1).valid(2, 0));
    assert_eq!(Pos(1, 2) + [1, -1], Pos(2, 1));
    assert_eq!(Pos(1, 2) - [1, -1], Pos(0, 3));
}

#[test]
fn setting_and_putting_stones() {
    let mut b = TTTBoard::new();
    assert_eq!(TTTBoard::size(), 3);
    assert_eq!(b.get_empty_poss().len(), 9);
    b.put(Pos(1, 1), Role::Hum);
    assert_eq!(b.pieces[1][1], Role::Hum);
    // An occupied cell and a cell off the board are left alone.
    b.put(Pos(1, 1), Role::Com);
    b.put(Pos(3, 1), Role::Com);
    b.put(Pos(-1, 0), Role::Com);
    assert_eq!(b.pieces[1][1], Role::Hum);
    assert!(!b.can_put(Pos(1, 1)));
    assert!(b.can_put(Pos(0, 0)));
    assert!(!b.can_put(Pos(0, 3)));
    assert!(!b.can_put(Pos(-1, 0)));
    // Setting overrides.
    b.set(Pos(1, 1), Role::Com);
    assert_eq!(b.pieces[1][1], Role::Com);
    let c = b.copy_set(Pos(0, 2), Role::Hum);
    assert_eq!(c.pieces[0][2], Role::Hum);
    assert_eq!(c.pieces[1][1], Role::Com);
    assert_eq!(b.pieces[0][2], Role::Empty);
    assert_eq!(b.get_poss(Role::Com), vec![Pos(1, 1)]);
    assert_eq!(c.get_poss(Role::Hum), vec![Pos(0, 2)]);
    assert_eq!(
        c.get_empty_poss(),
        vec![Pos(0, 0), Pos(0, 1), Pos(1, 0), Pos(1, 2), Pos(2, 0), Pos(2, 1), Pos(2, 2)]
    );
}

#[test]
fn who_has_won() {
    assert_eq!(TTTBoard::new().over(), (false, Role::Empty));
    assert_eq!(board_of(["ccc", "hh ", "   "]).over(), (true, Role::Com));
    assert_eq!(board_of(["h c", "hc ", "h  "]).over(), (true, Role::Hum));
    assert_eq!(board_of(["c h", " ch", "  c"]).over(), (true, Role::Com));
    assert_eq!(board_of(["c h", "ch ", "h c"]).over(), (true, Role::Hum));
    assert_eq!(board_of(["ch ", "ch ", " c "]).over(), (false, Role::Empty));
    assert_eq!(board_of(["chc", "chh", "hch"]).over(), (true, Role::Empty));
    // With a line each, the computer is named.
    assert_eq!(board_of(["ccc", "hhh", "   "]).over(), (true, Role::Com));
    for line in 0..3 {
        let mut rows = ["   "; 3];
        rows[line] = "hhh";
        assert_eq!(board_of(rows).over(), (true, Role::Hum));
    }
    assert_eq!(board_of([" c ", " c ", " c "]).over(), (true, Role::Com));
    assert_eq!(board_of(["  h", "  h", "  h"]).over(), (true, Role::Hum));
}

#[test]
fn lines_through_a_cell() {
    let b = board_of(["c c", " c ", "h c"]);
    // From the middle: nothing down, nothing right, both ends of one
    // diagonal, one end of the other.
    assert_eq!(
        b.get_neighbours(Role::Com, Pos(1, 1)),
        vec![vec![Pos(2, 2), Pos(0, 0)], vec![Pos(0, 2)]]
    );
    assert_eq!(b.get_neighbours(Role::Hum, Pos(1, 1)), vec![vec![Pos(2, 0)]]);
    // From a corner the cells run on without a gap.
    assert_eq!(b.get_neighbours(Role::Com, Pos(2, 0)), vec![vec![Pos(1, 1), Pos(0, 2)]]);
    assert_eq!(b.get_neighbours(Role::Com, Pos(0, 1)), vec![vec![Pos(1, 1)], vec![Pos(0, 2), Pos(0, 0)]]);
    assert!(b.get_neighbours(Role::Hum, Pos(0, 1)).is_empty());
    assert!(TTTBoard::new().get_neighbours(Role::Com, Pos(1, 1)).is_empty());
    // A gap ends the walk.
    let gap = board_of(["c c", "   ", "   "]);
    assert!(gap.get_neighbours(Role::Com, Pos(0, 1)).len() == 1);
    assert_eq!(gap.get_neighbours(Role::Com, Pos(0, 1))[0], vec![Pos(0, 2), Pos(0, 0)]);
    let far = board_of([" cc", "   ", "   "]);
    assert_eq!(far.get_neighbours(Role::Com, Pos(0, 0)), vec![vec![Pos(0, 1), Pos(0, 2)]]);
}

#[test]
fn highest_and_lowest_score() {
    let mut s = ScoreBoard::new();
    assert_eq!(s.max(), None);
    assert_eq!(s.min(), None);
    s.scores[1][2] = Some(-5);
    assert_eq!(s.max(), Some(-5));
    assert_eq!(s.min(), Some(-5));
    s.scores[0][0] = Some(7);
    s.scores[2][2] = Some(7);
    s.scores[2][0] = Some(-64);
    assert_eq!(s.max(), Some(7));
    assert_eq!(s.min(), Some(-64));
    s.scores[1][1] = Some(i16::MAX);
    s.scores[0][1] = Some(i16::MIN);
    assert_eq!(s.max(), Some(i16::MAX));
    assert_eq!(s.min(), Some(i16::MIN));
}

#[test]
fn score_of_a_finished_game() {
    let t = TTTScore::standard();
    assert_eq!((t.base, t.center, t.double, t.triple), (0, 2, 1, 64));
    let won = board_of(["ccc", "hh ", "   "]);
    assert_eq!(t.score(&won, Role::Com), 64);
    assert_eq!(t.score(&won, Role::Hum), -64);
    assert_eq!(t.score(&won, Role::Empty), 0);
    let draw = board_of(["chc", "chh", "hch"]);
    assert_eq!(t.score(&draw, Role::Com), 0);
    assert_eq!(t.score(&draw, Role::Hum), 0);
    assert_eq!(t.score(&TTTBoard::new(), Role::Com), 0);
}

#[test]
fn score_of_a_step() {
    let t = TTTScore::standard();
    let empty = TTTBoard::new();
    assert_eq!(t.score_step(Role::Com, &empty, Pos(1, 1)), 2);
    assert_eq!(t.score_step(Role::Com, &empty, Pos(0, 0)), 0);
    let b = board_of(["c c", " c ", "h  "]);
    // The top row would be complete.
    assert_eq!(t.score_step(Role::Com, &b, Pos(0, 1)), 64 + 1);
    // One diagonal complete, one neighbour on the other line through the corner.
    assert_eq!(t.score_step(Role::Com, &b, Pos(2, 2)), 64);
    assert_eq!(t.score_step(Role::Hum, &b, Pos(1, 0)), 1);
    let custom = TTTScore { base: 3, center: 10, double: 20, triple: 50 };
    assert_eq!(custom.score_step(Role::Com, &empty, Pos(1, 1)), 13);
    assert_eq!(custom.score_step(Role::Com, &b, Pos(0, 1)), 3 + 50 + 20);
}

fn plain(glyph: Glyph) -> Span {
    Span { glyph, look: Look::Plain }
}

#[test]
fn the_old_screen_of_the_board() {
    let b = board_of(["c  ", " h ", "  c"]);
    let text = generate_board(b);
    assert_eq!(text.len(), 5);
    let cells = |a: char, b: char, c: char| {
        vec![
            plain(Glyph::Pad),
            plain(Glyph::Cell(a)),
            plain(Glyph::Bar),
            plain(Glyph::Cell(b)),
            plain(Glyph::Bar),
            plain(Glyph::Cell(c)),
        ]
    };
    let rule = vec![
        plain(Glyph::Dash),
        plain(Glyph::Dash),
        plain(Glyph::Dash),
        plain(Glyph::Cross),
        plain(Glyph::Cross),
    ];
    assert_eq!(text[0], cells('c', ' ', ' '));
    assert_eq!(text[1], rule);
    assert_eq!(text[2], cells(' ', 'h', ' '));
    assert_eq!(text[3], rule);
    assert_eq!(text[4], cells(' ', ' ', 'c'));
    let blank = generate_empty_board(3);
    assert_eq!(blank.len(), 5);
    assert_eq!(blank[0], cells('x', 'x', 'x'));
    assert_eq!(blank[3], rule);
}

#[test]
fn a_click_on_the_old_screen() {
    assert_eq!(get_pos(1, 1), Some(Pos(0, 0)));
    assert_eq!(get_pos(3, 1), Some(Pos(0, 0)));
    assert_eq!(get_pos(5, 3), Some(Pos(1, 1)));
    assert_eq!(get_pos(9, 5), Some(Pos(2, 2)));
    assert_eq!(get_pos(4, 1), None);
    assert_eq!(get_pos(0, 1), None);
    assert_eq!(get_pos(1, 0), None);
    assert_eq!(get_pos(1, 2), None);
    // Row and column are cut down to eight bits.
    assert_eq!(get_pos(4 * 200 + 1, 2 * 130 + 1), Some(Pos(-126, -56)));
}

#[test]
fn the_board_as_text() {
    let b = board_of(["c h", " c ", "h  "]);
    assert_eq!(
        b.to_text(),
        " c │   │ h\n───┼───┼───\n   │ c │  \n───┼───┼───\n h │   │  "
    );
    assert_eq!(
        TTTBoard::new().to_text(),
        "   │   │  \n───┼───┼───\n   │   │  \n───┼───┼───\n   │   │  "
    );
}
