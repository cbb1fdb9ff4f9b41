use boardgame_ai::base::{Board, Game, GameState, GameType, OutCome, Player, Role};
use boardgame_ai::base::Step;
use boardgame_ai::display::tui::{
    computer_to_move, computer_turn, human_turn, tui_log, LogBuffer, TuiEvent, Turn, LOG_LINES,
};
use boardgame_ai::display::util::{generate_empty_board, generate_map, get_pos, Glyph, Look, Span};
use boardgame_ai::display::Display;
use boardgame_ai::goT::{GoTBoard, GoTStep};
use boardgame_ai::gobang::{GoBoard, GoPiece, GoStep};
use boardgame_ai::tic_tac_toe::{TTTBoard, TTTStep};

fn plain(glyph: Glyph) -> Span {
    Span { glyph, look: Look::Plain }
}

#[test]
fn layout_of_an_empty_board() {
    assert!(generate_empty_board(0).is_empty());
    assert_eq!(generate_empty_board(1), vec![vec![plain(Glyph::Pad), plain(Glyph::Cell('x'))]]);
    let two = generate_empty_board(2);
    assert_eq!(
        two,
        vec![
            vec![
                plain(Glyph::Pad),
                plain(Glyph::Cell('x')),
                plain(Glyph::Bar),
                plain(Glyph::Cell('x'))
            ],
            vec![
                plain(Glyph::Dash),
                plain(Glyph::Dash),
                plain(Glyph::Dash),
                plain(Glyph::Cross)
            ],
            vec![
                plain(Glyph::Pad),
                plain(Glyph::Cell('x')),
                plain(Glyph::Bar),
                plain(Glyph::Cell('x'))
            ],
        ]
    );
    let big = generate_empty_board(15);
    assert_eq!(big.len(), 29);
    assert_eq!(big[0].len(), 30);
    assert_eq!(big[1].len(), 17);
    assert_eq!(generate_empty_board(255).len(), 509);
}

#[test]
fn layout_of_a_board_with_stones() {
    let mut b = TTTBoard::new();
    assert!(b.hand_put(Player(0), 0, 1));
    assert!(b.hand_put(Player(1), 2, 2));
    let text = generate_map(&b);
    let bold = |c: char| Span { glyph: Glyph::Cell(c), look: Look::Bold };
    let bar = Span { glyph: Glyph::Bar, look: Look::Line };
    let dash = Span { glyph: Glyph::Dash, look: Look::Line };
    let cross = Span { glyph: Glyph::Cross, look: Look::Line };
    assert_eq!(text.len(), 5);
    assert_eq!(text[0], vec![plain(Glyph::Pad), bold(' '), bar, bold('o'), bar, bold(' ')]);
    assert_eq!(text[1], vec![dash, dash, dash, cross, cross]);
    assert_eq!(text[3], vec![dash, dash, dash, cross, cross]);
    assert_eq!(text[4], vec![plain(Glyph::Pad), bold(' '), bar, bold(' '), bar, bold('x')]);
    let mut go = GoBoard::new();
    assert!(go.put(GoStep::new(14, 0, Player(1))));
    let text = generate_map(&go);
    assert_eq!(text.len(), 29);
    assert_eq!(text[28][1], bold('x'));
    assert_eq!(text[28].len(), 30);
    assert_eq!(text[27].len(), 17);
    let got = generate_map(&GoTBoard::new());
    assert_eq!(got.len(), 7);
    assert_eq!(got[0][1], bold('0'));
    assert_eq!(got[6][7], bold('x'));
    assert_eq!(got[2][3], bold(' '));
}

#[test]
fn a_click_falls_into_a_cell_or_onto_a_line() {
    assert_eq!(get_pos(1, 1), Some((0, 0)));
    assert_eq!(get_pos(2, 1), Some((0, 0)));
    assert_eq!(get_pos(3, 1), Some((0, 0)));
    assert_eq!(get_pos(4, 1), None);
    assert_eq!(get_pos(5, 1), Some((0, 1)));
    assert_eq!(get_pos(7, 9), Some((4, 1)));
    assert_eq!(get_pos(0, 0), None);
    assert_eq!(get_pos(1, 0), None);
    assert_eq!(get_pos(1, 2), None);
    assert_eq!(get_pos(65535, 65535), Some((32767, 16383)));
    assert_eq!(get_pos(65532, 65535), None);
}

#[test]
fn clicks_place_stones() {
    let mut game: Game<GoBoard, GoStep> =
        Game::new(GoBoard::new(), [Role::Hum, Role::Com], GameType::Put);
    let mut picked = None;
    assert!(!computer_to_move(&game));
    assert_eq!(human_turn(&mut game, &mut picked, TuiEvent::Nothing), Turn::Idle);
    assert_eq!(human_turn(&mut game, &mut picked, TuiEvent::GetPos((7, 7))), Turn::Played);
    assert_eq!(picked, None);
    assert_eq!(game.board.pieces[7][7], GoPiece::P(Player(0)));
    assert_eq!(game.curr_player, Player(1));
    assert!(computer_to_move(&game));
    // An occupied cell and a cell off the board change nothing.
    assert_eq!(human_turn(&mut game, &mut picked, TuiEvent::GetPos((7, 7))), Turn::Idle);
    assert_eq!(human_turn(&mut game, &mut picked, TuiEvent::GetPos((20, 3))), Turn::Idle);
    assert_eq!(game.curr_player, Player(1));
    assert_eq!(game.hist_steps.len(), 1);
    // Row and column are cut down to eight bits.
    assert_eq!(human_turn(&mut game, &mut picked, TuiEvent::GetPos((256 + 3, 512 + 4))), Turn::Played);
    assert_eq!(game.board.pieces[3][4], GoPiece::P(Player(1)));
    assert_eq!(human_turn(&mut game, &mut picked, TuiEvent::Exit), Turn::Quit);
    assert_eq!(game.hist_steps.len(), 2);
}

#[test]
fn clicks_move_stones() {
    let mut game: Game<GoTBoard, GoTStep> =
        Game::new(GoTBoard::new(), [Role::Hum, Role::Hum], GameType::Move);
    let mut picked = None;
    assert_eq!(human_turn(&mut game, &mut picked, TuiEvent::GetPos((0, 1))), Turn::Idle);
    assert_eq!(picked, Some((0, 1)));
    assert_eq!(human_turn(&mut game, &mut picked, TuiEvent::Nothing), Turn::Idle);
    assert_eq!(picked, Some((0, 1)));
    assert_eq!(human_turn(&mut game, &mut picked, TuiEvent::GetPos((1, 1))), Turn::Played);
    assert_eq!(picked, None);
    assert_eq!(game.curr_player, Player(1));
    assert_eq!(game.hist_steps.len(), 1);
    // A step that is not legal clears the pick and changes nothing else.
    assert_eq!(human_turn(&mut game, &mut picked, TuiEvent::GetPos((3, 0))), Turn::Idle);
    assert_eq!(human_turn(&mut game, &mut picked, TuiEvent::GetPos((1, 0))), Turn::Idle);
    assert_eq!(picked, None);
    assert_eq!(game.curr_player, Player(1));
    assert_eq!(human_turn(&mut game, &mut picked, TuiEvent::Exit), Turn::Quit);
}

#[test]
fn the_computer_plays_its_best_step() {
    let mut game: Game<TTTBoard, TTTStep> =
        Game::new(TTTBoard::new(), [Role::Com, Role::Com], GameType::Put);
    let mut turns = 0;
    while computer_turn(&mut game) == Turn::Played {
        turns += 1;
    }
    assert_eq!(turns, 9);
    assert_eq!(game.state, GameState::Over(OutCome::Draw));
    assert_eq!(computer_turn(&mut game), Turn::Idle);
    assert_eq!(game.hist_steps.len(), 9);
    // Once the game is won nothing is played, though cells are free.
    let mut won: Game<TTTBoard, TTTStep> =
        Game::new(TTTBoard::new(), [Role::Hum, Role::Com], GameType::Put);
    let mut picked = None;
    for cell in [(0, 0), (1, 0), (0, 1), (1, 1), (0, 2)] {
        assert_eq!(human_turn(&mut won, &mut picked, TuiEvent::GetPos(cell)), Turn::Played);
    }
    assert_eq!(won.state, GameState::Over(OutCome::Winer(Player(0))));
    assert_eq!(computer_turn(&mut won), Turn::Idle);
    assert_eq!(human_turn(&mut won, &mut picked, TuiEvent::GetPos((2, 2))), Turn::Idle);
    assert_eq!(won.board.over(), GameState::Over(OutCome::Winer(Player(0))));
}

#[test]
fn the_log_keeps_the_last_lines() {
    let mut book = LogBuffer::new();
    assert!(book.lines.is_empty());
    assert_eq!(LOG_LINES, 21);
    for i in 0..21 {
        tui_log(&mut book, format!("line {}", i));
        assert_eq!(book.lines.len(), i + 1);
    }
    assert_eq!(book.lines[0], "line 0");
    tui_log(&mut book, "line 21".to_string());
    assert_eq!(book.lines.len(), 21);
    assert_eq!(book.lines[0], "line 1");
    assert_eq!(book.lines[20], "line 21");
    for i in 22..100 {
        tui_log(&mut book, format!("line {}", i));
    }
    assert_eq!(book.lines.len(), 21);
    assert_eq!(book.lines[0], "line 79");
    assert_eq!(book.lines[20], "line 99");
}

#[test]
fn kinds_of_steps() {
    assert!(TTTStep::places());
    assert!(!GoTStep::places());
}
