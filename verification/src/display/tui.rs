//! What a turn at the board does with the events of the screen. Drawing the
//! screen and waiting for events is left to the program; what follows from
//! an event is decided here.

use crate::ai::{is_first_best, search_best_step, AI, SEARCH_DEPTH};
use crate::base::{Board, Game, GameState, GameType, Player, Role, Step};
use vstd::prelude::*;

verus! {

/// What the screen reports.
#[derive(Copy, Clone, Debug)]
pub enum TuiEvent {
    /// Nothing happened.
    Nothing,
    /// A click into the cell on the given row and column.
    GetPos((u16, u16)),
    /// The player wants to leave.
    Exit,
}

/// What a turn came to.
#[derive(PartialEq, Eq, Structural, Copy, Clone, Debug)]
pub enum Turn {
    /// The player wants to leave: the program ends.
    Quit,
    /// The position is as it was.
    Idle,
    /// A step was played: the position has changed and is worth a line in
    /// the log.
    Played,
}

/// The kind of steps of the game is the kind that the match was set up for.
pub open spec fn well_set<B: Board<S>, S: Step>(game: &Game<B, S>) -> bool {
    game.wf() && (game.game_type == GameType::Put <==> S::placing())
}

/// Whether the computer is to move.
pub fn computer_to_move<B: Board<S>, S: Step>(game: &Game<B, S>) -> (yes: bool)
    requires
        game.curr_player.valid(),
    ensures
        yes == (game.players[game.curr_player.0 as int] == Role::Com),
{
    game.players[game.curr_player.0 as usize] == Role::Com
}

/// The turn of the computer: it plays the step that the search picks for it,
/// if the search proposes any and the match is still running.
pub fn computer_turn<B: AI<S>, S: Step>(game: &mut Game<B, S>) -> (turn: Turn)
    requires
        old(game).wf(),
    ensures
        final(game).wf(),
        turn != Turn::Quit,
        final(game).players == old(game).players,
        final(game).game_type == old(game).game_type,
        turn == Turn::Played <==> old(game).state == GameState::Running && B::steps_spec(
            old(game).board@,
            old(game).curr_player,
            SEARCH_DEPTH,
        ).len() > 0,
        turn == Turn::Played ==> exists|i: int|
            is_first_best::<B, S>(
                old(game).board@,
                B::steps_spec(old(game).board@, old(game).curr_player, SEARCH_DEPTH),
                old(game).curr_player,
                SEARCH_DEPTH,
                i,
            ) && final(game).board@ == B::put_spec(
                old(game).board@,
                B::steps_spec(old(game).board@, old(game).curr_player, SEARCH_DEPTH)[i],
            ) && final(game).hist_steps@ == old(game).hist_steps@.push(
                B::steps_spec(old(game).board@, old(game).curr_player, SEARCH_DEPTH)[i],
            ),
        turn == Turn::Played ==> final(game).state == B::over_spec(final(game).board@)
            && final(game).curr_player == old(game).curr_player.other(),
        turn == Turn::Idle ==> final(game).board@ == old(game).board@ && final(game).state
            == old(game).state && final(game).curr_player == old(game).curr_player
            && final(game).hist_steps@ == old(game).hist_steps@,
{
    match search_best_step(&game.board, game.curr_player, SEARCH_DEPTH) {
        Some(step) => {
            if game.step(step) {
                Turn::Played
            } else {
                Turn::Idle
            }
        },
        None => Turn::Idle,
    }
}

/// The row or column of a click, cut down to eight bits.
pub open spec fn cut(x: u16) -> u8 {
    (x % 256) as u8
}

/// `step` is a step that a click into the cell `to` stands for: a step of
/// `who` onto `to`, from the cell picked before in a game of moving.
pub open spec fn click_step<S: Step>(
    picked: Option<(u8, u8)>,
    to: (u8, u8),
    who: Player,
    step: S,
) -> bool {
    &&& step.who_spec() == who
    &&& step.target() == to
    &&& step.source() == if S::placing() {
        None
    } else {
        picked
    }
}

/// A click into the cell `to` is played in the match `game`: the match is
/// running, the click completes a step, which in a game of moving takes a
/// cell picked before, and a step that the click stands for is legal.
pub open spec fn click_legal<B: Board<S>, S: Step>(
    game: Game<B, S>,
    picked: Option<(u8, u8)>,
    to: (u8, u8),
) -> bool {
    &&& game.state == GameState::Running
    &&& S::placing() || picked is Some
    &&& exists|step: S|
        #![trigger B::can_put_spec(game.board@, step)]
        click_step(picked, to, game.curr_player, step) && B::can_put_spec(game.board@, step)
}

/// The board `after` is what a click into the cell `to` makes of the match
/// `game`: a step that the click stands for is legal and leads to it.
pub open spec fn click_played<B: Board<S>, S: Step>(
    game: Game<B, S>,
    picked: Option<(u8, u8)>,
    to: (u8, u8),
    after: B::V,
) -> bool {
    exists|step: S|
        #![trigger B::put_spec(game.board@, step)]
        click_step(picked, to, game.curr_player, step) && B::can_put_spec(game.board@, step)
            && after == B::put_spec(game.board@, step) && game.state == GameState::Running
}

/// The turn of a human player, given what the screen reports.
///
/// A click into a cell places a stone there in a game of placing. In a game
/// of moving, a first click picks the cell to move from and is kept in
/// `last_click`, and the next click names the cell to move to and clears it.
/// Row and column of a click are cut down to eight bits. A step that the
/// board refuses, or any click once the match is over, changes nothing.
pub fn human_turn<B: Board<S>, S: Step>(
    game: &mut Game<B, S>,
    last_click: &mut Option<(u8, u8)>,
    event: TuiEvent,
) -> (turn: Turn)
    requires
        well_set(old(game)),
    ensures
        well_set(final(game)),
        final(game).players == old(game).players,
        turn == Turn::Quit <==> event is Exit,
        event matches TuiEvent::GetPos((x, y)) ==> *final(last_click) == if S::placing() {
            *old(last_click)
        } else if *old(last_click) is Some {
            None
        } else {
            Some((cut(x), cut(y)))
        },
        !(event is GetPos) ==> *final(last_click) == *old(last_click),
        turn == Turn::Played ==> event is GetPos,
        event matches TuiEvent::GetPos((x, y)) ==> (turn == Turn::Played <==> click_legal(
            *old(game),
            *old(last_click),
            (cut(x), cut(y)),
        )),
        event matches TuiEvent::GetPos((x, y)) ==> (turn == Turn::Played ==> click_played(
            *old(game),
            *old(last_click),
            (cut(x), cut(y)),
            final(game).board@,
        )),
        turn == Turn::Played ==> final(game).state == B::over_spec(final(game).board@)
            && final(game).curr_player == old(game).curr_player.other(),
        turn != Turn::Played ==> final(game).board@ == old(game).board@ && final(game).state
            == old(game).state && final(game).curr_player == old(game).curr_player
            && final(game).hist_steps@ == old(game).hist_steps@,
{
    match event {
        TuiEvent::Exit => Turn::Quit,
        TuiEvent::Nothing => Turn::Idle,
        TuiEvent::GetPos((x, y)) => {
            let to = ((x % 256) as u8, (y % 256) as u8);
            if game.game_type == GameType::Put {
                let step = S::new_put_step(to, game.curr_player);
                proof {
                    assert forall|other: S|
                        click_step(*old(last_click), to, old(game).curr_player, other)
                        implies other == step by {
                        S::lemma_step_is_its_parts(other, step);
                    }
                }
                if game.state == GameState::Running && game.step(step) {
                    Turn::Played
                } else {
                    Turn::Idle
                }
            } else {
                match *last_click {
                    None => {
                        *last_click = Some(to);
                        Turn::Idle
                    },
                    Some(from) => {
                        *last_click = None;
                        if game.state == GameState::Running {
                            let step = S::new_move_step(from, to, game.curr_player);
                            proof {
                                assert forall|other: S|
                                    click_step(*old(last_click), to, old(game).curr_player, other)
                                    implies other == step by {
                                    S::lemma_step_is_its_parts(other, step);
                                }
                            }
                            if game.step(step) {
                                Turn::Played
                            } else {
                                Turn::Idle
                            }
                        } else {
                            Turn::Idle
                        }
                    },
                }
            }
        },
    }
}

/// The number of lines that the log keeps.
pub const LOG_LINES: usize = 21;

/// The last lines written to the log, the oldest first. The log belongs to
/// whoever draws the screen and is handed to whatever writes to it.
pub struct LogBuffer {
    pub lines: Vec<String>,
}

impl LogBuffer {
    /// An empty log.
    pub fn new() -> (log: Self)
        ensures
            log.lines@.len() == 0,
    {
        LogBuffer { lines: Vec::new() }
    }
}

/// Writes `line` to the log. A log that is full loses its oldest line for
/// it.
pub fn tui_log(log: &mut LogBuffer, line: String)
    ensures
        final(log).lines@ == (if old(log).lines@.len() >= LOG_LINES {
            old(log).lines@.subrange(1, old(log).lines@.len() as int)
        } else {
            old(log).lines@
        }).push(line),
{
    if log.lines.len() >= LOG_LINES {
        let _ = log.lines.remove(0);
    }
    log.lines.push(line);
}

} // verus!
