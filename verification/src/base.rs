//! Vocabulary shared by every game: players, outcomes, the board and step
//! interfaces, and the session wrapper that drives one match.

use vstd::prelude::*;

verus! {

/// Who controls a seat at the table.
#[derive(PartialEq, Eq, Structural, Copy, Clone, Debug)]
pub enum Role {
    Hum,
    Com,
}

/// A seat at the table: index 0 or 1.
#[derive(PartialEq, Eq, Structural, Copy, Clone, Debug)]
pub struct Player(pub u8);

impl Player {
    /// Only the indices 0 and 1 name a player.
    pub open spec fn valid(self) -> bool {
        self.0 <= 1
    }

    /// The opponent of a valid player.
    pub open spec fn other(self) -> Player {
        Player((1 - self.0) as u8)
    }

    /// The other player.
    pub fn rev(&self) -> (r: Player)
        requires
            self.valid(),
        ensures
            r == self.other(),
            r.valid(),
            r != *self,
    {
        if self.0 == 0 {
            Player(1)
        } else {
            Player(0)
        }
    }
}

/// How a finished game ended.
#[derive(PartialEq, Eq, Structural, Copy, Clone, Debug)]
pub enum OutCome {
    Draw,
    Winer(Player),
}

/// Whether a game is still being played.
#[derive(PartialEq, Eq, Structural, Copy, Clone, Debug)]
pub enum GameState {
    Running,
    Over(OutCome),
}

/// The two families of games.
#[derive(PartialEq, Eq, Structural, Copy, Clone, Debug)]
pub enum GameType {
    /// Stones are only ever added to the board (five-in-a-row).
    Put,
    /// Stones move from cell to cell and may be captured.
    Move,
}

/// One move of one player. A step is a plain value: it is copied freely and
/// never changes once made.
pub trait Step: Copy {
    /// The player who makes this step.
    spec fn who_spec(&self) -> Player;

    /// The cell the step ends on.
    spec fn target(&self) -> (u8, u8);

    /// The cell the step starts from, for a step that moves a stone.
    spec fn source(&self) -> Option<(u8, u8)>;

    /// Whether steps of this type place a new stone rather than move one.
    spec fn placing() -> bool;

    /// A step is no more than its player and its cells: two steps of the
    /// same player between the same cells are the same step.
    proof fn lemma_step_is_its_parts(a: Self, b: Self)
        requires
            a.who_spec() == b.who_spec(),
            a.target() == b.target(),
            a.source() == b.source(),
        ensures
            a == b,
    ;

    /// The player who makes this step.
    fn who(&self) -> (p: Player)
        ensures
            p == self.who_spec(),
    ;

    /// Whether steps of this type place a new stone rather than move one.
    fn places() -> (b: bool)
        ensures
            b == Self::placing(),
    ;

    /// A step that places a stone of `p` on `pos`.
    fn new_put_step(pos: (u8, u8), p: Player) -> (s: Self)
        requires
            Self::placing(),
        ensures
            s.who_spec() == p,
            s.target() == pos,
            s.source() is None,
    ;

    /// A step that moves a stone of `p` from `from` to `to`.
    fn new_move_step(from: (u8, u8), to: (u8, u8), p: Player) -> (s: Self)
        requires
            !Self::placing(),
        ensures
            s.who_spec() == p,
            s.target() == to,
            s.source() == Some(from),
    ;
}

/// A position of one game. Its view is the mathematical position; the rules
/// of the game are the spec functions over that view, and every method is
/// held to them.
pub trait Board<S>: Clone + View {
    /// The internal bookkeeping agrees with the position.
    spec fn wf(&self) -> bool;

    /// The starting position.
    spec fn new_spec() -> Self::V;

    /// Whether `step` is legal in position `m`.
    spec fn can_put_spec(m: Self::V, step: S) -> bool;

    /// The position that a legal `step` leads to from `m`.
    spec fn put_spec(m: Self::V, step: S) -> Self::V;

    /// Whether the game is over in position `m`, and how.
    spec fn over_spec(m: Self::V) -> GameState;

    /// The starting position.
    fn new() -> (b: Self)
        ensures
            b.wf(),
            b@ == Self::new_spec(),
    ;

    /// Applies `step` if it is legal and says whether it was. An illegal step
    /// leaves the position as it is.
    fn put(&mut self, step: S) -> (ok: bool)
        requires
            old(self).wf(),
        ensures
            final(self).wf(),
            ok == Self::can_put_spec(old(self)@, step),
            ok ==> final(self)@ == Self::put_spec(old(self)@, step),
            !ok ==> final(self)@ == old(self)@,
    ;

    /// Whether the game is over, and how.
    fn over(&self) -> (s: GameState)
        requires
            self.wf(),
        ensures
            s == Self::over_spec(self@),
    ;

    /// An independent copy of this position.
    fn duplicate(&self) -> (b: Self)
        requires
            self.wf(),
        ensures
            b.wf(),
            b@ == self@,
    ;

    /// A copy of this position with `step` applied, or `None` if the step is
    /// illegal. The position itself is left alone.
    fn copy_put(&self, step: S) -> (r: Option<Self>)
        requires
            self.wf(),
        ensures
            r is Some <==> Self::can_put_spec(self@, step),
            r matches Some(b) ==> b.wf() && b@ == Self::put_spec(self@, step),
    {
        let mut new_board = self.duplicate();
        if new_board.put(step) {
            Some(new_board)
        } else {
            None
        }
    }
}

/// One match: the position, whose turn it is, and the steps played so far.
pub struct Game<B: Board<S>, S: Step> {
    pub state: GameState,
    pub board: B,
    pub players: [Role; 2],
    /// The player who moves next.
    pub curr_player: Player,
    pub hist_steps: Vec<S>,
    pub game_type: GameType,
}

impl<B: Board<S>, S: Step> Game<B, S> {
    /// The board is well formed and the player to move is one of the two.
    pub open spec fn wf(&self) -> bool {
        self.board.wf() && self.curr_player.valid()
    }

    /// A new match on `board`, with player 0 to move and no step played.
    pub fn new(board: B, players: [Role; 2], game_type: GameType) -> (g: Self)
        ensures
            g.state == GameState::Running,
            g.board == board,
            g.players == players,
            g.curr_player == Player(0),
            g.hist_steps@ == Seq::<S>::empty(),
            g.game_type == game_type,
    {
        Game {
            state: GameState::Running,
            board,
            players,
            curr_player: Player(0),
            hist_steps: Vec::new(),
            game_type,
        }
    }

    /// The player who moves after the current one.
    fn next_player(&self) -> (p: Player)
        requires
            self.curr_player.valid(),
        ensures
            p == self.curr_player.other(),
    {
        self.curr_player.rev()
    }

    /// Plays one step. The step is refused, and nothing changes, when the
    /// match is over or the step is illegal on the board. An accepted step is
    /// applied and recorded, the outcome is looked up again, and the turn
    /// passes to the other player.
    pub fn step(&mut self, step: S) -> (r: bool)
        requires
            old(self).wf(),
        ensures
            final(self).wf(),
            r == (old(self).state == GameState::Running && B::can_put_spec(
                old(self).board@,
                step,
            )),
            r ==> {
                &&& final(self).board@ == B::put_spec(old(self).board@, step)
                &&& final(self).state == B::over_spec(final(self).board@)
                &&& final(self).curr_player == old(self).curr_player.other()
                &&& final(self).hist_steps@ == old(self).hist_steps@.push(step)
            },
            !r ==> {
                &&& final(self).board@ == old(self).board@
                &&& final(self).state == old(self).state
                &&& final(self).curr_player == old(self).curr_player
                &&& final(self).hist_steps@ == old(self).hist_steps@
            },
            final(self).players == old(self).players,
            final(self).game_type == old(self).game_type,
    {
        if let GameState::Over(_) = self.state {
            return false;
        }
        let result = self.board.put(step);
        if result {
            self.state = self.board.over();
            self.curr_player = self.next_player();
            self.hist_steps.push(step);
        }
        result
    }
}

} // verus!
