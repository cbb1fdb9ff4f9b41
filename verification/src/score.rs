//! Scores for noughts and crosses on the three by three board.

use crate::board::{lemma_lines_count, Pos, Role, TTTBoard};
use vstd::prelude::*;

verus! {

/// A score for each cell of the board, where one has been worked out.
#[derive(Debug)]
pub struct ScoreBoard {
    pub scores: [[Option<i16>; 3]; 3],
}

impl ScoreBoard {
    /// The score of cell number `i`, counting row by row.
    pub open spec fn cell(self, i: int) -> Option<i16> {
        self.scores[i / 3][i % 3]
    }

    /// `m` is the score of some cell.
    pub open spec fn has(self, m: i16) -> bool {
        exists|i: int| 0 <= i < 9 && #[trigger] self.cell(i) == Some(m)
    }

    /// No cell has a score.
    pub open spec fn blank(self) -> bool {
        forall|i: int| 0 <= i < 9 ==> #[trigger] self.cell(i) is None
    }

    /// A board on which no cell has a score.
    pub fn new() -> (b: Self)
        ensures
            b.blank(),
    {
        ScoreBoard { scores: [[None;3];3] }
    }

    /// The highest score on the board, or `None` if no cell has one.
    pub fn max(&self) -> (o: Option<i16>)
        ensures
            o is None <==> self.blank(),
            o matches Some(m) ==> self.has(m) && forall|i: int|
                0 <= i < 9 ==> (#[trigger] self.cell(i) matches Some(x) ==> x <= m),
    {
        let mut o: Option<i16> = None;
        let mut n: u8 = 0;
        while n < 9
            invariant
                n <= 9,
                o is None <==> forall|i: int| 0 <= i < n ==> #[trigger] self.cell(i) is None,
                o matches Some(m) ==> (exists|i: int|
                    0 <= i < n && #[trigger] self.cell(i) == Some(m)) && forall|i: int|
                    0 <= i < n ==> (#[trigger] self.cell(i) matches Some(x) ==> x <= m),
            decreases 9 - n,
        {
            let j = self.scores[(n / 3) as usize][(n % 3) as usize];
            assert(j == self.cell(n as int));
            match j {
                None => {},
                Some(x) => {
                    match o {
                        None => {
                            o = j;
                        },
                        Some(m) => {
                            if m < x {
                                o = j;
                            }
                        },
                    }
                },
            }
            n += 1;
        }
        o
    }

    /// The lowest score on the board, or `None` if no cell has one.
    pub fn min(&self) -> (o: Option<i16>)
        ensures
            o is None <==> self.blank(),
            o matches Some(m) ==> self.has(m) && forall|i: int|
                0 <= i < 9 ==> (#[trigger] self.cell(i) matches Some(x) ==> x >= m),
    {
        let mut o: Option<i16> = None;
        let mut n: u8 = 0;
        while n < 9
            invariant
                n <= 9,
                o is None <==> forall|i: int| 0 <= i < n ==> #[trigger] self.cell(i) is None,
                o matches Some(m) ==> (exists|i: int|
                    0 <= i < n && #[trigger] self.cell(i) == Some(m)) && forall|i: int|
                    0 <= i < n ==> (#[trigger] self.cell(i) matches Some(x) ==> x >= m),
            decreases 9 - n,
        {
            let j = self.scores[(n / 3) as usize][(n % 3) as usize];
            assert(j == self.cell(n as int));
            match j {
                None => {},
                Some(x) => {
                    match o {
                        None => {
                            o = j;
                        },
                        Some(m) => {
                            if m > x {
                                o = j;
                            }
                        },
                    }
                },
            }
            n += 1;
        }
        o
    }
}

/// The points that go into the score of a step.
#[derive(Copy, Clone, Debug)]
pub struct TTTScore {
    pub base: u8,
    /// The points for the cell in the middle.
    pub center: u8,
    /// The points for a line on which the player then holds two cells.
    pub double: u8,
    /// The points for a line on which the player then holds all three.
    pub triple: u8,
}

impl TTTScore {
    /// The points that the game is played with.
    pub fn standard() -> (t: TTTScore)
        ensures
            t.base == 0,
            t.center == 2,
            t.double == 1,
            t.triple == 64,
    {
        TTTScore { base: 0, center: 2, double: 1, triple: 64 }
    }

    /// The points for a line on which `len` cells beside the new one are
    /// held by the player.
    pub open spec fn bonus(self, len: nat) -> int {
        if len == 0 {
            self.base as int
        } else if len == 1 {
            self.double as int
        } else {
            self.triple as int
        }
    }

    /// The points for the first `n` of `lines`.
    pub open spec fn bonuses(self, lines: Seq<Seq<Pos>>, n: nat) -> int
        decreases n,
    {
        if n == 0 || n > lines.len() {
            0
        } else {
            self.bonuses(lines, (n - 1) as nat) + self.bonus(lines[n - 1].len())
        }
    }

    /// The score of a step of `my_role` onto `pos`: the base, the points for
    /// the middle if `pos` is the middle, and the points for each line
    /// through `pos` on which `my_role` holds a cell next to it.
    pub open spec fn step_score(self, my_role: Role, board: TTTBoard, pos: Pos) -> int {
        self.base + (if pos == Pos(1, 1) {
            self.center as int
        } else {
            0
        }) + self.bonuses(
            board.lines_of(my_role, pos, 4),
            board.lines_of(my_role, pos, 4).len(),
        )
    }

    /// The score of a finished game for `player`: 64 for a win, -64 for a
    /// loss, and 0 for a draw and for a game that still runs.
    pub fn score(&self, board: &TTTBoard, player: Role) -> (s: i8)
        ensures
            s == if board.over_spec().0 && board.over_spec().1 == player {
                64int
            } else if board.over_spec().0 && board.over_spec().1 == player.other() {
                -64int
            } else {
                0int
            },
    {
        let (o, w) = board.over();
        if o {
            if w == player {
                return 64;
            } else if w == player.rev() {
                return -64;
            } else {
                return 0;
            }
        }
        0
    }

    /// The score of a step of `my_role` onto the cell `pos`.
    pub fn score_step(&self, my_role: Role, board: &TTTBoard, pos: Pos) -> (sc: u8)
        requires
            pos.on_board(),
            self.step_score(my_role, *board, pos) <= u8::MAX,
        ensures
            sc == self.step_score(my_role, *board, pos),
    {
        let lines = board.get_neighbours(my_role, pos);
        let ghost spec_lines = board.lines_of(my_role, pos, 4);
        proof {
            lemma_lines_count(*board, my_role, pos, 4);
        }
        let mut sum: u16 = 0;
        let mut k: usize = 0;
        while k < lines.len()
            invariant
                k <= lines.len(),
                lines@.len() == spec_lines.len(),
                forall|i: int| 0 <= i < lines@.len() ==> (#[trigger] lines@[i])@ == spec_lines[i],
                sum == self.bonuses(spec_lines, k as nat),
                sum <= 255 * k,
                lines.len() <= 4,
            decreases lines.len() - k,
        {
            let len = lines[k].len();
            let add = if len == 0 {
                self.base
            } else if len == 1 {
                self.double
            } else {
                self.triple
            };
            sum = sum + add as u16;
            k += 1;
        }
        let mut total: u16 = self.base as u16 + sum;
        if pos.0 == 1 && pos.1 == 1 {
            total = total + self.center as u16;
        }
        total as u8
    }
}

} // verus!
