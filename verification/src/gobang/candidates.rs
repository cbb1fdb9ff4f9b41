//! Which cells the search tries, and in which order.
//!
//! Every empty cell is rated: a cell next to a stone by what a stone of
//! either player would promise there, since a cell that is good for one
//! player to take is good for the other to deny; a cell with no stone around
//! it by how close it lies to the centre. The cells that pass a threshold are
//! tried, the best rated first. The threshold depends on the plies that
//! remain and on the best rating. It never keeps out a cell on which a
//! player completes five in a row, and as long as a cell is empty it lets
//! some cell pass.

use crate::base::Player;
use super::{GoBoard, GoPiece, GoPos, GoStep};
use super::lemmas::lemma_arm_limit;
use super::pattern::{
    col_at, completes_five, free, full, grid_wf, held, on_board, part_score_of, row_at, touches,
    weight, wins_at, Grid,
};
use super::util::FIVE;
use vstd::prelude::*;

verus! {

/// A stone of either player lies on one of the eight cells around
/// (`r`, `c`).
pub open spec fn near(g: Grid, r: int, c: int) -> bool {
    touches(g, r, c, Player(0)) || touches(g, r, c, Player(1))
}

/// The number of rows plus the number of columns between the cell and the
/// centre of the board.
pub open spec fn distance(r: int, c: int) -> int {
    (if r >= 7 {
        r - 7
    } else {
        7 - r
    }) + (if c >= 7 {
        c - 7
    } else {
        7 - c
    })
}

/// The rating of the empty cell (`r`, `c`): next to a stone, what a stone of
/// player 0 promises there plus what a stone of player 1 promises; elsewhere,
/// the distance from the centre, negated.
pub open spec fn rating(g: Grid, r: int, c: int) -> int {
    if near(g, r, c) {
        part_score_of(g, r, c, Player(0)) + part_score_of(g, r, c, Player(1))
    } else {
        -distance(r, c)
    }
}

/// One of the players completes five in a row on the empty cell (`r`, `c`).
pub open spec fn forcing(g: Grid, r: int, c: int) -> bool {
    wins_at(g, r, c, Player(0)) || wins_at(g, r, c, Player(1))
}

/// The rating of cell number `i`, counting row by row, or -15, which is
/// below every rating, if the cell is not empty.
pub open spec fn cell_rating(g: Grid, i: int) -> int {
    if free(g, i / 15, i % 15) {
        rating(g, i / 15, i % 15)
    } else {
        -15
    }
}

/// The best rating among the first `n` cells, or -15 if none of them is
/// empty.
pub open spec fn top_rating(g: Grid, n: nat) -> int
    decreases n,
{
    if n == 0 {
        -15
    } else {
        let rest = top_rating(g, (n - 1) as nat);
        let last = cell_rating(g, n - 1);
        if rest >= last {
            rest
        } else {
            last
        }
    }
}

/// The rating that a cell must exceed when the best rating is `top`: the
/// highest of the tiers 1000, 512, 256 and 0 that `top` exceeds, and -2 if it
/// exceeds none.
pub open spec fn floor_for(top: int) -> int {
    if top > 1000 {
        1000
    } else if top > 512 {
        512
    } else if top > 256 {
        256
    } else if top > 0 {
        0
    } else {
        -2
    }
}

/// The cell (`r`, `c`) is one that a search near its horizon looks at: it
/// is empty, and its rating lies strictly between 250 and 512 or a player
/// completes five in a row on it.
pub open spec fn in_band(g: Grid, r: int, c: int) -> bool {
    free(g, r, c) && (250 < rating(g, r, c) < 512 || forcing(g, r, c))
}

/// Cell number `i`, counting row by row, is one that a search near its
/// horizon looks at.
pub open spec fn band_cell(g: Grid, i: int) -> bool {
    in_band(g, i / 15, i % 15)
}

/// One of the first `n` cells is one that a search near its horizon looks
/// at.
pub open spec fn band_within(g: Grid, n: int) -> bool {
    exists|i: int| 0 <= i < n && #[trigger] band_cell(g, i)
}

/// Whether the search tries the cell (`r`, `c`) with `deep` plies left. The
/// cell must be empty. With fewer than five plies left the search keeps to
/// the cells whose rating lies strictly between 250 and 512 and those on
/// which a player completes five in a row, if there is any such cell. With
/// more plies left, or where no such cell is to be had, the rating of the
/// cell must exceed the floor for the best rating.
pub open spec fn kept(g: Grid, deep: u8, r: int, c: int) -> bool {
    free(g, r, c) && if deep < 5 && band_within(g, 225) {
        in_band(g, r, c)
    } else {
        rating(g, r, c) > floor_for(top_rating(g, 225))
    }
}

/// The cell `a` is tried before the cell `b`: it is rated higher, or rated
/// the same and met earlier when the cells are read row by row.
pub open spec fn comes_before(g: Grid, a: GoPos, b: GoPos) -> bool {
    let ra = rating(g, a.0 as int, a.1 as int);
    let rb = rating(g, b.0 as int, b.1 as int);
    ra > rb || (ra == rb && (a.0 < b.0 || (a.0 == b.0 && a.1 < b.1)))
}

/// `s` holds steps of `player` onto cells that are tried, in the order in
/// which they are tried.
pub open spec fn is_ordered(g: Grid, player: Player, deep: u8, s: Seq<GoStep>) -> bool {
    &&& forall|k: int|
        0 <= k < s.len() ==> (#[trigger] s[k]).who == player && kept(
            g,
            deep,
            s[k].pos.0 as int,
            s[k].pos.1 as int,
        )
    &&& forall|x: int, y: int|
        0 <= x < y < s.len() ==> comes_before(g, (#[trigger] s[x]).pos, (#[trigger] s[y]).pos)
}

/// `s` has a step onto the cell (`r`, `c`).
pub open spec fn covers(s: Seq<GoStep>, r: int, c: int) -> bool {
    exists|k: int| 0 <= k < s.len() && (#[trigger] s[k]).pos.0 == r && s[k].pos.1 == c
}

/// `s` is the list of steps that the search tries for `player`: one step
/// onto each cell that is tried and no other, in the order in which they are
/// tried.
pub open spec fn is_candidate_list(g: Grid, player: Player, deep: u8, s: Seq<GoStep>) -> bool {
    &&& is_ordered(g, player, deep, s)
    &&& forall|r: int, c: int| #[trigger] kept(g, deep, r, c) ==> covers(s, r, c)
}

/// The steps that the search tries for `player` on the grid `g` with `deep`
/// plies left.
pub open spec fn candidates(g: Grid, player: Player, deep: u8) -> Seq<GoStep> {
    choose|s: Seq<GoStep>| is_candidate_list(g, player, deep, s)
}

/// Two lists of steps of one player that are in order and cover the same
/// cells are the same list.
pub proof fn lemma_ordered_unique(
    g: Grid,
    player: Player,
    deep: u8,
    s1: Seq<GoStep>,
    s2: Seq<GoStep>,
)
    requires
        is_ordered(g, player, deep, s1),
        is_ordered(g, player, deep, s2),
        forall|k: int|
            0 <= k < s1.len() ==> covers(s2, (#[trigger] s1[k]).pos.0 as int, s1[k].pos.1 as int),
        forall|k: int|
            0 <= k < s2.len() ==> covers(s1, (#[trigger] s2[k]).pos.0 as int, s2[k].pos.1 as int),
    ensures
        s1 == s2,
    decreases s1.len(),
{
    if s1.len() == 0 {
        if s2.len() > 0 {
            assert(covers(s1, s2[0].pos.0 as int, s2[0].pos.1 as int));
        }
    } else {
        // Both lists begin with the cell that comes before all the others.
        let a = s1[0];
        assert(a == s2[0]);
        // What follows is in order too and covers the same cells.
        let t1 = s1.subrange(1, s1.len() as int);
        let t2 = s2.subrange(1, s2.len() as int);
        assert forall|i: int| 0 <= i < t1.len() implies covers(
            t2,
            (#[trigger] t1[i]).pos.0 as int,
            t1[i].pos.1 as int,
        ) by {
            let e = s1[i + 1];
            let m = choose|m: int|
                0 <= m < s2.len() && (#[trigger] s2[m]).pos.0 == e.pos.0 && s2[m].pos.1
                    == e.pos.1;
            assert(t2[m - 1] == s2[m]);
        }
        assert forall|i: int| 0 <= i < t2.len() implies covers(
            t1,
            (#[trigger] t2[i]).pos.0 as int,
            t2[i].pos.1 as int,
        ) by {
            let e = s2[i + 1];
            let m = choose|m: int|
                0 <= m < s1.len() && (#[trigger] s1[m]).pos.0 == e.pos.0 && s1[m].pos.1
                    == e.pos.1;
            assert(t1[m - 1] == s1[m]);
        }
        lemma_ordered_unique(g, player, deep, t1, t2);
        assert(s1 =~= seq![a] + t1);
    }
}

/// A list that fits the description of the candidate list is the candidate
/// list.
pub proof fn lemma_candidates_are(g: Grid, player: Player, deep: u8, s: Seq<GoStep>)
    requires
        is_candidate_list(g, player, deep, s),
    ensures
        s == candidates(g, player, deep),
{
    let t = candidates(g, player, deep);
    lemma_ordered_unique(g, player, deep, s, t);
}

/// What a stone promises lies between 0 and the weight of a win, and only a
/// stone that completes five in a row promises that much.
pub proof fn lemma_part_score_range(g: Grid, r: int, c: int, who: Player)
    ensures
        0 <= part_score_of(g, r, c, who) <= 5000,
        part_score_of(g, r, c, who) == 5000 <==> wins_at(g, r, c, who),
{
    reveal(part_score_of);
}

/// A stone can only complete five in a row next to a stone of its player.
pub proof fn lemma_win_touches(g: Grid, r: int, c: int, who: Player)
    requires
        wins_at(g, r, c, who),
    ensures
        touches(g, r, c, who),
{
    reveal(wins_at);
    let o = if completes_five(g, 0, r, c, who) {
        0int
    } else if completes_five(g, 1, r, c, who) {
        1int
    } else if completes_five(g, 2, r, c, who) {
        2int
    } else {
        3int
    };
    lemma_arm_limit(g, o, r, c, -1, who, 5);
}

/// The best rating is no lower than the rating of any cell it was taken
/// over, and it is the rating of one of them unless none of them is empty.
pub proof fn lemma_top_rating(g: Grid, n: nat)
    ensures
        -15 <= top_rating(g, n),
        forall|i: int| 0 <= i < n ==> #[trigger] cell_rating(g, i) <= top_rating(g, n),
        top_rating(g, n) == -15 || exists|i: int|
            0 <= i < n && #[trigger] cell_rating(g, i) == top_rating(g, n),
    decreases n,
{
    if n > 0 {
        lemma_top_rating(g, (n - 1) as nat);
    }
}

/// An empty cell is rated between -14 and twice the weight of a win.
pub proof fn lemma_rating_range(g: Grid, r: int, c: int)
    requires
        on_board(r, c),
    ensures
        -14 <= rating(g, r, c) <= 10000,
        forcing(g, r, c) ==> rating(g, r, c) >= 5000,
{
    lemma_part_score_range(g, r, c, Player(0));
    lemma_part_score_range(g, r, c, Player(1));
    if wins_at(g, r, c, Player(0)) {
        lemma_win_touches(g, r, c, Player(0));
    }
    if wins_at(g, r, c, Player(1)) {
        lemma_win_touches(g, r, c, Player(1));
    }
}

/// A cell on which a player completes five in a row is tried, however many
/// plies are left.
pub proof fn lemma_forcing_kept(g: Grid, deep: u8, r: int, c: int)
    requires
        free(g, r, c),
        forcing(g, r, c),
    ensures
        kept(g, deep, r, c),
{
    lemma_rating_range(g, r, c);
}

/// Some empty cell has a rating of 0 or more: following the cells from any
/// empty cell towards the centre, one comes to a cell next to a stone or to
/// the centre itself.
pub proof fn lemma_some_cell_rated(g: Grid, r: int, c: int)
    requires
        grid_wf(g),
        free(g, r, c),
    ensures
        exists|r2: int, c2: int| free(g, r2, c2) && #[trigger] rating(g, r2, c2) >= 0,
    decreases distance(r, c),
{
    lemma_part_score_range(g, r, c, Player(0));
    lemma_part_score_range(g, r, c, Player(1));
    if near(g, r, c) || (r == 7 && c == 7) {
        assert(rating(g, r, c) >= 0);
    } else {
        let dr = if r < 7 {
            1int
        } else if r > 7 {
            -1int
        } else {
            0int
        };
        let dc = if c < 7 {
            1int
        } else if c > 7 {
            -1int
        } else {
            0int
        };
        let r1 = r + dr;
        let c1 = c + dc;
        assert(!held(g, r1, c1, Player(0)) && !held(g, r1, c1, Player(1))) by {
            // The cell lies next to (r, c) along one of the four axes.
            let o = if dr == 0 {
                0int
            } else if dc == 0 {
                1int
            } else if dr == dc {
                3int
            } else {
                2int
            };
            let s = if o == 0 {
                dc
            } else {
                dr
            };
            assert(row_at(o, r, s) == r1 && col_at(o, c, s) == c1);
        }
        lemma_some_cell_rated(g, r1, c1);
    }
}

/// However many plies are left, some cell is tried unless the board is
/// full.
pub proof fn lemma_some_cell_kept(g: Grid, deep: u8)
    requires
        grid_wf(g),
        !full(g),
    ensures
        exists|r: int, c: int| #[trigger] kept(g, deep, r, c),
{
    if deep < 5 && band_within(g, 225) {
        let i = choose|i: int| 0 <= i < 225 && #[trigger] band_cell(g, i);
        assert(kept(g, deep, i / 15, i % 15));
        return ;
    }
    let (r0, c0) = choose|r: int, c: int| on_board(r, c) && #[trigger] g[r][c] == GoPiece::Empty;
    lemma_some_cell_rated(g, r0, c0);
    let (r2, c2) = choose|r2: int, c2: int| free(g, r2, c2) && #[trigger] rating(g, r2, c2) >= 0;
    lemma_top_rating(g, 225);
    let top = top_rating(g, 225);
    let i2 = r2 * 15 + c2;
    assert(cell_rating(g, i2) >= 0);
    let i = choose|i: int| 0 <= i < 225 && #[trigger] cell_rating(g, i) == top;
    assert(kept(g, deep, i / 15, i % 15));
}

/// The list of the steps that the search tries is empty exactly on a full
/// board.
pub proof fn lemma_candidates_while_room(g: Grid, player: Player, deep: u8, s: Seq<GoStep>)
    requires
        grid_wf(g),
        is_candidate_list(g, player, deep, s),
    ensures
        s.len() == 0 <==> full(g),
{
    if !full(g) {
        lemma_some_cell_kept(g, deep);
        let (r, c) = choose|r: int, c: int| #[trigger] kept(g, deep, r, c);
        assert(covers(s, r, c));
    }
    if s.len() > 0 {
        assert(kept(g, deep, s[0].pos.0 as int, s[0].pos.1 as int));
    }
}

impl GoBoard {
    /// The rating of the cell on row `i`, column `j`, and whether a player
    /// completes five in a row on it; -15 and `false` for a cell that is not
    /// empty.
    pub fn rate(&self, i: u8, j: u8) -> (rated: (i32, bool))
        requires
            grid_wf(self@),
            on_board(i as int, j as int),
        ensures
            rated.0 == cell_rating(self@, i * 15 + j),
            rated.1 == (free(self@, i as int, j as int) && forcing(self@, i as int, j as int)),
            -15 <= rated.0 <= 10000,
    {
        let ghost g = self@;
        let step0 = GoStep::new(i, j, Player(0));
        let step1 = GoStep::new(i, j, Player(1));
        if self.get_piece(&step0.pos) == GoPiece::Empty {
            proof {
                lemma_rating_range(g, i as int, j as int);
            }
            if self.has_neighbor(&step0) || self.has_neighbor(&step1) {
                let s0 = self.part_score(&step0);
                let s1 = self.part_score(&step1);
                (s0 + s1, s0 == FIVE || s1 == FIVE)
            } else {
                let di: i32 = if i >= 7 {
                    (i - 7) as i32
                } else {
                    (7 - i) as i32
                };
                let dj: i32 = if j >= 7 {
                    (j - 7) as i32
                } else {
                    (7 - j) as i32
                };
                (-(di + dj), false)
            }
        } else {
            (-15, false)
        }
    }

    /// The best rating of an empty cell, or -15 on a full board.
    pub fn top(&self) -> (top: i32)
        requires
            grid_wf(self@),
        ensures
            top == top_rating(self@, 225),
    {
        let mut top: i32 = -15;
        let mut idx: u8 = 0;
        while idx < 225
            invariant
                idx <= 225,
                grid_wf(self@),
                top == top_rating(self@, idx as nat),
            decreases 225 - idx,
        {
            let (h, _) = self.rate(idx / 15, idx % 15);
            if h > top {
                top = h;
            }
            idx += 1;
        }
        top
    }

    /// Whether some cell is one that a search near its horizon looks at.
    pub fn has_band(&self) -> (found: bool)
        requires
            grid_wf(self@),
        ensures
            found == band_within(self@, 225),
    {
        let mut idx: u8 = 0;
        while idx < 225
            invariant
                idx <= 225,
                grid_wf(self@),
                !band_within(self@, idx as int),
            decreases 225 - idx,
        {
            let (h, force) = self.rate(idx / 15, idx % 15);
            let is_free = self.pieces[(idx / 15) as usize][(idx % 15) as usize] == GoPiece::Empty;
            if is_free && ((250 < h && h < 512) || force) {
                assert(band_cell(self@, idx as int));
                return true;
            }
            assert(!band_cell(self@, idx as int));
            idx += 1;
        }
        false
    }

    /// The steps that the search tries for `player` with `deep` plies left:
    /// a step onto each empty cell whose rating passes the threshold, the
    /// best rated first, and among cells rated the same the one met first
    /// when the cells are read row by row. There is such a step as long as a
    /// cell is empty.
    pub fn ordered_steps(&self, player: Player, deep: u8) -> (out: Vec<GoStep>)
        requires
            grid_wf(self@),
        ensures
            is_candidate_list(self@, player, deep, out@),
            out@ == candidates(self@, player, deep),
            out@.len() == 0 <==> full(self@),
    {
        let ghost g = self@;
        let narrow = deep < 5 && self.has_band();
        let top = self.top();
        let floor: i32 = if top > 1000 {
            1000
        } else if top > 512 {
            512
        } else if top > 256 {
            256
        } else if top > 0 {
            0
        } else {
            -2
        };
        let mut out: Vec<GoStep> = Vec::new();
        let mut marks: Vec<i32> = Vec::new();
        let mut idx: u8 = 0;
        while idx < 225
            invariant
                idx <= 225,
                g == self@,
                grid_wf(g),
                floor == floor_for(top_rating(g, 225)),
                narrow == (deep < 5 && band_within(g, 225)),
                sorted_so_far(g, player, deep, out@, marks@, idx as int),
            decreases 225 - idx,
        {
            let i = idx / 15;
            let j = idx % 15;
            let (h, force) = self.rate(i, j);
            let is_free = self.pieces[i as usize][j as usize] == GoPiece::Empty;
            let pass = if narrow {
                (250 < h && h < 512) || force
            } else {
                h > floor
            };
            assert(is_free && pass <==> kept(g, deep, i as int, j as int));
            if is_free && pass {
                let step = GoStep::new(i, j, player);
                let ghost before = out@;
                let ghost marks_before = marks@;
                let at = place(&mut out, &mut marks, step, h);
                proof {
                    lemma_sorted_insert(
                        g,
                        player,
                        deep,
                        before,
                        marks_before,
                        idx as int,
                        at as int,
                        step,
                        h,
                    );
                }
            }
            idx += 1;
        }
        proof {
            lemma_candidates_are(g, player, deep, out@);
            lemma_candidates_while_room(g, player, deep, out@);
        }
        out
    }
}

/// The first `idx` cells have been looked at: `out` holds, in order, a step
/// onto each of them that is tried, and `marks` the ratings of those cells.
pub open spec fn sorted_so_far(
    g: Grid,
    player: Player,
    deep: u8,
    out: Seq<GoStep>,
    marks: Seq<i32>,
    idx: int,
) -> bool {
    &&& out.len() == marks.len()
    &&& is_ordered(g, player, deep, out)
    &&& forall|k: int|
        0 <= k < out.len() ==> (#[trigger] out[k]).pos.0 * 15 + out[k].pos.1 < idx && marks[k]
            == rating(g, out[k].pos.0 as int, out[k].pos.1 as int)
    &&& forall|r: int, c: int|
        r * 15 + c < idx && #[trigger] kept(g, deep, r, c) ==> covers(out, r, c)
}

/// Puts `step`, whose cell is rated `h`, into `out` behind the steps onto
/// cells rated `h` or higher, and `h` into `marks` at the same place, which
/// is returned.
fn place(out: &mut Vec<GoStep>, marks: &mut Vec<i32>, step: GoStep, h: i32) -> (at: usize)
    requires
        old(out).len() == old(marks).len(),
    ensures
        at <= old(out).len(),
        final(out)@ == old(out)@.insert(at as int, step),
        final(marks)@ == old(marks)@.insert(at as int, h),
        forall|x: int| 0 <= x < at ==> old(marks)[x] >= h,
        at < old(marks).len() ==> old(marks)[at as int] < h,
{
    let mut at: usize = 0;
    while at < marks.len() && marks[at] >= h
        invariant
            at <= marks.len(),
            forall|x: int| 0 <= x < at ==> marks[x] >= h,
        decreases marks.len() - at,
    {
        at += 1;
    }
    out.insert(at, step);
    marks.insert(at, h);
    at
}

/// A step onto the next cell keeps the list in order when it goes behind
/// the steps onto cells rated as high or higher and before those onto cells
/// rated lower.
pub proof fn lemma_sorted_insert(
    g: Grid,
    player: Player,
    deep: u8,
    before: Seq<GoStep>,
    marks: Seq<i32>,
    idx: int,
    at: int,
    step: GoStep,
    h: i32,
)
    requires
        0 <= idx < 225,
        sorted_so_far(g, player, deep, before, marks, idx),
        kept(g, deep, idx / 15, idx % 15),
        step.who == player,
        step.pos.0 == idx / 15,
        step.pos.1 == idx % 15,
        h == rating(g, idx / 15, idx % 15),
        0 <= at <= before.len(),
        forall|x: int| 0 <= x < at ==> marks[x] >= h,
        at < marks.len() ==> marks[at] < h,
    ensures
        sorted_so_far(g, player, deep, before.insert(at, step), marks.insert(at, h), idx + 1),
{
    let out = before.insert(at, step);
    let marks2 = marks.insert(at, h);
    assert forall|k: int| 0 <= k < out.len() implies (#[trigger] out[k]).pos.0 * 15
        + out[k].pos.1 < idx + 1 && marks2[k] == rating(
        g,
        out[k].pos.0 as int,
        out[k].pos.1 as int,
    ) && out[k].who == player && kept(g, deep, out[k].pos.0 as int, out[k].pos.1 as int) by {
        if k < at {
            assert(out[k] == before[k]);
        } else if k > at {
            assert(out[k] == before[k - 1]);
        }
    }
    assert forall|r: int, c: int|
        r * 15 + c < idx + 1 && #[trigger] kept(g, deep, r, c) implies covers(out, r, c) by {
        if r * 15 + c < idx {
            let k = choose|k: int|
                0 <= k < before.len() && (#[trigger] before[k]).pos.0 == r && before[k].pos.1
                    == c;
            if k < at {
                assert(out[k] == before[k]);
            } else {
                assert(out[k + 1] == before[k]);
            }
        } else {
            assert(out[at].pos.0 == r && out[at].pos.1 == c);
        }
    }
}

} // verus!
