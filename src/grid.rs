//! The board: a rectangular array of boolean cells, its bounded Moore
//! neighbourhood, and the stochastic neighbour-ratio update rule.
use vstd::prelude::*;

verus! {

/// Random draws are integers below this scale; a draw `d` stands for the
/// real number `d / DRAW_SCALE` in `[0, 1)`.
pub const DRAW_SCALE: u32 = 16777216;

/// A width-by-height board; `true` is player one's colour, `false` player two's.
pub struct Grid {
    pub cells: Vec<Vec<bool>>,
    pub width: usize,
    pub height: usize,
}

impl View for Grid {
    type V = Seq<Seq<bool>>;

    open spec fn view(&self) -> Seq<Seq<bool>> {
        self.cells@.map_values(|row: Vec<bool>| row@)
    }
}

/// `g` has `h` rows of `w` cells each.
pub open spec fn well_shaped(g: Seq<Seq<bool>>, w: int, h: int) -> bool {
    &&& g.len() == h
    &&& forall|y: int| 0 <= y < h ==> (#[trigger] g[y]).len() == w
}

/// The draws of one update: one per cell, each below `DRAW_SCALE`.
pub open spec fn draws_fit(d: Seq<Seq<u32>>, w: int, h: int) -> bool {
    &&& d.len() == h
    &&& forall|y: int| 0 <= y < h ==> (#[trigger] d[y]).len() == w
    &&& forall|y: int, x: int| 0 <= y < h && 0 <= x < w ==> d[y][x] < DRAW_SCALE
}

pub open spec fn draws_view(d: Seq<Vec<u32>>) -> Seq<Seq<u32>> {
    d.map_values(|row: Vec<u32>| row@)
}

/// The eight Moore offsets `(dx, dy)`, in a fixed order.
pub open spec fn offset(i: int) -> (int, int) {
    if i == 0 {
        (0, -1)
    } else if i == 1 {
        (1, 0)
    } else if i == 2 {
        (0, 1)
    } else if i == 3 {
        (-1, 0)
    } else if i == 4 {
        (1, -1)
    } else if i == 5 {
        (1, 1)
    } else if i == 6 {
        (-1, 1)
    } else {
        (-1, -1)
    }
}

pub open spec fn inside(w: int, h: int, x: int, y: int) -> bool {
    0 <= x < w && 0 <= y < h
}

/// Offset `i` from `(x, y)` lands on the board (there is no wraparound).
pub open spec fn neighbor_inside(w: int, h: int, x: int, y: int, i: int) -> bool {
    inside(w, h, x + offset(i).0, y + offset(i).1)
}

/// How many of the first `k` offsets from `(x, y)` land on the board.
pub open spec fn valid_upto(w: int, h: int, x: int, y: int, k: nat) -> nat
    decreases k,
{
    if k == 0 {
        0
    } else {
        valid_upto(w, h, x, y, (k - 1) as nat) + if neighbor_inside(w, h, x, y, k - 1) {
            1nat
        } else {
            0nat
        }
    }
}

/// How many of the first `k` offsets from `(x, y)` land on a `true` cell.
pub open spec fn live_upto(g: Seq<Seq<bool>>, w: int, h: int, x: int, y: int, k: nat) -> nat
    decreases k,
{
    if k == 0 {
        0
    } else {
        live_upto(g, w, h, x, y, (k - 1) as nat) + if neighbor_inside(w, h, x, y, k - 1)
            && g[y + offset(k - 1).1][x + offset(k - 1).0] {
            1nat
        } else {
            0nat
        }
    }
}

/// The number of neighbours of `(x, y)` on a `w` by `h` board.
pub open spec fn valid_count(w: int, h: int, x: int, y: int) -> nat {
    valid_upto(w, h, x, y, 8)
}

/// The number of `true` neighbours of `(x, y)`.
pub open spec fn live_count(g: Seq<Seq<bool>>, w: int, h: int, x: int, y: int) -> nat {
    live_upto(g, w, h, x, y, 8)
}

/// The new value of a cell: `live / valid > draw / DRAW_SCALE`; a cell
/// without neighbours keeps its value.
pub open spec fn next_cell(live: nat, valid: nat, current: bool, draw: nat) -> bool {
    if valid == 0 {
        current
    } else {
        live * DRAW_SCALE > draw * valid
    }
}

/// Whether some draw in `[0, DRAW_SCALE)` turns `current` into `new`: a
/// cell without neighbours keeps its value, one without live neighbours
/// becomes `false`, one with only live neighbours becomes `true`, and any
/// other can become either.
pub open spec fn outcome_possible(live: nat, valid: nat, current: bool, new: bool) -> bool {
    &&& valid == 0 ==> new == current
    &&& valid > 0 && live == 0 ==> !new
    &&& valid > 0 && live == valid ==> new
}

/// The board after one update with the given draws.
pub open spec fn next_view(g: Seq<Seq<bool>>, w: int, h: int, d: Seq<Seq<u32>>) -> Seq<Seq<bool>> {
    Seq::new(
        h as nat,
        |y: int|
            Seq::new(
                w as nat,
                |x: int|
                    next_cell(live_count(g, w, h, x, y), valid_count(w, h, x, y), g[y][x], d[y][x] as nat),
            ),
    )
}

/// Every cell of the board holds `v`.
pub open spec fn uniform(g: Seq<Seq<bool>>, w: int, h: int, v: bool) -> bool {
    forall|y: int, x: int| 0 <= y < h && 0 <= x < w ==> g[y][x] == v
}

/// The board a round starts with: the left half `true`, the right half `false`.
pub open spec fn split_cell(w: int, x: int) -> bool {
    x < w / 2
}


/// Offset `i` of the Moore neighbourhood.
fn offset_at(i: usize) -> (r: (i8, i8))
    requires
        i < 8,
    ensures
        r.0 as int == offset(i as int).0,
        r.1 as int == offset(i as int).1,
{
    if i == 0 {
        (0, -1)
    } else if i == 1 {
        (1, 0)
    } else if i == 2 {
        (0, 1)
    } else if i == 3 {
        (-1, 0)
    } else if i == 4 {
        (1, -1)
    } else if i == 5 {
        (1, 1)
    } else if i == 6 {
        (-1, 1)
    } else {
        (-1, -1)
    }
}

/// `v + d`, if it lies in `[0, limit)`.
fn shifted(v: usize, d: i8, limit: usize) -> (r: Option<usize>)
    requires
        -1 <= d <= 1,
        v < limit,
    ensures
        (0 <= v + d < limit) ==> r == Some((v + d) as usize),
        !(0 <= v + d < limit) ==> r is None,
{
    if d < 0 {
        if v == 0 {
            None
        } else {
            Some(v - 1)
        }
    } else if d > 0 {
        if v + 1 < limit {
            Some(v + 1)
        } else {
            None
        }
    } else {
        Some(v)
    }
}

/// The new value of one cell, from its live and valid neighbour counts,
/// its current value and a draw below `DRAW_SCALE`.
pub fn cell_outcome(live: usize, valid: usize, current: bool, draw: u32) -> (r: bool)
    requires
        live <= valid <= 8,
        draw < DRAW_SCALE,
    ensures
        r == next_cell(live as nat, valid as nat, current, draw as nat),
{
    if valid == 0 {
        current
    } else {
        assert((live as u64) * 16777216 <= 8 * 16777216) by (nonlinear_arith)
            requires
                live <= 8,
        ;
        let lhs = (live as u64) * (DRAW_SCALE as u64);
        assert((draw as u64) * (valid as u64) <= 8 * 16777216) by (nonlinear_arith)
            requires
                draw < 16777216,
                valid <= 8,
        ;
        let rhs = (draw as u64) * (valid as u64);
        lhs > rhs
    }
}

proof fn lemma_counts_bounded(g: Seq<Seq<bool>>, w: int, h: int, x: int, y: int, k: nat)
    ensures
        live_upto(g, w, h, x, y, k) <= valid_upto(w, h, x, y, k) <= k,
    decreases k,
{
    if k > 0 {
        lemma_counts_bounded(g, w, h, x, y, (k - 1) as nat);
    }
}

impl Grid {
    pub open spec fn wf(&self) -> bool {
        well_shaped(self@, self.width as int, self.height as int)
    }

    /// A board whose every cell holds `value`.
    pub fn filled(width: usize, height: usize, value: bool) -> (r: Grid)
        ensures
            r.wf(),
            r.width == width,
            r.height == height,
            uniform(r@, width as int, height as int, value),
    {
        let mut cells: Vec<Vec<bool>> = Vec::new();
        let mut y: usize = 0;
        while y < height
            invariant
                0 <= y <= height,
                cells@.len() == y,
                forall|j: int| 0 <= j < y ==> (#[trigger] cells@[j])@.len() == width,
                forall|j: int, i: int|
                    0 <= j < y && 0 <= i < width ==> cells@[j]@[i] == value,
            decreases height - y,
        {
            let mut row: Vec<bool> = Vec::new();
            let mut x: usize = 0;
            while x < width
                invariant
                    0 <= x <= width,
                    row@.len() == x,
                    forall|i: int| 0 <= i < x ==> row@[i] == value,
                decreases width - x,
            {
                row.push(value);
                x = x + 1;
            }
            cells.push(row);
            y = y + 1;
        }
        Grid { cells, width, height }
    }

    /// The starting board: cell `(x, y)` is `true` exactly when `x < width / 2`.
    pub fn split(width: usize, height: usize) -> (r: Grid)
        ensures
            r.wf(),
            r.width == width,
            r.height == height,
            forall|y: int, x: int|
                0 <= y < height && 0 <= x < width ==> r@[y][x] == split_cell(width as int, x),
    {
        let half = width / 2;
        let mut cells: Vec<Vec<bool>> = Vec::new();
        let mut y: usize = 0;
        while y < height
            invariant
                0 <= y <= height,
                half == width / 2,
                cells@.len() == y,
                forall|j: int| 0 <= j < y ==> (#[trigger] cells@[j])@.len() == width,
                forall|j: int, i: int|
                    0 <= j < y && 0 <= i < width ==> cells@[j]@[i] == split_cell(width as int, i),
            decreases height - y,
        {
            let mut row: Vec<bool> = Vec::new();
            let mut x: usize = 0;
            while x < width
                invariant
                    0 <= x <= width,
                    half == width / 2,
                    row@.len() == x,
                    forall|i: int| 0 <= i < x ==> row@[i] == split_cell(width as int, i),
                decreases width - x,
            {
                row.push(x < half);
                x = x + 1;
            }
            cells.push(row);
            y = y + 1;
        }
        Grid { cells, width, height }
    }

    /// The live and valid neighbour counts of cell `(x, y)`.
    pub fn neighbor_counts(&self, x: usize, y: usize) -> (r: (usize, usize))
        requires
            self.wf(),
            x < self.width,
            y < self.height,
        ensures
            r.0 == live_count(self@, self.width as int, self.height as int, x as int, y as int),
            r.1 == valid_count(self.width as int, self.height as int, x as int, y as int),
            r.0 <= r.1 <= 8,
    {
        let ghost w = self.width as int;
        let ghost h = self.height as int;
        let mut live: usize = 0;
        let mut valid: usize = 0;
        let mut i: usize = 0;
        while i < 8
            invariant
                self.wf(),
                x < self.width,
                y < self.height,
                w == self.width,
                h == self.height,
                i <= 8,
                live == live_upto(self@, w, h, x as int, y as int, i as nat),
                valid == valid_upto(w, h, x as int, y as int, i as nat),
                live <= valid <= i,
            decreases 8 - i,
        {
            let (dx, dy) = offset_at(i);
            let nx = shifted(x, dx, self.width);
            let ny = shifted(y, dy, self.height);
            match (nx, ny) {
                (Some(a), Some(b)) => {
                    valid = valid + 1;
                    if self.get(a, b) {
                        live = live + 1;
                    }
                },
                _ => {},
            }
            i = i + 1;
        }
        (live, valid)
    }

    /// The board after one update: each cell is decided by its own draw
    /// from `draws` and the neighbour counts of this board.
    pub fn next_grid(&self, draws: &Vec<Vec<u32>>) -> (r: Grid)
        requires
            self.wf(),
            draws_fit(draws_view(draws@), self.width as int, self.height as int),
        ensures
            r.wf(),
            r.width == self.width,
            r.height == self.height,
            r@ == next_view(self@, self.width as int, self.height as int, draws_view(draws@)),
    {
        let ghost w = self.width as int;
        let ghost h = self.height as int;
        let ghost d = draws_view(draws@);
        let ghost target = next_view(self@, w, h, d);
        let mut cells: Vec<Vec<bool>> = Vec::new();
        let mut y: usize = 0;
        while y < self.height
            invariant
                self.wf(),
                w == self.width,
                h == self.height,
                d == draws_view(draws@),
                draws_fit(d, w, h),
                target == next_view(self@, w, h, d),
                0 <= y <= self.height,
                cells@.len() == y,
                forall|j: int| 0 <= j < y ==> (#[trigger] cells@[j])@ == target[j],
            decreases self.height - y,
        {
            assert(draws@[y as int]@ == d[y as int]);
            let mut row: Vec<bool> = Vec::new();
            let mut x: usize = 0;
            while x < self.width
                invariant
                    self.wf(),
                    w == self.width,
                    h == self.height,
                    y < self.height,
                    d == draws_view(draws@),
                    draws@[y as int]@ == d[y as int],
                    draws_fit(d, w, h),
                    target == next_view(self@, w, h, d),
                    0 <= x <= self.width,
                    row@.len() == x,
                    forall|i: int| 0 <= i < x ==> row@[i] == target[y as int][i],
                decreases self.width - x,
            {
                let (live, valid) = self.neighbor_counts(x, y);
                let current = self.get(x, y);
                let v = cell_outcome(live, valid, current, draws[y][x]);
                row.push(v);
                x = x + 1;
            }
            assert(row@ =~= target[y as int]);
            cells.push(row);
            y = y + 1;
        }
        let r = Grid { cells, width: self.width, height: self.height };
        assert(r@ =~= target);
        r
    }

    /// Whether every cell holds the same value: the round is over.
    pub fn is_converged(&self) -> (r: bool)
        requires
            self.wf(),
        ensures
            r == (uniform(self@, self.width as int, self.height as int, true) || uniform(
                self@,
                self.width as int,
                self.height as int,
                false,
            )),
    {
        let ghost w = self.width as int;
        let ghost h = self.height as int;
        let mut all_true = true;
        let mut all_false = true;
        let mut y: usize = 0;
        while y < self.height
            invariant
                self.wf(),
                w == self.width,
                h == self.height,
                0 <= y <= self.height,
                all_true == (forall|j: int, i: int|
                    0 <= j < y && 0 <= i < w ==> self@[j][i] == true),
                all_false == (forall|j: int, i: int|
                    0 <= j < y && 0 <= i < w ==> self@[j][i] == false),
            decreases self.height - y,
        {
            let mut x: usize = 0;
            while x < self.width
                invariant
                    self.wf(),
                    w == self.width,
                    h == self.height,
                    y < self.height,
                    0 <= x <= self.width,
                    all_true == (forall|j: int, i: int|
                        (0 <= j < y && 0 <= i < w) || (j == y && 0 <= i < x) ==> self@[j][i]
                            == true),
                    all_false == (forall|j: int, i: int|
                        (0 <= j < y && 0 <= i < w) || (j == y && 0 <= i < x) ==> self@[j][i]
                            == false),
                decreases self.width - x,
            {
                let c = self.get(x, y);
                if c {
                    all_false = false;
                } else {
                    all_true = false;
                }
                x = x + 1;
            }
            y = y + 1;
        }
        all_true || all_false
    }

    /// The value of cell `(x, y)`.
    pub fn get(&self, x: usize, y: usize) -> (r: bool)
        requires
            self.wf(),
            x < self.width,
            y < self.height,
        ensures
            r == self@[y as int][x as int],
    {
        assert(self@[y as int] == self.cells@[y as int]@);
        self.cells[y][x]
    }
}

} // verus!

verus! {

proof fn lemma_live_upto_all_true(g: Seq<Seq<bool>>, w: int, h: int, x: int, y: int, k: nat)
    requires
        well_shaped(g, w, h),
        uniform(g, w, h, true),
    ensures
        live_upto(g, w, h, x, y, k) == valid_upto(w, h, x, y, k),
    decreases k,
{
    if k > 0 {
        lemma_live_upto_all_true(g, w, h, x, y, (k - 1) as nat);
    }
}

proof fn lemma_live_upto_all_false(g: Seq<Seq<bool>>, w: int, h: int, x: int, y: int, k: nat)
    requires
        well_shaped(g, w, h),
        uniform(g, w, h, false),
    ensures
        live_upto(g, w, h, x, y, k) == 0,
    decreases k,
{
    if k > 0 {
        lemma_live_upto_all_false(g, w, h, x, y, (k - 1) as nat);
    }
}

/// Whatever the draw, the rule keeps a cell without neighbours, kills a
/// cell without live neighbours and fills one whose neighbours all live.
pub proof fn lemma_next_cell_possible(live: nat, valid: nat, current: bool, draw: nat)
    requires
        live <= valid,
        draw < DRAW_SCALE,
    ensures
        outcome_possible(live, valid, current, next_cell(live, valid, current, draw)),
{
    if valid > 0 {
        assert(draw * valid >= 0) by (nonlinear_arith);
        if live == valid {
            assert(valid * DRAW_SCALE > draw * valid) by (nonlinear_arith)
                requires
                    valid > 0,
                    draw < DRAW_SCALE,
            ;
        }
    }
}

/// Every cell of an updated board is an outcome that some draw allows.
pub proof fn lemma_next_view_possible(g: Seq<Seq<bool>>, w: int, h: int, d: Seq<Seq<u32>>)
    requires
        well_shaped(g, w, h),
        draws_fit(d, w, h),
    ensures
        well_shaped(next_view(g, w, h, d), w, h),
        forall|y: int, x: int|
            0 <= y < h && 0 <= x < w ==> outcome_possible(
                live_count(g, w, h, x, y),
                valid_count(w, h, x, y),
                g[y][x],
                #[trigger] next_view(g, w, h, d)[y][x],
            ),
{
    assert forall|y: int, x: int| 0 <= y < h && 0 <= x < w implies outcome_possible(
        live_count(g, w, h, x, y),
        valid_count(w, h, x, y),
        g[y][x],
        #[trigger] next_view(g, w, h, d)[y][x],
    ) by {
        lemma_counts_bounded(g, w, h, x, y, 8);
        lemma_next_cell_possible(
            live_count(g, w, h, x, y),
            valid_count(w, h, x, y),
            g[y][x],
            d[y][x] as nat,
        );
    }
}

/// A board that is all `true` stays all `true` under any draws: every
/// neighbour ratio is one and every draw is below one.
pub proof fn lemma_all_true_is_fixed(g: Seq<Seq<bool>>, w: int, h: int, d: Seq<Seq<u32>>)
    requires
        well_shaped(g, w, h),
        draws_fit(d, w, h),
        uniform(g, w, h, true),
    ensures
        uniform(next_view(g, w, h, d), w, h, true),
{
    assert forall|y: int, x: int| 0 <= y < h && 0 <= x < w implies next_view(g, w, h, d)[y][x]
        == true by {
        lemma_live_upto_all_true(g, w, h, x, y, 8);
        lemma_counts_bounded(g, w, h, x, y, 8);
        lemma_next_cell_possible(
            live_count(g, w, h, x, y),
            valid_count(w, h, x, y),
            g[y][x],
            d[y][x] as nat,
        );
    }
}

/// A board that is all `false` stays all `false` under any draws: every
/// neighbour ratio is zero and no draw lies below zero.
pub proof fn lemma_all_false_is_fixed(g: Seq<Seq<bool>>, w: int, h: int, d: Seq<Seq<u32>>)
    requires
        well_shaped(g, w, h),
        draws_fit(d, w, h),
        uniform(g, w, h, false),
    ensures
        uniform(next_view(g, w, h, d), w, h, false),
{
    assert forall|y: int, x: int| 0 <= y < h && 0 <= x < w implies next_view(g, w, h, d)[y][x]
        == false by {
        lemma_live_upto_all_false(g, w, h, x, y, 8);
        lemma_counts_bounded(g, w, h, x, y, 8);
        lemma_next_cell_possible(
            live_count(g, w, h, x, y),
            valid_count(w, h, x, y),
            g[y][x],
            d[y][x] as nat,
        );
    }
}

/// How many of the columns (or rows) `x - 1`, `x`, `x + 1` lie in `[0, n)`.
pub open spec fn reach(n: int, x: int) -> int {
    1 + (if x > 0 {
        1int
    } else {
        0int
    }) + (if x < n - 1 {
        1int
    } else {
        0int
    })
}

/// On a board, the neighbours of a cell are the three-by-three block around
/// it, clipped to the board, less the cell itself.
pub proof fn lemma_valid_count_closed_form(w: int, h: int, x: int, y: int)
    requires
        inside(w, h, x, y),
    ensures
        valid_count(w, h, x, y) == reach(w, x) * reach(h, y) - 1,
{
    reveal_with_fuel(valid_upto, 9);
    let a = reach(w, x);
    let b = reach(h, y);
    if x > 0 && x < w - 1 {
        assert(a == 3);
    } else if x > 0 || x < w - 1 {
        assert(a == 2);
    } else {
        assert(a == 1);
    }
    if y > 0 && y < h - 1 {
        assert(b == 3);
    } else if y > 0 || y < h - 1 {
        assert(b == 2);
    } else {
        assert(b == 1);
    }
}

/// On a board at least two cells wide and high, a corner cell has three
/// neighbours, another border cell five, and an interior cell eight.
pub proof fn lemma_neighbor_count_by_position(w: int, h: int, x: int, y: int)
    requires
        w >= 2,
        h >= 2,
        inside(w, h, x, y),
    ensures
        (x == 0 || x == w - 1) && (y == 0 || y == h - 1) ==> valid_count(w, h, x, y) == 3,
        (x == 0 || x == w - 1) != (y == 0 || y == h - 1) ==> valid_count(w, h, x, y) == 5,
        0 < x < w - 1 && 0 < y < h - 1 ==> valid_count(w, h, x, y) == 8,
{
    lemma_valid_count_closed_form(w, h, x, y);
    let a = reach(w, x);
    let b = reach(h, y);
    if x == 0 || x == w - 1 {
        assert(a == 2);
    } else {
        assert(a == 3);
    }
    if y == 0 || y == h - 1 {
        assert(b == 2);
    } else {
        assert(b == 3);
    }
}

} // verus!

verus! {

/// The neighbour counts of the first `n` cells of row `y`, summed.
pub open spec fn row_total(w: int, h: int, y: int, n: nat) -> int
    decreases n,
{
    if n == 0 {
        0
    } else {
        row_total(w, h, y, (n - 1) as nat) + valid_count(w, h, n - 1, y)
    }
}

/// The neighbour counts of every cell of the first `m` rows, summed.
pub open spec fn board_total(w: int, h: int, m: nat) -> int
    decreases m,
{
    if m == 0 {
        0
    } else {
        board_total(w, h, (m - 1) as nat) + row_total(w, h, m - 1, w as nat)
    }
}

spec fn span(n: int, k: nat) -> int
    decreases k,
{
    if k == 0 {
        0
    } else {
        span(n, (k - 1) as nat) + reach(n, k - 1)
    }
}

proof fn lemma_span(n: int, k: nat)
    requires
        n >= 2,
        1 <= k <= n,
    ensures
        k < n ==> span(n, k) == 3 * k - 1,
        k == n ==> span(n, k) == 3 * k - 2,
    decreases k,
{
    reveal_with_fuel(span, 2);
    if k > 1 {
        lemma_span(n, (k - 1) as nat);
    }
}

proof fn lemma_row_total(w: int, h: int, y: int, n: nat)
    requires
        n <= w,
        0 <= y < h,
    ensures
        row_total(w, h, y, n) == reach(h, y) * span(w, n) - n,
    decreases n,
{
    if n > 0 {
        lemma_row_total(w, h, y, (n - 1) as nat);
        lemma_valid_count_closed_form(w, h, n - 1, y);
        let b = reach(h, y);
        let s = span(w, (n - 1) as nat);
        let a = reach(w, n - 1);
        assert(b * s + a * b == b * (s + a)) by (nonlinear_arith);
    }
}

proof fn lemma_board_total(w: int, h: int, m: nat)
    requires
        m <= h,
        w >= 0,
    ensures
        board_total(w, h, m) == span(w, w as nat) * span(h, m) - m * w,
    decreases m,
{
    if m > 0 {
        lemma_board_total(w, h, (m - 1) as nat);
        lemma_row_total(w, h, m - 1, w as nat);
        let sw = span(w, w as nat);
        let sh = span(h, (m - 1) as nat);
        let b = reach(h, m - 1);
        assert(span(h, m) == sh + b);
        assert(row_total(w, h, m - 1, w as nat) == b * sw - w);
        assert(board_total(w, h, (m - 1) as nat) == sw * sh - (m - 1) * w);
        assert(sw * sh + b * sw == sw * (sh + b)) by (nonlinear_arith);
        assert((m - 1) * w + w == m * w) by (nonlinear_arith);
        assert(board_total(w, h, m) == board_total(w, h, (m - 1) as nat) + row_total(
            w,
            h,
            m - 1,
            w as nat,
        ));
        assert(sw * span(h, m) == sw * (sh + b));
    } else {
        let sw = span(w, w as nat);
        assert(sw * 0 == 0) by (nonlinear_arith);
        assert(m * w == 0) by (nonlinear_arith)
            requires
                m == 0,
        ;
        assert(span(h, m) == 0);
    }
}

/// On a board at least two cells wide and high, the neighbour counts of all
/// cells add up to eight per interior cell, five per border cell that is
/// no corner, and three per corner.
pub proof fn lemma_board_total_closed_form(w: int, h: int)
    requires
        w >= 2,
        h >= 2,
    ensures
        board_total(w, h, h as nat) == 8 * ((w - 2) * (h - 2)) + 5 * (2 * (w - 2) + 2 * (h - 2))
            + 3 * 4,
{
    lemma_board_total(w, h, h as nat);
    lemma_span(w, w as nat);
    lemma_span(h, h as nat);
    assert((3 * w - 2) * (3 * h - 2) - h * w == 8 * ((w - 2) * (h - 2)) + 5 * (2 * (w - 2) + 2 * (
    h - 2)) + 3 * 4) by (nonlinear_arith);
}

} // verus!
