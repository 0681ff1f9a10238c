//! Whole-board measurements: the well, bumpiness, covered holes and row
//! transitions.

use vstd::prelude::*;
use crate::game::GameState;
use crate::board::{
    Board, Rotation, TPlacement, col_height, count_true, filled, full_rows_below, heights_of,
    lemma_heights_bounded, placed, cleared, t_on_board,
};

verus! {

/// Height of column `x` of the board view `v`.
pub open spec fn h(v: Seq<Seq<bool>>, x: int) -> int {
    col_height(v[x]) as int
}

/// Whether every column but `w` is occupied at row `y`.
pub open spec fn covered_row(v: Seq<Seq<bool>>, w: int, y: int) -> bool {
    forall|x: int| 0 <= x < 10 && x != w ==> #[trigger] v[x][y]
}

/// The rows at or above `lo` (and below the top) that every column but `w` covers.
pub open spec fn covered_rows(v: Seq<Seq<bool>>, w: int, lo: int) -> Seq<bool> {
    Seq::new(64, |y: int| lo <= y && covered_row(v, w, y))
}

/// Depth of the well in column `w`: the rows above its floor that all the
/// other columns cover.
pub open spec fn well_depth(v: Seq<Seq<bool>>, w: int) -> nat {
    count_true(covered_rows(v, w, h(v, w)), 64)
}

/// Whether `w` is the well: the first column of least height.
pub open spec fn is_well(v: Seq<Seq<bool>>, w: int) -> bool {
    &&& 0 <= w < 10
    &&& forall|i: int| 0 <= i < 10 ==> h(v, w) <= #[trigger] h(v, i)
    &&& forall|i: int| 0 <= i < w ==> h(v, w) < #[trigger] h(v, i)
}

/// `s` without its entry at `w`, or `s` itself when `w` is not an index of it.
pub open spec fn drop_at(s: Seq<u32>, w: int) -> Seq<u32> {
    if 0 <= w < s.len() {
        s.remove(w)
    } else {
        s
    }
}

/// Sum of the squared differences between neighbouring entries of `s`.
pub open spec fn squared_steps(s: Seq<u32>) -> int
    decreases s.len(),
{
    if s.len() <= 1 {
        0
    } else {
        let d = s.last() as int - s[s.len() - 2] as int;
        squared_steps(s.drop_last()) + d * d
    }
}

/// Bumpiness of a height profile with the well column `w` left out.
pub open spec fn bumpiness_of(heights: Seq<u32>, w: int) -> int {
    squared_steps(drop_at(heights, w))
}

/// The empty cells of `col` in rows `lo..hi`.
pub open spec fn empty_cells(col: Seq<bool>, lo: int, hi: int) -> Seq<bool> {
    Seq::new(64, |y: int| lo <= y < hi && !col[y])
}

/// Number of empty cells in column `x` between row `lo` and its top.
pub open spec fn column_holes(v: Seq<Seq<bool>>, x: int, lo: int) -> nat {
    count_true(empty_cells(v[x], lo, h(v, x)), 64)
}

/// Empty cells between row `lo` and the top of each column, summed over the first `n` columns.
pub open spec fn holes_from(v: Seq<Seq<bool>>, lo: int, n: int) -> nat
    decreases n,
{
    if n <= 0 {
        0
    } else {
        holes_from(v, lo, n - 1) + column_holes(v, n - 1, lo)
    }
}

/// Each empty cell of `col` below row `n` and below `top`, weighted by its distance to `top`.
pub open spec fn weighted_holes(col: Seq<bool>, top: int, n: int) -> int
    decreases n,
{
    if n <= 0 {
        0
    } else {
        weighted_holes(col, top, n - 1) + if n - 1 < top && !col[n - 1] {
            top - (n - 1)
        } else {
            0
        }
    }
}

/// Coveredness of the first `n` columns: every empty cell below the top of
/// its column counts its depth under that top.
pub open spec fn coveredness_of(v: Seq<Seq<bool>>, n: int) -> int
    decreases n,
{
    if n <= 0 {
        0
    } else {
        coveredness_of(v, n - 1) + weighted_holes(v[n - 1], h(v, n - 1), h(v, n - 1))
    }
}

/// The rows in which two columns differ.
pub open spec fn differing_rows(a: Seq<bool>, b: Seq<bool>) -> Seq<bool> {
    Seq::new(64, |y: int| a[y] != b[y])
}

/// Row transitions between neighbouring columns among the first `n` columns.
pub open spec fn inner_transitions(v: Seq<Seq<bool>>, n: int) -> nat
    decreases n,
{
    if n <= 1 {
        0
    } else {
        inner_transitions(v, n - 1) + count_true(differing_rows(v[n - 2], v[n - 1]), 64)
    }
}

/// Row transitions of a board: changes between occupied and empty from one
/// column to the next, where the walls beside the outer columns count as occupied.
pub open spec fn row_transitions_of(v: Seq<Seq<bool>>) -> nat {
    count_true(empty_cells(v[0], 0, 64), 64) + count_true(empty_cells(v[9], 0, 64), 64)
        + inner_transitions(v, 10)
}

/// Counts the rows at or above `lo` that every column but `w` covers.
fn count_rows_covered(board: &Board, w: usize, lo: u32) -> (r: u32)
    requires
        w < 10,
    ensures
        r as int == count_true(covered_rows(board@, w as int, lo as int), 64),
        r <= 64,
{
    let ghost s = covered_rows(board@, w as int, lo as int);
    let mut r: u32 = 0;
    let mut y: usize = 0;
    while y < 64
        invariant
            w < 10,
            y <= 64,
            s == covered_rows(board@, w as int, lo as int),
            r as int == count_true(s, y as int),
            r <= y,
        decreases 64 - y,
    {
        if lo as usize <= y {
            let mut all = true;
            let mut x: usize = 0;
            while x < 10
                invariant
                    w < 10,
                    x <= 10,
                    y < 64,
                    all == (forall|i: int| 0 <= i < x && i != w ==> #[trigger] board@[i][y as int]),
                decreases 10 - x,
            {
                if x != w && !board.filled(x, y) {
                    all = false;
                }
                x = x + 1;
            }
            if all {
                r = r + 1;
            }
        }
        y = y + 1;
    }
    r
}

/// The well and its depth: the first column of least height, and the number
/// of rows above its floor that all other columns cover.
pub fn sunbeam_well(board: &Board, heights: &[u32; 10]) -> (r: (i32, usize))
    requires
        heights_of(board@, heights@),
    ensures
        is_well(board@, r.1 as int),
        r.0 as int == well_depth(board@, r.1 as int),
{
    let mut x: usize = 0;
    let mut i: usize = 1;
    while i < 10
        invariant
            heights_of(board@, heights@),
            1 <= i <= 10,
            x < i,
            forall|j: int| 0 <= j < i ==> heights[x as int] <= #[trigger] heights[j],
            forall|j: int| 0 <= j < x ==> heights[x as int] < #[trigger] heights[j],
        decreases 10 - i,
    {
        if heights[i] < heights[x] {
            x = i;
        }
        i = i + 1;
    }
    let depth = count_rows_covered(board, x, heights[x]);
    proof {
        assert forall|j: int| 0 <= j < 10 implies h(board@, x as int) <= #[trigger] h(board@, j) by {
            assert(heights@[j] as int == col_height(board@[j]));
            assert(heights@[x as int] as int == col_height(board@[x as int]));
        }
        assert forall|j: int| 0 <= j < x implies h(board@, x as int) < #[trigger] h(board@, j) by {
            assert(heights@[j] as int == col_height(board@[j]));
            assert(heights@[x as int] as int == col_height(board@[x as int]));
        }
    }
    (depth as i32, x)
}

proof fn lemma_drop_at_step(hs: Seq<u32>, w: int, i: int)
    requires
        0 <= i < hs.len(),
    ensures
        i != w ==> drop_at(hs.subrange(0, i + 1), w) =~= drop_at(hs.subrange(0, i), w).push(hs[i]),
        i == w ==> drop_at(hs.subrange(0, i + 1), w) =~= drop_at(hs.subrange(0, i), w),
{
}

/// Bumpiness of a height profile: the sum of squared height differences
/// between neighbouring columns, where the well column `well_x` is left out
/// and the columns on either side of it count as neighbours.
pub fn sunbeam_bumpiness(heights: &[u32; 10], well_x: usize) -> (r: i32)
    requires
        forall|x: int| 0 <= x < 10 ==> #[trigger] heights[x] <= 64,
    ensures
        r as int == bumpiness_of(heights@, well_x as int),
{
    let ghost hs = heights@;
    let mut bumpiness: u32 = 0;
    let mut left: usize = 0;
    if well_x == 0 {
        left = 1;
    }
    proof {
        assert(hs.subrange(0, 1) =~= seq![hs[0]]);
        if well_x == 0 {
            assert(drop_at(hs.subrange(0, 1), 0) =~= Seq::<u32>::empty());
        }
    }
    let mut i: usize = 1;
    while i < 10
        invariant
            hs == heights@,
            forall|x: int| 0 <= x < 10 ==> #[trigger] heights[x] <= 64,
            1 <= i <= 10,
            left <= i,
            ({
                let s = drop_at(hs.subrange(0, i as int), well_x as int);
                &&& bumpiness as int == squared_steps(s)
                &&& s.len() > 0 ==> left < i && s.last() == hs[left as int]
                &&& s.len() == 0 ==> left == i
            }),
            bumpiness <= i * 4096,
        decreases 10 - i,
    {
        let ghost s = drop_at(hs.subrange(0, i as int), well_x as int);
        proof {
            lemma_drop_at_step(hs, well_x as int, i as int);
        }
        if i != well_x {
            let diff = if heights[left] > heights[i] {
                heights[left] - heights[i]
            } else {
                heights[i] - heights[left]
            };
            assert(diff * diff <= 4096) by (nonlinear_arith)
                requires
                    diff <= 64,
            ;
            proof {
                let t = s.push(hs[i as int]);
                assert(t.drop_last() =~= s);
                if s.len() > 0 {
                    assert(t[t.len() - 2] == s.last());
                    let d = t.last() as int - t[t.len() - 2] as int;
                    assert(d * d == diff * diff) by (nonlinear_arith)
                        requires
                            d == diff || d == -diff,
                    ;
                } else {
                    assert(diff == 0);
                }
            }
            bumpiness = bumpiness + diff * diff;
            left = i;
        }
        i = i + 1;
    }
    assert(hs.subrange(0, 10) =~= hs);
    bumpiness as i32
}

/// Counts the empty cells of column `x` in rows `lo..hi`.
fn count_empty(board: &Board, x: usize, lo: u32, hi: u32) -> (r: u32)
    requires
        x < 10,
    ensures
        r as int == count_true(empty_cells(board@[x as int], lo as int, hi as int), 64),
        r <= 64,
{
    let ghost s = empty_cells(board@[x as int], lo as int, hi as int);
    let mut r: u32 = 0;
    let mut y: usize = 0;
    while y < 64
        invariant
            x < 10,
            y <= 64,
            s == empty_cells(board@[x as int], lo as int, hi as int),
            r as int == count_true(s, y as int),
            r <= y,
        decreases 64 - y,
    {
        if lo as usize <= y && y < hi as usize && !board.filled(x, y) {
            r = r + 1;
        }
        y = y + 1;
    }
    r
}

/// Sum over columns of the empty cells between row `lo` and each column's top.
fn holes_above(board: &Board, heights: &[u32; 10], lo: u32) -> (r: u32)
    requires
        heights_of(board@, heights@),
    ensures
        r as int == holes_from(board@, lo as int, 10),
        r <= 640,
{
    let mut r: u32 = 0;
    let mut x: usize = 0;
    while x < 10
        invariant
            heights_of(board@, heights@),
            x <= 10,
            r as int == holes_from(board@, lo as int, x as int),
            r <= x * 64,
        decreases 10 - x,
    {
        assert(heights@[x as int] as int == col_height(board@[x as int]));
        r = r + count_empty(board, x, lo, heights[x]);
        x = x + 1;
    }
    r
}

/// Holes above the well floor: for each column, the empty cells between the
/// height of column `well_x` and the column's top. Returns the holes and that height.
pub fn sunbeam_holes(board: &Board, heights: &[u32; 10], well_x: usize) -> (r: (i32, i32))
    requires
        heights_of(board@, heights@),
        well_x < 10,
    ensures
        r.0 as int == holes_from(board@, h(board@, well_x as int), 10),
        r.1 as int == h(board@, well_x as int),
{
    assert(heights@[well_x as int] as int == col_height(board@[well_x as int]));
    proof {
        crate::board::lemma_height_is_top(board@[well_x as int], 64);
    }
    let min_height = heights[well_x];
    let holes = holes_above(board, heights, min_height);
    (holes as i32, min_height as i32)
}

/// Covered holes: the empty cells below the top of each column, summed over columns.
pub fn cc_count_holes(board: &Board, heights: &[u32; 10]) -> (r: i32)
    requires
        heights_of(board@, heights@),
    ensures
        r as int == holes_from(board@, 0, 10),
{
    holes_above(board, heights, 0) as i32
}

/// Coveredness: each empty cell below the top of its column adds its
/// distance to that top.
pub fn cc_coveredness(board: &Board) -> (r: i32)
    ensures
        r as int == coveredness_of(board@, 10),
{
    let mut total: u32 = 0;
    let mut x: usize = 0;
    while x < 10
        invariant
            x <= 10,
            total as int == coveredness_of(board@, x as int),
            total <= x * 4160,
        decreases 10 - x,
    {
        let top = board.column_height(x);
        let mut sum: u32 = 0;
        let mut y: usize = 0;
        while y < 64
            invariant
                x < 10,
                y <= 64,
                top <= 64,
                top as int == col_height(board@[x as int]),
                sum as int == weighted_holes(board@[x as int], top as int, y as int),
                sum <= y * 65,
            decreases 64 - y,
        {
            if y < top as usize && !board.filled(x, y) {
                sum = sum + (top - y as u32);
            }
            y = y + 1;
        }
        proof {
            lemma_weighted_holes_top(board@[x as int], top as int, 64);
        }
        total = total + sum;
        x = x + 1;
    }
    total as i32
}

/// Rows at or above the top add nothing to a column's weighted holes.
proof fn lemma_weighted_holes_top(col: Seq<bool>, top: int, n: int)
    requires
        0 <= top <= n,
    ensures
        weighted_holes(col, top, n) == weighted_holes(col, top, top),
    decreases n,
{
    if n > top {
        lemma_weighted_holes_top(col, top, n - 1);
    }
}

/// Counts the rows in which columns `a` and `b` differ.
fn count_differing(board: &Board, a: usize, b: usize) -> (r: u32)
    requires
        a < 10,
        b < 10,
    ensures
        r as int == count_true(differing_rows(board@[a as int], board@[b as int]), 64),
        r <= 64,
{
    let ghost s = differing_rows(board@[a as int], board@[b as int]);
    let mut r: u32 = 0;
    let mut y: usize = 0;
    while y < 64
        invariant
            a < 10,
            b < 10,
            y <= 64,
            s == differing_rows(board@[a as int], board@[b as int]),
            r as int == count_true(s, y as int),
            r <= y,
        decreases 64 - y,
    {
        if board.filled(a, y) != board.filled(b, y) {
            r = r + 1;
        }
        y = y + 1;
    }
    r
}

/// Row transitions: the number of places where a row changes between
/// occupied and empty from one column to the next, counting the walls
/// beside the outer columns as occupied.
pub fn cc_row_transitions(board: &Board) -> (r: i32)
    ensures
        r as int == row_transitions_of(board@),
{
    let mut total: u32 = count_empty(board, 0, 0, 64) + count_empty(board, 9, 0, 64);
    let mut x: usize = 1;
    while x < 10
        invariant
            1 <= x <= 10,
            total as int == count_true(empty_cells(board@[0], 0, 64), 64) + count_true(
                empty_cells(board@[9], 0, 64),
                64,
            ) + inner_transitions(board@, x as int),
            total <= 128 + x * 64,
        decreases 10 - x,
    {
        total = total + count_differing(board, x - 1, x);
        x = x + 1;
    }
    total as i32
}

/// Whether the cell at (x, y) is occupied, counting the floor below row 0 as occupied.
pub open spec fn solid(v: Seq<Seq<bool>>, x: int, y: int) -> bool {
    y < 0 || filled(v, x, y)
}

/// A flat slot over column `x + 1`, closed on the right by an overhang of
/// column `x + 2` and open on the left above column `x`.
pub open spec fn slot_flat_left(v: Seq<Seq<bool>>, x: int) -> bool {
    let a = h(v, x) - 1;
    &&& h(v, x) > h(v, x + 1)
    &&& h(v, x) + 1 < h(v, x + 2)
    &&& filled(v, x, a) && !filled(v, x, a + 1) && !filled(v, x, a + 2)
    &&& !filled(v, x + 1, a) && !filled(v, x + 1, a + 1) && !filled(v, x + 1, a + 2)
    &&& filled(v, x + 2, a) && !filled(v, x + 2, a + 1) && filled(v, x + 2, a + 2)
}

/// The mirror image of `slot_flat_left`: the overhang is on column `x`.
pub open spec fn slot_flat_right(v: Seq<Seq<bool>>, x: int) -> bool {
    let a = h(v, x + 2) - 1;
    &&& h(v, x + 2) > h(v, x + 1)
    &&& h(v, x + 2) + 1 < h(v, x)
    &&& filled(v, x, a) && !filled(v, x, a + 1) && filled(v, x, a + 2)
    &&& !filled(v, x + 1, a) && !filled(v, x + 1, a + 1) && !filled(v, x + 1, a + 2)
    &&& filled(v, x + 2, a) && !filled(v, x + 2, a + 1) && !filled(v, x + 2, a + 2)
}

/// An upright slot in column `x + 2` under an overhang of that column, entered
/// from column `x + 1`, whose cell below the entry is occupied (or else the
/// cell below the slot's bottom is).
pub open spec fn slot_upright_right(v: Seq<Seq<bool>>, x: int) -> bool {
    let b = h(v, x + 1) - 3;
    &&& h(v, x + 1) >= 3
    &&& h(v, x + 1) >= h(v, x)
    &&& h(v, x + 1) + 1 < h(v, x + 2)
    &&& !filled(v, x, b + 3) && !filled(v, x, b + 4)
    &&& !filled(v, x + 1, b + 1) && filled(v, x + 1, b + 2)
    &&& !filled(v, x + 1, b + 3) && !filled(v, x + 1, b + 4)
    &&& !filled(v, x + 2, b) && !filled(v, x + 2, b + 1) && !filled(v, x + 2, b + 2)
    &&& !filled(v, x + 2, b + 3) && filled(v, x + 2, b + 4)
    &&& solid(v, x + 1, b) || solid(v, x + 2, b - 1)
}

/// The mirror image of `slot_upright_right`: the slot is in column `x`.
pub open spec fn slot_upright_left(v: Seq<Seq<bool>>, x: int) -> bool {
    let b = h(v, x + 1) - 3;
    &&& h(v, x + 1) >= 3
    &&& h(v, x + 1) >= h(v, x + 2)
    &&& h(v, x + 1) + 1 < h(v, x)
    &&& !filled(v, x, b) && !filled(v, x, b + 1) && !filled(v, x, b + 2)
    &&& !filled(v, x, b + 3) && filled(v, x, b + 4)
    &&& !filled(v, x + 1, b + 1) && filled(v, x + 1, b + 2)
    &&& !filled(v, x + 1, b + 3) && !filled(v, x + 1, b + 4)
    &&& !filled(v, x + 2, b + 3) && !filled(v, x + 2, b + 4)
    &&& solid(v, x + 1, b) || solid(v, x, b - 1)
}

/// The first T slot found scanning the column triples from `x` rightwards,
/// testing the four shapes in turn at each position.
pub open spec fn tslot_from(v: Seq<Seq<bool>>, x: int) -> Option<TPlacement>
    decreases 8 - x,
{
    if x >= 8 || x < 0 {
        None
    } else if slot_flat_left(v, x) {
        Some(TPlacement { x: (x + 1) as i8, y: h(v, x) as i8, r: Rotation::South })
    } else if slot_flat_right(v, x) {
        Some(TPlacement { x: (x + 1) as i8, y: h(v, x + 2) as i8, r: Rotation::South })
    } else if slot_upright_right(v, x) {
        Some(TPlacement { x: (x + 2) as i8, y: (h(v, x + 1) - 2) as i8, r: Rotation::West })
    } else if slot_upright_left(v, x) {
        Some(TPlacement { x: x as i8, y: (h(v, x + 1) - 2) as i8, r: Rotation::East })
    } else {
        tslot_from(v, x + 1)
    }
}

/// Whether the cell at (x, y) is occupied; `y` may be one below the floor.
fn solid_at(board: &Board, x: usize, y: u32) -> (r: bool)
    requires
        x < 10,
        y <= 64,
    ensures
        r == solid(board@, x as int, y as int - 1),
{
    if y == 0 {
        true
    } else {
        board.filled(x, (y - 1) as usize)
    }
}

/// The T slot of the board: the first of the four slot shapes found at the
/// lowest column offset, with the placement of a T piece that fills it.
pub fn sunbeam_tslot(board: &Board, heights: &[u32; 10]) -> (r: Option<TPlacement>)
    requires
        heights_of(board@, heights@),
    ensures
        r == tslot_from(board@, 0),
        r matches Some(m) ==> t_on_board(m),
{
    proof {
        lemma_heights_bounded(board@, heights@);
    }
    let mut x: usize = 0;
    while x < 8
        invariant
            heights_of(board@, heights@),
            forall|i: int| 0 <= i < 10 ==> #[trigger] heights[i] <= 64,
            x <= 8,
            tslot_from(board@, 0) == tslot_from(board@, x as int),
        decreases 8 - x,
    {
        assert(heights@[x as int] as int == h(board@, x as int));
        assert(heights@[x + 1] as int == h(board@, x + 1));
        assert(heights@[x + 2] as int == h(board@, x + 2));
        let h0 = heights[x];
        let h1 = heights[x + 1];
        let h2 = heights[x + 2];
        if h0 > h1 && h0 + 1 < h2 {
            let a = (h0 - 1) as usize;
            if board.filled(x, a) && !board.filled(x, a + 1) && !board.filled(x, a + 2)
                && !board.filled(x + 1, a) && !board.filled(x + 1, a + 1) && !board.filled(
                x + 1,
                a + 2,
            ) && board.filled(x + 2, a) && !board.filled(x + 2, a + 1) && board.filled(
                x + 2,
                a + 2,
            ) {
                return Some(TPlacement { x: (x + 1) as i8, y: h0 as i8, r: Rotation::South });
            }
        }
        if h2 > h1 && h2 + 1 < h0 {
            let a = (h2 - 1) as usize;
            if board.filled(x, a) && !board.filled(x, a + 1) && board.filled(x, a + 2)
                && !board.filled(x + 1, a) && !board.filled(x + 1, a + 1) && !board.filled(
                x + 1,
                a + 2,
            ) && board.filled(x + 2, a) && !board.filled(x + 2, a + 1) && !board.filled(
                x + 2,
                a + 2,
            ) {
                return Some(TPlacement { x: (x + 1) as i8, y: h2 as i8, r: Rotation::South });
            }
        }
        if h1 >= 3 && h1 >= h0 && h1 + 1 < h2 {
            let b = (h1 - 3) as usize;
            if !board.filled(x, b + 3) && !board.filled(x, b + 4) && !board.filled(x + 1, b + 1)
                && board.filled(x + 1, b + 2) && !board.filled(x + 1, b + 3) && !board.filled(
                x + 1,
                b + 4,
            ) && !board.filled(x + 2, b) && !board.filled(x + 2, b + 1) && !board.filled(
                x + 2,
                b + 2,
            ) && !board.filled(x + 2, b + 3) && board.filled(x + 2, b + 4) && (solid_at(
                board,
                x + 1,
                b as u32 + 1,
            ) || solid_at(board, x + 2, b as u32)) {
                return Some(
                    TPlacement { x: (x + 2) as i8, y: (h1 - 2) as i8, r: Rotation::West },
                );
            }
        }
        if h1 >= 3 && h1 >= h2 && h1 + 1 < h0 {
            let b = (h1 - 3) as usize;
            if !board.filled(x, b) && !board.filled(x, b + 1) && !board.filled(x, b + 2)
                && !board.filled(x, b + 3) && board.filled(x, b + 4) && !board.filled(x + 1, b + 1)
                && board.filled(x + 1, b + 2) && !board.filled(x + 1, b + 3) && !board.filled(
                x + 1,
                b + 4,
            ) && !board.filled(x + 2, b + 3) && !board.filled(x + 2, b + 4) && (solid_at(
                board,
                x + 1,
                b as u32 + 1,
            ) || solid_at(board, x, b as u32)) {
                return Some(TPlacement { x: x as i8, y: (h1 - 2) as i8, r: Rotation::East });
            }
        }
        x = x + 1;
    }
    None
}

/// Histogram bucket for a number of cleared rows: 0, 1, 2, or 3 and more.
pub open spec fn clear_bucket(n: nat) -> int {
    if n >= 3 {
        3
    } else {
        n as int
    }
}

/// The greedy donation search from board view `v` with `depth` placements
/// left, the clear-count histogram `hist` and `d` donations so far: while a
/// T slot exists, place a T piece in it and clear full rows; keep the result
/// and go on when at least two rows cleared, and stop otherwise. Returns the
/// board, the histogram and the number of donations at the end.
pub open spec fn donate(v: Seq<Seq<bool>>, depth: nat, hist: Seq<int>, d: nat) -> (
    Seq<Seq<bool>>,
    Seq<int>,
    nat,
)
    decreases depth,
{
    if depth == 0 {
        (v, hist, d)
    } else {
        match tslot_from(v, 0) {
            None => (v, hist, d),
            Some(m) => {
                let p = placed(v, m);
                let n = full_rows_below(p, 64);
                let k = clear_bucket(n);
                let hist2 = hist.update(k, hist[k] + 1);
                if n >= 2 {
                    donate(cleared(p), (depth - 1) as nat, hist2, d + 1)
                } else {
                    (v, hist2, d)
                }
            },
        }
    }
}

/// Sum of the four buckets of a clear-count histogram.
pub open spec fn hist_total(hist: Seq<int>) -> int {
    hist[0] + hist[1] + hist[2] + hist[3]
}

/// The donation search simulates at most `depth` placements and accepts at
/// most `depth` of them.
pub proof fn lemma_donations_bounded(v: Seq<Seq<bool>>, depth: nat, hist: Seq<int>, d: nat)
    requires
        hist.len() == 4,
    ensures
        donate(v, depth, hist, d).1.len() == 4,
        d <= donate(v, depth, hist, d).2 <= d + depth,
        hist_total(hist) <= hist_total(donate(v, depth, hist, d).1) <= hist_total(hist) + depth,
        forall|k: int|
            0 <= k < 4 ==> hist[k] <= #[trigger] donate(v, depth, hist, d).1[k] <= hist[k] + depth,
    decreases depth,
{
    if depth > 0 {
        if let Some(m) = tslot_from(v, 0) {
            let p = placed(v, m);
            let n = full_rows_below(p, 64);
            let k = clear_bucket(n);
            let hist2 = hist.update(k, hist[k] + 1);
            if n >= 2 {
                lemma_donations_bounded(cleared(p), (depth - 1) as nat, hist2, d + 1);
            }
        }
    }
}

/// Estimates multi-row clear potential: repeatedly finds a T slot, simulates
/// a T piece in it and clears full rows, keeping the result only when it
/// cleared at least two rows, for at most `depth` placements. Returns the
/// histogram of rows cleared per placement (0, 1, 2, 3 or more) and the
/// number of kept placements; the board and heights end as the last kept
/// placement left them.
pub fn sunbeam_donations(board: &mut Board, heights: &mut [u32; 10], depth: usize) -> (r: (
    [i32; 4],
    i32,
))
    requires
        heights_of(old(board)@, old(heights)@),
        depth <= i32::MAX,
    ensures
        ({
            let res = donate(old(board)@, depth as nat, seq![0int, 0, 0, 0], 0);
            &&& final(board)@ == res.0
            &&& forall|k: int| 0 <= k < 4 ==> #[trigger] r.0[k] as int == res.1[k]
            &&& r.1 as int == res.2
        }),
        heights_of(final(board)@, final(heights)@),
        r.0[0] + r.0[1] + r.0[2] + r.0[3] <= depth,
        forall|k: int| 0 <= k < 4 ==> 0 <= #[trigger] r.0[k] <= depth,
        0 <= r.1 <= depth,
{
    let ghost start = board@;
    let ghost zeros = seq![0int, 0, 0, 0];
    let ghost goal = donate(start, depth as nat, zeros, 0);
    let mut tslots = [0i32; 4];
    let mut donations: i32 = 0;
    let ghost mut ghist = zeros;
    let mut stop = false;
    let mut i: usize = 0;
    proof {
        lemma_donations_bounded(start, depth as nat, zeros, 0);
    }
    while i < depth && !stop
        invariant
            heights_of(board@, heights@),
            i <= depth <= i32::MAX,
            ghist.len() == 4,
            forall|k: int| 0 <= k < 4 ==> #[trigger] tslots[k] as int == ghist[k],
            forall|k: int| 0 <= k < 4 ==> 0 <= #[trigger] ghist[k] <= i,
            0 <= donations <= i,
            goal == donate(start, depth as nat, zeros, 0),
            stop ==> goal == (board@, ghist, donations as nat),
            !stop ==> goal == donate(board@, (depth - i) as nat, ghist, donations as nat),
        decreases depth - i,
    {
        match sunbeam_tslot(board, heights) {
            Some(m) => {
                let mut clone = *board;
                clone.place_t(m);
                let ghost p = clone@;
                let n = clone.clear_lines();
                let k: usize = if n >= 3 {
                    3
                } else {
                    n as usize
                };
                tslots[k] = tslots[k] + 1;
                proof {
                    ghist = ghist.update(k as int, ghist[k as int] + 1);
                }
                if n >= 2 {
                    *board = clone;
                    *heights = board.heights();
                    donations = donations + 1;
                } else {
                    stop = true;
                }
            },
            None => {
                stop = true;
            },
        }
        i = i + 1;
    }
    proof {
        lemma_donations_bounded(start, depth as nat, zeros, 0);
        assert(hist_total(zeros) == 0);
    }
    (tslots, donations)
}

/// The greatest of a list of heights.
pub open spec fn max_of(hs: Seq<u32>, n: int) -> int
    decreases n,
{
    if n <= 0 {
        0
    } else if hs[n - 1] as int > max_of(hs, n - 1) {
        hs[n - 1] as int
    } else {
        max_of(hs, n - 1)
    }
}

/// The greatest of ten heights.
fn max_height(heights: &[u32; 10]) -> (r: u32)
    ensures
        r as int == max_of(heights@, 10),
{
    let mut m: u32 = 0;
    for x in 0..10
        invariant
            m as int == max_of(heights@, x as int),
    {
        if heights[x] > m {
            m = heights[x];
        }
    }
    m
}

/// Well, bumpiness, hole, transition and donation features of one board.
pub struct StaticFeatures {
    pub sunbeam_max_height: u32,
    pub sunbeam_bumpiness: i32,
    pub sunbeam_well_x: usize,
    pub sunbeam_well_depth: i32,
    pub sunbeam_max_donated_height: u32,
    pub sunbeam_n_donations: i32,
    pub sunbeam_t_clears: [i32; 4],
    pub cc_holes: i32,
    pub cc_coveredness: i32,
    pub cc_row_transitions: i32,
}

/// The column heights of a board view, in order.
pub open spec fn heights_seq(v: Seq<Seq<bool>>) -> Seq<u32> {
    Seq::new(10, |x: int| col_height(v[x]) as u32)
}

/// Whether `f` holds the static features of the board view `v`, with the
/// donation search two placements deep.
pub open spec fn static_features_of(v: Seq<Seq<bool>>, f: StaticFeatures) -> bool {
    let res = donate(v, 2, seq![0int, 0, 0, 0], 0);
    &&& f.sunbeam_max_height as int == max_of(heights_seq(v), 10)
    &&& is_well(v, f.sunbeam_well_x as int)
    &&& f.sunbeam_well_depth as int == well_depth(v, f.sunbeam_well_x as int)
    &&& f.sunbeam_bumpiness as int == bumpiness_of(heights_seq(v), f.sunbeam_well_x as int)
    &&& f.sunbeam_max_donated_height as int == max_of(heights_seq(res.0), 10)
    &&& f.sunbeam_n_donations as int == res.2
    &&& forall|k: int| 0 <= k < 4 ==> #[trigger] f.sunbeam_t_clears[k] as int == res.1[k]
    &&& f.cc_holes as int == holes_from(v, 0, 10)
    &&& f.cc_coveredness as int == coveredness_of(v, 10)
    &&& f.cc_row_transitions as int == row_transitions_of(v)
}

proof fn lemma_heights_seq(v: Seq<Seq<bool>>, heights: Seq<u32>)
    requires
        heights_of(v, heights),
    ensures
        heights == heights_seq(v),
{
    assert(heights =~= heights_seq(v));
}

/// Static features of one board: its well, bumpiness, holes, coveredness
/// and row transitions, and the outcome of a two-placement donation search.
pub fn board_static_features(board: &Board) -> (r: StaticFeatures)
    ensures
        static_features_of(board@, r),
{
    let heights = board.heights();
    proof {
        lemma_heights_seq(board@, heights@);
        lemma_heights_bounded(board@, heights@);
    }
    let (well_depth, well_x) = sunbeam_well(board, &heights);
    let mut donated_board = *board;
    let mut donated_heights = heights;
    let (t_clears, n_donations) = sunbeam_donations(&mut donated_board, &mut donated_heights, 2);
    proof {
        lemma_heights_seq(donated_board@, donated_heights@);
    }
    StaticFeatures {
        sunbeam_max_height: max_height(&heights),
        sunbeam_bumpiness: sunbeam_bumpiness(&heights, well_x),
        sunbeam_well_x: well_x,
        sunbeam_well_depth: well_depth,
        sunbeam_max_donated_height: max_height(&donated_heights),
        sunbeam_n_donations: n_donations,
        sunbeam_t_clears: t_clears,
        cc_holes: cc_count_holes(board, &heights),
        cc_coveredness: cc_coveredness(board),
        cc_row_transitions: cc_row_transitions(board),
    }
}

/// Static features of one player's position.
pub fn get_static_features(game: &GameState) -> (r: StaticFeatures)
    ensures
        static_features_of(game.board@, r),
{
    board_static_features(&game.board)
}

} // verus!
