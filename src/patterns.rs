//! Histograms of the small occupancy patterns seen through a window slid
//! over the board.

use vstd::prelude::*;
use crate::board::{
    Board, col_height, filled, heights_of, height_below, lemma_height_is_top, lemma_heights_bounded,
};

verus! {

/// `2` to the power `n`.
pub open spec fn two_to(n: nat) -> nat
    decreases n,
{
    if n == 0 {
        1
    } else {
        2 * two_to((n - 1) as nat)
    }
}

/// The cells of column `x` in rows `y..y + rows` as a number, row `y` in the lowest bit.
pub open spec fn slice(v: Seq<Seq<bool>>, x: int, y: int, rows: nat) -> nat
    decreases rows,
{
    if rows == 0 {
        0
    } else {
        (if filled(v, x, y) {
            1nat
        } else {
            0nat
        }) + 2 * slice(v, x, y + 1, (rows - 1) as nat)
    }
}

/// Pattern id of the window of `cols` columns and `rows` rows whose lower
/// left cell is (x, y): the slice of each column, column `x` in the lowest
/// `rows` bits, the next column in the `rows` bits above, and so on.
pub open spec fn pattern_id(v: Seq<Seq<bool>>, x: int, y: int, cols: nat, rows: nat) -> nat
    decreases cols,
{
    if cols == 0 {
        0
    } else {
        slice(v, x, y, rows) + two_to(rows) * pattern_id(v, x + 1, y, (cols - 1) as nat, rows)
    }
}

/// Number of window positions in a row of the board for windows `cols` columns wide.
pub open spec fn positions(cols: nat) -> int {
    11 - cols
}

/// Number of window positions before (x, y), scanning rows from the floor
/// up and each row from the left, whose pattern is `id`.
pub open spec fn window_count(v: Seq<Seq<bool>>, cols: nat, rows: nat, id: nat, y: int, x: int) -> nat
    decreases y, x,
{
    if x > 0 {
        window_count(v, cols, rows, id, y, x - 1) + if pattern_id(v, x - 1, y, cols, rows) == id {
            1nat
        } else {
            0nat
        }
    } else if y > 0 {
        window_count(v, cols, rows, id, y - 1, positions(cols))
    } else {
        0
    }
}

/// Sum of the x-coordinates of the window positions counted by `window_count`.
pub open spec fn window_xsum(v: Seq<Seq<bool>>, cols: nat, rows: nat, id: nat, y: int, x: int) -> nat
    decreases y, x,
{
    if x > 0 {
        window_xsum(v, cols, rows, id, y, x - 1) + if pattern_id(v, x - 1, y, cols, rows) == id {
            (x - 1) as nat
        } else {
            0nat
        }
    } else if y > 0 {
        window_xsum(v, cols, rows, id, y - 1, positions(cols))
    } else {
        0
    }
}

/// Sum of the y-coordinates of the window positions counted by `window_count`.
pub open spec fn window_ysum(v: Seq<Seq<bool>>, cols: nat, rows: nat, id: nat, y: int, x: int) -> nat
    decreases y, x,
{
    if x > 0 {
        window_ysum(v, cols, rows, id, y, x - 1) + if pattern_id(v, x - 1, y, cols, rows) == id {
            y as nat
        } else {
            0nat
        }
    } else if y > 0 {
        window_ysum(v, cols, rows, id, y - 1, positions(cols))
    } else {
        0
    }
}

/// The greatest height among the first `n` columns.
pub open spec fn max_height_below(v: Seq<Seq<bool>>, n: int) -> nat
    decreases n,
{
    if n <= 0 {
        0
    } else {
        let m = max_height_below(v, n - 1);
        let c = col_height(v[n - 1]);
        if c > m {
            c
        } else {
            m
        }
    }
}

/// The height of the tallest column.
pub open spec fn max_height(v: Seq<Seq<bool>>) -> nat {
    max_height_below(v, 10)
}

/// The three histograms of the windows of one shape, each indexed by pattern id.
pub struct Histograms {
    /// How often each pattern occurs.
    pub counts: Vec<i32>,
    /// Sum of the x-coordinates at which each pattern occurs.
    pub with_x: Vec<i32>,
    /// Sum of the y-coordinates at which each pattern occurs.
    pub with_y: Vec<i32>,
}

/// Whether `h` holds the histograms of the windows of `cols` columns and
/// `rows` rows over every row below the top of the tallest column.
pub open spec fn histograms_of(v: Seq<Seq<bool>>, cols: nat, rows: nat, h: Histograms) -> bool {
    let n = two_to(cols * rows);
    let top = max_height(v) as int;
    &&& h.counts.len() == n
    &&& h.with_x.len() == n
    &&& h.with_y.len() == n
    &&& forall|id: int|
        0 <= id < n ==> #[trigger] h.counts@[id] as int == window_count(v, cols, rows, id as nat, top, 0)
    &&& forall|id: int|
        0 <= id < n ==> #[trigger] h.with_x@[id] as int == window_xsum(v, cols, rows, id as nat, top, 0)
    &&& forall|id: int|
        0 <= id < n ==> #[trigger] h.with_y@[id] as int == window_ysum(v, cols, rows, id as nat, top, 0)
}

/// The height of the tallest column.
pub fn max_column_height(heights: &[u32; 10]) -> (r: u32)
    ensures
        forall|x: int| 0 <= x < 10 ==> heights[x] <= r,
        exists|x: int| 0 <= x < 10 && heights[x] == r,
{
    let mut m = heights[0];
    for x in 1..10
        invariant
            forall|i: int| 0 <= i < x ==> heights[i] <= m,
            exists|i: int| 0 <= i < 10 && heights[i] == m,
    {
        if heights[x] > m {
            m = heights[x];
        }
    }
    m
}

proof fn lemma_max_height(v: Seq<Seq<bool>>, heights: Seq<u32>, m: u32, n: int)
    requires
        v.len() == 10,
        heights_of(v, heights),
        0 < n <= 10,
        forall|x: int| 0 <= x < 10 ==> heights[x] <= m,
        exists|x: int| 0 <= x < 10 && heights[x] == m,
    ensures
        forall|x: int| 0 <= x < n ==> col_height(v[x]) <= max_height_below(v, n),
        exists|x: int| 0 <= x < n && col_height(v[x]) == max_height_below(v, n),
        n == 10 ==> max_height(v) == m,
    decreases n,
{
    if n > 1 {
        lemma_max_height(v, heights, m, n - 1);
        let z = choose|x: int| 0 <= x < n - 1 && col_height(v[x]) == max_height_below(v, n - 1);
        if col_height(v[n - 1]) > max_height_below(v, n - 1) {
            assert(col_height(v[n - 1]) == max_height_below(v, n));
        } else {
            assert(col_height(v[z]) == max_height_below(v, n));
        }
    } else {
        assert(max_height_below(v, 0) == 0);
        assert(col_height(v[0]) == max_height_below(v, 1));
    }
    assert(heights[n - 1] as int == col_height(v[n - 1]));
    if n == 10 {
        let w = choose|x: int| 0 <= x < 10 && heights[x] == m;
        assert(heights[w] as int == col_height(v[w]));
        let z = choose|x: int| 0 <= x < n && col_height(v[x]) == max_height_below(v, n);
        assert(heights[z] as int == col_height(v[z]));
    }
}

pub(crate) proof fn lemma_two_to_nine()
    ensures
        two_to(4) == 16,
        two_to(6) == 64,
        two_to(9) == 512,
{
    assert(two_to(0) == 1);
    assert(two_to(1) == 2);
    assert(two_to(2) == 4);
    assert(two_to(3) == 8);
    assert(two_to(4) == 16);
    assert(two_to(5) == 32);
    assert(two_to(6) == 64);
    assert(two_to(7) == 128);
    assert(two_to(8) == 256);
    assert(two_to(9) == 512);
}

/// `2` to the power `n`, for `n` up to 9.
fn power_of_two(n: usize) -> (r: usize)
    requires
        n <= 9,
    ensures
        r as nat == two_to(n as nat),
        r <= 512,
{
    proof {
        lemma_two_to_nine();
    }
    let mut r: usize = 1;
    for i in 0..n
        invariant
            n <= 9,
            two_to(9) == 512,
            r as nat == two_to(i as nat),
            r * two_to((9 - i) as nat) == 512,
    {
        proof {
            let rest = two_to((9 - i - 1) as nat);
            assert(two_to((9 - i) as nat) == 2 * rest);
            lemma_two_to_positive((9 - i - 1) as nat);
            assert((r * 2) * rest == r * (2 * rest)) by (nonlinear_arith);
            assert(r * 2 <= 512) by (nonlinear_arith)
                requires
                    (r * 2) * rest == 512,
                    rest >= 1,
            ;
        }
        r = r * 2;
    }
    proof {
        lemma_two_to_positive((9 - n) as nat);
        assert(r <= 512) by (nonlinear_arith)
            requires
                r * two_to((9 - n) as nat) == 512,
                two_to((9 - n) as nat) >= 1,
        ;
    }
    r
}

proof fn lemma_two_to_positive(n: nat)
    ensures
        two_to(n) >= 1,
    decreases n,
{
    if n > 0 {
        lemma_two_to_positive((n - 1) as nat);
    }
}

proof fn lemma_two_to_split(a: nat, b: nat)
    ensures
        two_to(a + b) == two_to(a) * two_to(b),
    decreases a,
{
    assert(two_to(0) == 1);
    if a > 0 {
        let a1 = (a - 1) as nat;
        lemma_two_to_split(a1, b);
        assert((a + b) as nat - 1 == a1 + b);
        assert(two_to(a + b) == 2 * two_to(a1 + b));
        assert(two_to(a) == 2 * two_to(a1));
        let p = two_to(a1);
        let q = two_to(b);
        assert(2 * (p * q) == (2 * p) * q) by (nonlinear_arith);
        assert(two_to(a + b) == two_to(a) * two_to(b));
    } else {
        assert(a + b == b);
        assert(two_to(a + b) == two_to(b));
    }
}

proof fn lemma_slice_bound(v: Seq<Seq<bool>>, x: int, y: int, rows: nat)
    ensures
        slice(v, x, y, rows) < two_to(rows),
    decreases rows,
{
    if rows > 0 {
        lemma_slice_bound(v, x, y + 1, (rows - 1) as nat);
    }
}

/// The cells of column `x` in rows `y..y + rows` as a number, row `y` in the lowest bit.
fn column_slice(board: &Board, x: usize, y: usize, rows: usize) -> (r: usize)
    requires
        x < 10,
        y < 64,
        rows <= 3,
    ensures
        r as nat == slice(board@, x as int, y as int, rows as nat),
        r < 8,
{
    let mut r: usize = 0;
    let mut j: usize = rows;
    while j > 0
        invariant
            x < 10,
            y < 64,
            j <= rows <= 3,
            r as nat == slice(board@, x as int, y + j, (rows - j) as nat),
            r < two_to((rows - j) as nat),
        decreases j,
    {
        proof {
            lemma_two_to_nine();
            assert(two_to(0) == 1);
            assert(two_to(1) == 2);
            assert(two_to(2) == 4);
            assert(two_to(3) == 8);
            assert(((rows - j + 1) as nat) - 1 == (rows - j) as nat);
        }
        j = j - 1;
        let bit: usize = if board.filled(x, y + j) {
            1
        } else {
            0
        };
        r = bit + 2 * r;
    }
    proof {
        lemma_two_to_nine();
        assert(two_to(0) == 1);
        assert(two_to(1) == 2);
        assert(two_to(2) == 4);
        assert(two_to(3) == 8);
    }
    r
}

/// Pattern id of the window of `cols` columns and `rows` rows whose lower left cell is (x, y).
fn window_id(board: &Board, x: usize, y: usize, cols: usize, rows: usize) -> (r: usize)
    requires
        2 <= cols <= 3,
        2 <= rows <= 3,
        x + cols <= 10,
        y < 64,
    ensures
        r as nat == pattern_id(board@, x as int, y as int, cols as nat, rows as nat),
        r < two_to((cols * rows) as nat),
{
    let scale = power_of_two(rows);
    let mut r: usize = 0;
    let mut k: usize = cols;
    proof {
        assert(rows * 0 == 0);
        assert(two_to(0) == 1);
    }
    while k > 0
        invariant
            2 <= cols <= 3,
            2 <= rows <= 3,
            x + cols <= 10,
            y < 64,
            k <= cols,
            scale as nat == two_to(rows as nat),
            r as nat == pattern_id(board@, x + k, y as int, (cols - k) as nat, rows as nat),
            r < two_to((rows * (cols - k)) as nat),
        decreases k,
    {
        k = k - 1;
        let s = column_slice(board, x + k, y, rows);
        proof {
            lemma_slice_bound(board@, x + k, y as int, rows as nat);
            lemma_two_to_split(rows as nat, (rows * (cols - k - 1)) as nat);
            assert(rows * (cols - k) == rows + rows * (cols - k - 1)) by (nonlinear_arith);
            assert(((cols - k) as nat) - 1 == (cols - k - 1) as nat);
            let big = two_to((rows * (cols - k - 1)) as nat);
            assert(s + scale * r < scale * big) by (nonlinear_arith)
                requires
                    s < scale,
                    r < big,
            ;
            let m = (rows * (cols - k)) as nat;
            assert(m <= 9) by (nonlinear_arith)
                requires
                    m == rows * (cols - k),
                    rows <= 3,
                    cols - k <= 3,
            ;
            lemma_two_to_nine();
            lemma_two_to_split(m, (9 - m) as nat);
            lemma_two_to_positive((9 - m) as nat);
            let t = two_to((9 - m) as nat);
            assert(two_to(m) <= 512) by (nonlinear_arith)
                requires
                    two_to(m) * t == 512,
                    t >= 1,
            ;
            assert(scale * r <= 512) by (nonlinear_arith)
                requires
                    s + scale * r < scale * big,
                    scale * big == two_to((rows * (cols - k)) as nat),
                    two_to((rows * (cols - k)) as nat) <= 512,
            ;
        }
        r = s + scale * r;
    }
    proof {
        assert(rows * cols == cols * rows) by (nonlinear_arith);
    }
    r
}

/// Slides a window of `cols` columns and `rows` rows over every position
/// whose lowest row lies below the top of the tallest column, and counts for
/// each pattern id how often it occurs and the sums of the x- and
/// y-coordinates at which it occurs. An empty board gives all-zero histograms.
pub fn window_histogram(board: &Board, cols: usize, rows: usize) -> (r: Histograms)
    requires
        2 <= cols <= 3,
        2 <= rows <= 3,
    ensures
        histograms_of(board@, cols as nat, rows as nat, r),
{
    let heights = board.heights();
    let top = max_column_height(&heights);
    proof {
        lemma_heights_bounded(board@, heights@);
        lemma_max_height(board@, heights@, top, 10);
    }
    assert(rows * cols <= 9) by (nonlinear_arith)
        requires
            rows <= 3,
            cols <= 3,
    ;
    let n = power_of_two(cols * rows);
    let nx: usize = 11 - cols;
    let mut counts: Vec<i32> = vec![0i32; n];
    let mut with_x: Vec<i32> = vec![0i32; n];
    let mut with_y: Vec<i32> = vec![0i32; n];
    let ghost v = board@;
    let ghost c = cols as nat;
    let ghost w = rows as nat;
    let mut y: usize = 0;
    while y < top as usize
        invariant
            2 <= cols <= 3,
            2 <= rows <= 3,
            v == board@,
            c == cols as nat,
            w == rows as nat,
            nx == 11 - cols,
            top <= 64,
            y <= top,
            n as nat == two_to((cols * rows) as nat),
            counts.len() == n,
            with_x.len() == n,
            with_y.len() == n,
            forall|id: int|
                0 <= id < n ==> #[trigger] counts@[id] as int == window_count(v, c, w, id as nat, y as int, 0),
            forall|id: int|
                0 <= id < n ==> #[trigger] with_x@[id] as int == window_xsum(v, c, w, id as nat, y as int, 0),
            forall|id: int|
                0 <= id < n ==> #[trigger] with_y@[id] as int == window_ysum(v, c, w, id as nat, y as int, 0),
            forall|id: int| 0 <= id < n ==> 0 <= #[trigger] counts@[id] <= 9 * y,
            forall|id: int| 0 <= id < n ==> 0 <= #[trigger] with_x@[id] <= 72 * y,
            forall|id: int| 0 <= id < n ==> 0 <= #[trigger] with_y@[id] <= 576 * y,
        decreases top - y,
    {
        let mut x: usize = 0;
        while x < nx
            invariant
                2 <= cols <= 3,
                2 <= rows <= 3,
                v == board@,
                c == cols as nat,
                w == rows as nat,
                nx == 11 - cols,
                y < 64,
                x <= nx,
                n as nat == two_to((cols * rows) as nat),
                counts.len() == n,
                with_x.len() == n,
                with_y.len() == n,
                forall|id: int|
                    0 <= id < n ==> #[trigger] counts@[id] as int == window_count(
                        v,
                        c,
                        w,
                        id as nat,
                        y as int,
                        x as int,
                    ),
                forall|id: int|
                    0 <= id < n ==> #[trigger] with_x@[id] as int == window_xsum(
                        v,
                        c,
                        w,
                        id as nat,
                        y as int,
                        x as int,
                    ),
                forall|id: int|
                    0 <= id < n ==> #[trigger] with_y@[id] as int == window_ysum(
                        v,
                        c,
                        w,
                        id as nat,
                        y as int,
                        x as int,
                    ),
                forall|id: int| 0 <= id < n ==> 0 <= #[trigger] counts@[id] <= 9 * y + x,
                forall|id: int| 0 <= id < n ==> 0 <= #[trigger] with_x@[id] <= 8 * (9 * y + x),
                forall|id: int| 0 <= id < n ==> 0 <= #[trigger] with_y@[id] <= 64 * (9 * y + x),
            decreases nx - x,
        {
            let id = window_id(board, x, y, cols, rows);
            let ghost pc = counts@;
            let ghost px = with_x@;
            let ghost py = with_y@;
            let cnt = counts[id] + 1;
            counts.set(id, cnt);
            let sx = with_x[id] + x as i32;
            with_x.set(id, sx);
            let sy = with_y[id] + y as i32;
            with_y.set(id, sy);
            x = x + 1;
            proof {
                assert forall|i: int| 0 <= i < n implies #[trigger] counts@[i] as int == window_count(
                    v,
                    c,
                    w,
                    i as nat,
                    y as int,
                    x as int,
                ) by {
                    assert(pc[i] as int == window_count(v, c, w, i as nat, y as int, x - 1));
                }
                assert forall|i: int| 0 <= i < n implies #[trigger] with_x@[i] as int == window_xsum(
                    v,
                    c,
                    w,
                    i as nat,
                    y as int,
                    x as int,
                ) by {
                    assert(px[i] as int == window_xsum(v, c, w, i as nat, y as int, x - 1));
                }
                assert forall|i: int| 0 <= i < n implies #[trigger] with_y@[i] as int == window_ysum(
                    v,
                    c,
                    w,
                    i as nat,
                    y as int,
                    x as int,
                ) by {
                    assert(py[i] as int == window_ysum(v, c, w, i as nat, y as int, x - 1));
                }
                assert forall|i: int| 0 <= i < n implies 0 <= #[trigger] counts@[i] <= 9 * y + x by {
                    assert(0 <= pc[i] <= 9 * y + x - 1);
                }
                assert forall|i: int| 0 <= i < n implies 0 <= #[trigger] with_x@[i] <= 8 * (9 * y
                    + x) by {
                    assert(0 <= px[i] <= 8 * (9 * y + x - 1));
                }
                assert forall|i: int| 0 <= i < n implies 0 <= #[trigger] with_y@[i] <= 64 * (9 * y
                    + x) by {
                    assert(0 <= py[i] <= 64 * (9 * y + x - 1));
                }
            }
        }
        y = y + 1;
    }
    Histograms { counts, with_x, with_y }
}

proof fn lemma_empty_max_height(v: Seq<Seq<bool>>, n: int)
    requires
        0 <= n <= 10,
        forall|x: int, y: int| 0 <= x < 10 && 0 <= y < 64 ==> !#[trigger] v[x][y],
    ensures
        max_height_below(v, n) == 0,
    decreases n,
{
    if n > 0 {
        lemma_empty_max_height(v, n - 1);
        lemma_height_is_top(v[n - 1], 64);
        assert forall|y: int| 0 <= y < 64 implies !#[trigger] v[n - 1][y] by {}
    }
}

/// Over an empty board every histogram entry is zero.
pub proof fn lemma_empty_board_histograms(v: Seq<Seq<bool>>, cols: nat, rows: nat, h: Histograms)
    requires
        forall|x: int, y: int| 0 <= x < 10 && 0 <= y < 64 ==> !#[trigger] v[x][y],
        histograms_of(v, cols, rows, h),
    ensures
        forall|id: int| 0 <= id < h.counts.len() ==> #[trigger] h.counts@[id] == 0,
        forall|id: int| 0 <= id < h.with_x.len() ==> #[trigger] h.with_x@[id] == 0,
        forall|id: int| 0 <= id < h.with_y.len() ==> #[trigger] h.with_y@[id] == 0,
{
    lemma_empty_max_height(v, 10);
}

/// Whether the board view `v` is occupied exactly in columns `a..=b` up to
/// height `top`, and empty everywhere else.
pub open spec fn block(v: Seq<Seq<bool>>, a: int, b: int, top: int) -> bool {
    &&& v.len() == 10
    &&& forall|x: int| 0 <= x < 10 ==> #[trigger] v[x].len() == 64
    &&& forall|x: int, y: int|
        0 <= x < 10 && 0 <= y < 64 ==> #[trigger] v[x][y] == (a <= x <= b && y < top)
}

proof fn lemma_block_heights(v: Seq<Seq<bool>>, a: int, b: int, top: int, n: int)
    requires
        0 <= a <= b < 10,
        0 <= top <= 64,
        0 <= n <= 10,
        block(v, a, b, top),
    ensures
        max_height_below(v, n) == if n > a {
            top
        } else {
            0
        },
    decreases n,
{
    if n > 0 {
        lemma_block_heights(v, a, b, top, n - 1);
        let x = n - 1;
        if a <= x <= b {
            lemma_height_below_block(v[x], top, 64);
        } else {
            lemma_height_is_top(v[x], 64);
            assert forall|y: int| 0 <= y < 64 implies !#[trigger] v[x][y] by {}
        }
    }
}

proof fn lemma_height_below_block(col: Seq<bool>, top: int, n: int)
    requires
        0 <= top <= n <= 64,
        col.len() == 64,
        forall|y: int| 0 <= y < 64 ==> #[trigger] col[y] == (y < top),
    ensures
        height_below(col, n) == top,
    decreases n,
{
    if n > top {
        lemma_height_below_block(col, top, n - 1);
    } else if n > 0 {
        assert(col[n - 1]);
    }
}

proof fn lemma_block_slice(v: Seq<Seq<bool>>, a: int, b: int, top: int, x: int, y: int)
    requires
        0 <= top <= 64,
        block(v, a, b, top),
        0 <= x < 10,
        0 <= y,
    ensures
        slice(v, x, y, 3) <= 7,
        (slice(v, x, y, 3) == 7) == (a <= x <= b && y + 2 < top),
{
    assert(filled(v, x, y) == (a <= x <= b && y < top));
    assert(filled(v, x, y + 1) == (a <= x <= b && y + 1 < top));
    assert(filled(v, x, y + 2) == (a <= x <= b && y + 2 < top));
    assert(slice(v, x, y + 3, 0) == 0);
    assert(slice(v, x, y + 2, 1) <= 1);
    assert(slice(v, x, y + 1, 2) <= 3);
}

proof fn lemma_block_pattern(v: Seq<Seq<bool>>, a: int, b: int, top: int, x: int, y: int)
    requires
        0 <= top <= 64,
        block(v, a, b, top),
        0 <= x <= 7,
        0 <= y,
    ensures
        (pattern_id(v, x, y, 3, 3) == 511) == (a <= x && x + 2 <= b && y + 2 < top),
{
    lemma_block_slice(v, a, b, top, x, y);
    lemma_block_slice(v, a, b, top, x + 1, y);
    lemma_block_slice(v, a, b, top, x + 2, y);
    let s0 = slice(v, x, y, 3);
    let s1 = slice(v, x + 1, y, 3);
    let s2 = slice(v, x + 2, y, 3);
    assert(two_to(0) == 1);
    assert(two_to(1) == 2);
    assert(two_to(2) == 4);
    assert(two_to(3) == 8);
    assert(pattern_id(v, x + 3, y, 0, 3) == 0);
    assert(pattern_id(v, x + 2, y, 1, 3) == s2);
    assert(pattern_id(v, x + 1, y, 2, 3) == s1 + 8 * s2);
    assert(pattern_id(v, x, y, 3, 3) == s0 + 8 * (s1 + 8 * s2));
}

/// Number of window offsets `x' < x` at which a three-column window lies inside columns `a..=b`.
pub open spec fn offsets_inside(a: int, b: int, x: int) -> int {
    let hi = if x < b - 1 {
        x
    } else {
        b - 1
    };
    if hi > a {
        hi - a
    } else {
        0
    }
}

proof fn lemma_block_count(v: Seq<Seq<bool>>, a: int, b: int, top: int, y: int, x: int)
    requires
        0 <= a,
        a + 2 <= b < 10,
        2 <= top <= 64,
        block(v, a, b, top),
        0 <= y <= top,
        0 <= x <= 8,
    ensures
        window_count(v, 3, 3, 511, y, x) == (b - a - 1) * (if y < top - 2 {
            y
        } else {
            top - 2
        }) + if y < top - 2 {
            offsets_inside(a, b, x)
        } else {
            0
        },
    decreases y, x,
{
    let k = b - a - 1;
    if x > 0 {
        lemma_block_count(v, a, b, top, y, x - 1);
        lemma_block_pattern(v, a, b, top, x - 1, y);
    } else if y > 0 {
        lemma_block_count(v, a, b, top, y - 1, 8);
        let m = if y - 1 < top - 2 {
            y - 1
        } else {
            top - 2
        };
        assert(k * m + k == k * (m + 1)) by (nonlinear_arith);
        assert(offsets_inside(a, b, 8) == k);
        assert(offsets_inside(a, b, 0) == 0);
    } else {
        assert(k * 0 == 0) by (nonlinear_arith);
        assert(offsets_inside(a, b, 0) == 0);
    }
}

/// Over a board occupied exactly in columns `a..=b` up to height `top` and
/// empty elsewhere, the fully occupied three-by-three pattern occurs once for
/// each of the `b - a - 1` horizontal and `top - 2` vertical window positions
/// that lie inside the block.
pub proof fn lemma_full_block_count(v: Seq<Seq<bool>>, a: int, b: int, top: int, h: Histograms)
    requires
        0 <= a,
        a + 2 <= b < 10,
        2 <= top <= 64,
        block(v, a, b, top),
        histograms_of(v, 3, 3, h),
    ensures
        h.counts@[511] == (b - a - 1) * (top - 2),
{
    lemma_block_heights(v, a, b, top, 10);
    lemma_two_to_nine();
    assert(3 * 3 == 9nat);
    lemma_block_count(v, a, b, top, top, 0);
}

} // verus!
