//! The playing field: ten columns of 64 cells, each column a bit mask in
//! which bit `y` is set when the cell at row `y` is occupied (row 0 is the
//! floor).

use vstd::prelude::*;

verus! {

/// Whether row `y` of the column mask `c` is occupied.
pub open spec fn cell(c: u64, y: int) -> bool {
    0 <= y < 64 && ((c >> (y as u64)) & 1u64) == 1u64
}

/// A column mask as its 64 cells, floor first.
pub open spec fn column_view(c: u64) -> Seq<bool> {
    Seq::new(64, |y: int| cell(c, y))
}

/// Whether the cell at (x, y) of a board view is occupied; off-board cells are empty.
pub open spec fn filled(v: Seq<Seq<bool>>, x: int, y: int) -> bool {
    0 <= x < 10 && 0 <= y < 64 && v[x][y]
}

/// Height of a column: one more than the highest occupied row below `n`,
/// or 0 when no row below `n` is occupied.
pub open spec fn height_below(col: Seq<bool>, n: int) -> nat
    decreases n,
{
    if n <= 0 {
        0
    } else if col[n - 1] {
        n as nat
    } else {
        height_below(col, n - 1)
    }
}

/// Height of a 64-cell column.
pub open spec fn col_height(col: Seq<bool>) -> nat {
    height_below(col, 64)
}

/// The height of a column is one more than its highest occupied row, and
/// 0 exactly when no row is occupied.
pub proof fn lemma_height_is_top(col: Seq<bool>, n: int)
    requires
        0 <= n,
    ensures
        height_below(col, n) <= n,
        forall|y: int| 0 <= y < n && col[y] ==> y < height_below(col, n),
        forall|y: int| height_below(col, n) <= y < n ==> !col[y],
        height_below(col, n) > 0 ==> col[height_below(col, n) - 1],
        height_below(col, n) == 0 <==> (forall|y: int| 0 <= y < n ==> !col[y]),
    decreases n,
{
    if n > 0 {
        lemma_height_is_top(col, n - 1);
    }
}

/// The height of a column mask is one more than the index of its highest
/// set bit, or 0 when no bit is set.
pub proof fn lemma_column_height_is_top_bit(c: u64)
    ensures
        col_height(column_view(c)) <= 64,
        col_height(column_view(c)) == 0 <==> (forall|y: int| 0 <= y < 64 ==> !#[trigger] cell(c, y)),
        col_height(column_view(c)) > 0 ==> cell(c, col_height(column_view(c)) - 1),
        forall|y: int| col_height(column_view(c)) <= y < 64 ==> !#[trigger] cell(c, y),
{
    let col = column_view(c);
    lemma_height_is_top(col, 64);
    assert forall|y: int| 0 <= y < 64 implies col[y] == cell(c, y) by {}
}

/// Number of true entries among the first `n` of `s`.
pub open spec fn count_true(s: Seq<bool>, n: int) -> nat
    decreases n,
{
    if n <= 0 {
        0
    } else {
        count_true(s, n - 1) + if s[n - 1] { 1nat } else { 0nat }
    }
}

/// Whether `heights` lists the height of every column of the board view `v`.
pub open spec fn heights_of(v: Seq<Seq<bool>>, heights: Seq<u32>) -> bool {
    &&& heights.len() == 10
    &&& forall|x: int| 0 <= x < 10 ==> #[trigger] heights[x] as int == col_height(v[x])
}

/// Every height of a board is at most 64.
pub proof fn lemma_heights_bounded(v: Seq<Seq<bool>>, heights: Seq<u32>)
    requires
        heights_of(v, heights),
    ensures
        forall|x: int| 0 <= x < 10 ==> #[trigger] heights[x] <= 64,
{
    assert forall|x: int| 0 <= x < 10 implies #[trigger] heights[x] <= 64 by {
        lemma_height_is_top(v[x], 64);
    }
}

/// Kinds of pieces, in the order used for per-kind feature arrays.
#[derive(Clone, Copy, Debug, PartialEq, Eq, Structural)]
pub enum Piece {
    I,
    J,
    L,
    O,
    S,
    T,
    Z,
}

/// Position of a piece kind in per-kind feature arrays.
pub open spec fn piece_index(p: Piece) -> nat {
    match p {
        Piece::I => 0,
        Piece::J => 1,
        Piece::L => 2,
        Piece::O => 3,
        Piece::S => 4,
        Piece::T => 5,
        Piece::Z => 6,
    }
}

impl Piece {
    /// Position of this kind in per-kind feature arrays.
    pub fn index(&self) -> (r: usize)
        ensures
            r as nat == piece_index(*self),
            r < 7,
    {
        match self {
            Piece::I => 0,
            Piece::J => 1,
            Piece::L => 2,
            Piece::O => 3,
            Piece::S => 4,
            Piece::T => 5,
            Piece::Z => 6,
        }
    }
}

/// Orientations of a piece.
#[derive(Clone, Copy, Debug, PartialEq, Eq, Structural)]
pub enum Rotation {
    North,
    East,
    South,
    West,
}

/// A T piece placed with its centre cell at (x, y) in the given orientation.
#[derive(Clone, Copy, Debug, PartialEq, Eq, Structural)]
pub struct TPlacement {
    pub x: i8,
    pub y: i8,
    pub r: Rotation,
}

/// Whether the T piece of `m` covers the cell (x, y): the centre, its two
/// arms across the orientation and the nose that points along it.
pub open spec fn t_covers(m: TPlacement, x: int, y: int) -> bool {
    let cx = m.x as int;
    let cy = m.y as int;
    match m.r {
        Rotation::North => (y == cy && cx - 1 <= x <= cx + 1) || (x == cx && y == cy + 1),
        Rotation::South => (y == cy && cx - 1 <= x <= cx + 1) || (x == cx && y == cy - 1),
        Rotation::East => (x == cx && cy - 1 <= y <= cy + 1) || (y == cy && x == cx + 1),
        Rotation::West => (x == cx && cy - 1 <= y <= cy + 1) || (y == cy && x == cx - 1),
    }
}

/// Whether every cell of the T piece of `m` lies on the board.
pub open spec fn t_on_board(m: TPlacement) -> bool {
    let x = m.x as int;
    let y = m.y as int;
    match m.r {
        Rotation::North => 1 <= x <= 8 && 0 <= y <= 62,
        Rotation::South => 1 <= x <= 8 && 1 <= y <= 63,
        Rotation::East => 0 <= x <= 8 && 1 <= y <= 62,
        Rotation::West => 1 <= x <= 9 && 1 <= y <= 62,
    }
}

/// A board view with the cells of the T piece of `m` occupied.
pub open spec fn placed(v: Seq<Seq<bool>>, m: TPlacement) -> Seq<Seq<bool>> {
    Seq::new(10, |x: int| Seq::new(64, |y: int| v[x][y] || t_covers(m, x, y)))
}

/// Whether every column of row `y` is occupied.
pub open spec fn full_row(v: Seq<Seq<bool>>, y: int) -> bool {
    forall|x: int| 0 <= x < 10 ==> #[trigger] v[x][y]
}

/// Number of full rows below row `n`.
pub open spec fn full_rows_below(v: Seq<Seq<bool>>, n: int) -> nat
    decreases n,
{
    if n <= 0 {
        0
    } else {
        full_rows_below(v, n - 1) + if full_row(v, n - 1) { 1nat } else { 0nat }
    }
}

/// The cells of column `x` below row `n` that lie in rows that are not full, floor first.
pub open spec fn kept_cells(v: Seq<Seq<bool>>, x: int, n: int) -> Seq<bool>
    decreases n,
{
    if n <= 0 {
        Seq::empty()
    } else if full_row(v, n - 1) {
        kept_cells(v, x, n - 1)
    } else {
        kept_cells(v, x, n - 1).push(v[x][n - 1])
    }
}

/// A board view after every full row has been removed and the rows above
/// have dropped into their place.
pub open spec fn cleared(v: Seq<Seq<bool>>) -> Seq<Seq<bool>> {
    Seq::new(
        10,
        |x: int|
            Seq::new(
                64,
                |y: int| y < kept_cells(v, x, 64).len() && kept_cells(v, x, 64)[y],
            ),
    )
}

#[derive(Clone, Copy, Debug, PartialEq, Eq)]
pub struct Board {
    pub cols: [u64; 10],
}

impl View for Board {
    type V = Seq<Seq<bool>>;

    open spec fn view(&self) -> Seq<Seq<bool>> {
        Seq::new(10, |x: int| column_view(self.cols[x]))
    }
}

proof fn lemma_bit_set(c: u64, k: u64, j: u64)
    by (bit_vector)
    requires
        k < 64,
        j < 64,
    ensures
        (((c | (1u64 << k)) >> j) & 1u64 == 1u64) == (((c >> j) & 1u64 == 1u64) || j == k),
{
}

proof fn lemma_no_bits(j: u64)
    by (bit_vector)
    requires
        j < 64,
    ensures
        ((0u64 >> j) & 1u64) != 1u64,
{
}

impl Board {
    /// An empty board.
    pub fn new() -> (r: Board)
        ensures
            forall|x: int, y: int| 0 <= x < 10 && 0 <= y < 64 ==> !#[trigger] r@[x][y],
    {
        let r = Board { cols: [0u64; 10] };
        assert forall|x: int, y: int| 0 <= x < 10 && 0 <= y < 64 implies !#[trigger] r@[x][y] by {
            lemma_no_bits(y as u64);
        }
        r
    }

    /// Whether the cell at column `x`, row `y` is occupied.
    pub fn filled(&self, x: usize, y: usize) -> (r: bool)
        requires
            x < 10,
        ensures
            r == filled(self@, x as int, y as int),
    {
        if y < 64 {
            (self.cols[x] >> (y as u64)) & 1u64 == 1u64
        } else {
            false
        }
    }

    /// Marks the cell at column `x`, row `y` as occupied.
    pub fn set(&mut self, x: usize, y: usize)
        requires
            x < 10,
            y < 64,
        ensures
            final(self)@ == old(self)@.update(x as int, old(self)@[x as int].update(y as int, true)),
    {
        let c = self.cols[x] | (1u64 << (y as u64));
        self.cols[x] = c;
        proof {
            let want = old(self)@.update(x as int, old(self)@[x as int].update(y as int, true));
            assert forall|j: int| 0 <= j < 64 implies #[trigger] column_view(c)[j] == want[x as int][j] by {
                lemma_bit_set(old(self).cols[x as int], y as u64, j as u64);
            }
            assert(column_view(c) =~= want[x as int]);
            assert(self@ =~= want);
        }
    }

    /// Whether every column of row `y` is occupied.
    pub fn row_full(&self, y: usize) -> (r: bool)
        requires
            y < 64,
        ensures
            r == full_row(self@, y as int),
    {
        let mut x: usize = 0;
        while x < 10
            invariant
                x <= 10,
                y < 64,
                forall|i: int| 0 <= i < x ==> #[trigger] self@[i][y as int],
            decreases 10 - x,
        {
            if !self.filled(x, y) {
                return false;
            }
            x = x + 1;
        }
        true
    }

    /// Occupies the four cells of the T piece of `m`.
    pub fn place_t(&mut self, m: TPlacement)
        requires
            t_on_board(m),
        ensures
            final(self)@ == placed(old(self)@, m),
    {
        let x = m.x as usize;
        let y = m.y as usize;
        match m.r {
            Rotation::North => {
                self.set(x - 1, y);
                self.set(x, y);
                self.set(x + 1, y);
                self.set(x, y + 1);
            },
            Rotation::South => {
                self.set(x - 1, y);
                self.set(x, y);
                self.set(x + 1, y);
                self.set(x, y - 1);
            },
            Rotation::East => {
                self.set(x, y - 1);
                self.set(x, y);
                self.set(x, y + 1);
                self.set(x + 1, y);
            },
            Rotation::West => {
                self.set(x, y - 1);
                self.set(x, y);
                self.set(x, y + 1);
                self.set(x - 1, y);
            },
        }
        proof {
            let want = placed(old(self)@, m);
            assert forall|i: int| 0 <= i < 10 implies #[trigger] self@[i] =~= want[i] by {}
            assert(self@ =~= want);
        }
    }

    /// Removes every full row, dropping the rows above into place, and
    /// returns how many rows were removed.
    pub fn clear_lines(&mut self) -> (n: u32)
        ensures
            final(self)@ == cleared(old(self)@),
            n as int == full_rows_below(old(self)@, 64),
    {
        let orig = *self;
        let mut cols = [0u64; 10];
        let mut x: usize = 0;
        while x < 10
            invariant
                x <= 10,
                forall|i: int| 0 <= i < x ==> #[trigger] column_view(cols[i]) == cleared(orig@)[i],
            decreases 10 - x,
        {
            let c = orig.compact_column(x);
            cols[x] = c;
            x = x + 1;
        }
        let mut n: u32 = 0;
        let mut y: usize = 0;
        while y < 64
            invariant
                y <= 64,
                n as int == full_rows_below(orig@, y as int),
                n <= y,
            decreases 64 - y,
        {
            if orig.row_full(y) {
                n = n + 1;
            }
            y = y + 1;
        }
        self.cols = cols;
        assert(self@ =~= cleared(orig@));
        n
    }

    /// Column `x` with its cells in full rows removed and the rest moved down.
    fn compact_column(&self, x: usize) -> (c: u64)
        requires
            x < 10,
        ensures
            column_view(c) == cleared(self@)[x as int],
    {
        let mut c: u64 = 0;
        let mut k: u64 = 0;
        let mut y: usize = 0;
        proof {
            assert forall|j: int| 0 <= j < 64 implies !#[trigger] cell(c, j) by {
                lemma_no_bits(j as u64);
            }
        }
        while y < 64
            invariant
                x < 10,
                y <= 64,
                k as int == kept_cells(self@, x as int, y as int).len(),
                k <= y,
                forall|j: int|
                    0 <= j < 64 ==> #[trigger] cell(c, j) == (j < k && kept_cells(
                        self@,
                        x as int,
                        y as int,
                    )[j]),
            decreases 64 - y,
        {
            if !self.row_full(y) {
                let ghost c0 = c;
                if self.filled(x, y) {
                    c = c | (1u64 << k);
                    proof {
                        assert forall|j: int| 0 <= j < 64 implies #[trigger] cell(c, j) == (cell(
                            c0,
                            j,
                        ) || j == k) by {
                            lemma_bit_set(c0, k, j as u64);
                        }
                    }
                }
                k = k + 1;
            }
            y = y + 1;
        }
        proof {
            assert(column_view(c) =~= cleared(self@)[x as int]);
        }
        c
    }

    /// The height of each column.
    pub fn heights(&self) -> (r: [u32; 10])
        ensures
            heights_of(self@, r@),
            forall|x: int| 0 <= x < 10 ==> #[trigger] r[x] as int == col_height(self@[x]),
            forall|x: int| 0 <= x < 10 ==> #[trigger] r[x] <= 64,
    {
        let mut r = [0u32; 10];
        for x in 0..10
            invariant
                forall|i: int| 0 <= i < x ==> #[trigger] r[i] as int == col_height(self@[i]),
                forall|i: int| 0 <= i < x ==> #[trigger] r[i] <= 64,
        {
            let h = self.column_height(x);
            r[x] = h;
        }
        r
    }

    /// The height of column `x`.
    pub fn column_height(&self, x: usize) -> (r: u32)
        requires
            x < 10,
        ensures
            r as int == col_height(self@[x as int]),
            r <= 64,
    {
        let mut h: u32 = 0;
        for y in 0..64
            invariant
                x < 10,
                h as int == height_below(self@[x as int], y as int),
                h <= y,
        {
            if self.filled(x, y) {
                h = (y + 1) as u32;
            }
        }
        h
    }
}

} // verus!
