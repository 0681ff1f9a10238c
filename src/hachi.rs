//! Per-column profile features, queue features and shape-pattern histograms.

use vstd::prelude::*;
use crate::board::{
    Board, Piece, col_height, count_true, filled, heights_of, lemma_height_is_top, piece_index,
};
use crate::game::GameState;
use crate::patterns::{Histograms, histograms_of, window_histogram};

verus! {

/// Length of the run of occupied cells that starts at the floor, from row `y` upwards.
pub open spec fn run_from(col: Seq<bool>, y: int) -> nat
    decreases 64 - y,
{
    if y < 0 || y >= 64 || !col[y] {
        0
    } else {
        1 + run_from(col, y + 1)
    }
}

/// Depth of the first hole of a column: the length of the run of occupied
/// cells from the floor up, or 0 when that run reaches the column's top.
pub open spec fn first_hole_depth(col: Seq<bool>) -> int {
    if run_from(col, 0) == col_height(col) {
        0
    } else {
        run_from(col, 0) as int
    }
}

/// The occupied cells of row `y`, one per column.
pub open spec fn row_cells(v: Seq<Seq<bool>>, y: int) -> Seq<bool> {
    Seq::new(10, |x: int| v[x][y])
}

/// The rightmost empty column of row `y` among the first `n`, or -1.
pub open spec fn last_empty(v: Seq<Seq<bool>>, y: int, n: int) -> int
    decreases n,
{
    if n <= 0 {
        -1
    } else if !v[n - 1][y] {
        n - 1
    } else {
        last_empty(v, y, n - 1)
    }
}

/// The garbage hole of row `y`: the empty column when exactly nine columns
/// are occupied, or -1.
pub open spec fn garbage_hole(v: Seq<Seq<bool>>, y: int) -> int {
    if count_true(row_cells(v, y), 10) == 9 {
        last_empty(v, y, 10)
    } else {
        -1
    }
}

/// Heights of the columns, unchanged.
fn get_heights(board: &Board) -> (r: [u32; 10])
    ensures
        heights_of(board@, r@),
{
    board.heights()
}

/// Height differences between neighbouring columns, right minus left.
fn get_height_differences(board: &Board) -> (r: [i32; 9])
    ensures
        forall|x: int|
            0 <= x < 9 ==> #[trigger] r[x] as int == col_height(board@[x + 1]) - col_height(
                board@[x],
            ),
{
    let heights = board.heights();
    let mut diffs = [0i32; 9];
    for x in 0..9
        invariant
            forall|i: int| 0 <= i < 10 ==> #[trigger] heights[i] as int == col_height(board@[i]),
            forall|i: int| 0 <= i < 10 ==> #[trigger] heights[i] <= 64,
            forall|i: int|
                0 <= i < x ==> #[trigger] diffs[i] as int == col_height(board@[i + 1])
                    - col_height(board@[i]),
    {
        diffs[x] = heights[x + 1] as i32 - heights[x] as i32;
    }
    diffs
}

/// Depth of the first hole of column `x`.
fn column_first_hole_depth(board: &Board, x: usize) -> (r: i32)
    requires
        x < 10,
    ensures
        r as int == first_hole_depth(board@[x as int]),
{
    let ghost col = board@[x as int];
    let mut run: usize = 0;
    while run < 64 && board.filled(x, run)
        invariant
            x < 10,
            col == board@[x as int],
            run <= 64,
            run_from(col, 0) == run + run_from(col, run as int),
        decreases 64 - run,
    {
        run = run + 1;
    }
    let height = board.column_height(x);
    if run as u32 == height {
        0
    } else {
        run as i32
    }
}

/// Depth of the first hole of every column.
fn get_first_hole_depths(board: &Board) -> (r: [i32; 10])
    ensures
        forall|x: int| 0 <= x < 10 ==> #[trigger] r[x] as int == first_hole_depth(board@[x]),
{
    let mut depths = [0i32; 10];
    for x in 0..10
        invariant
            forall|i: int| 0 <= i < x ==> #[trigger] depths[i] as int == first_hole_depth(board@[i]),
    {
        depths[x] = column_first_hole_depth(board, x);
    }
    depths
}

/// A column has a first-hole depth of 0 exactly when no empty cell lies
/// below its top, for every column whose floor cell is occupied or which is empty.
pub proof fn lemma_first_hole_depth_zero(col: Seq<bool>)
    requires
        col.len() == 64,
        col[0] || (forall|y: int| 0 <= y < 64 ==> !col[y]),
    ensures
        first_hole_depth(col) == 0 <==> (forall|y: int|
            0 <= y < col_height(col) ==> #[trigger] col[y]),
{
    lemma_height_is_top(col, 64);
    lemma_run_from(col, 0);
    let top = col_height(col) as int;
    let run = run_from(col, 0) as int;
    if run == top {
        assert forall|y: int| 0 <= y < top implies #[trigger] col[y] by {}
    } else {
        if run < top {
            assert(!col[run]);
        } else {
            assert(col[top - 1] || top == 0);
            if top > 0 {
                assert(run > top);
                assert(col[top]);
            }
        }
    }
}

/// The run from row `y` covers every row it spans and stops at an empty
/// cell or the top of the board.
proof fn lemma_run_from(col: Seq<bool>, y: int)
    requires
        0 <= y <= 64,
    ensures
        y + run_from(col, y) <= 64,
        forall|j: int| y <= j < y + run_from(col, y) ==> col[j],
        y + run_from(col, y) < 64 ==> !col[y + run_from(col, y)],
    decreases 64 - y,
{
    if y < 64 && col[y] {
        lemma_run_from(col, y + 1);
    }
}

proof fn lemma_last_empty(v: Seq<Seq<bool>>, y: int, n: int)
    requires
        0 <= n <= 10,
    ensures
        count_true(row_cells(v, y), n) <= n,
        count_true(row_cells(v, y), n) == n ==> forall|x: int| 0 <= x < n ==> #[trigger] v[x][y],
        count_true(row_cells(v, y), n) == n - 1 ==> {
            let e = last_empty(v, y, n);
            &&& 0 <= e < n
            &&& !v[e][y]
            &&& forall|x: int| 0 <= x < n && x != e ==> #[trigger] v[x][y]
        },
    decreases n,
{
    if n > 0 {
        lemma_last_empty(v, y, n - 1);
    }
}

/// When exactly nine columns of a row are occupied, the garbage hole is the
/// one column that is not; otherwise it is -1.
pub proof fn lemma_garbage_hole_unique(v: Seq<Seq<bool>>, y: int)
    ensures
        count_true(row_cells(v, y), 10) != 9 ==> garbage_hole(v, y) == -1,
        count_true(row_cells(v, y), 10) == 9 ==> {
            let e = garbage_hole(v, y);
            &&& 0 <= e < 10
            &&& !v[e][y]
            &&& forall|x: int| 0 <= x < 10 && x != e ==> #[trigger] v[x][y]
        },
{
    lemma_last_empty(v, y, 10);
}

/// For each of the bottom rows, the column of its garbage hole, or -1.
pub fn get_garbage_hole_sequence(board: &Board) -> (r: [i32; 20])
    ensures
        forall|y: int| 0 <= y < 20 ==> #[trigger] r[y] as int == garbage_hole(board@, y),
        forall|y: int|
            0 <= y < 20 && count_true(row_cells(board@, y), 10) != 9 ==> #[trigger] r[y] == -1,
        forall|y: int|
            0 <= y < 20 && count_true(row_cells(board@, y), 10) == 9 ==> {
                let u = #[trigger] r[y] as int;
                &&& 0 <= u < 10
                &&& !board@[u][y]
                &&& forall|x: int| 0 <= x < 10 && x != u ==> #[trigger] board@[x][y]
            },
{
    let mut locations = [-1i32; 20];
    for y in 0..20
        invariant
            forall|j: int| 0 <= j < y ==> #[trigger] locations[j] as int == garbage_hole(board@, j),
    {
        let ghost row = row_cells(board@, y as int);
        let mut sum: u32 = 0;
        let mut hole: i32 = -1;
        for x in 0..10
            invariant
                y < 20,
                row == row_cells(board@, y as int),
                sum as int == count_true(row, x as int),
                sum <= x,
                hole as int == last_empty(board@, y as int, x as int),
        {
            if board.filled(x, y) {
                sum = sum + 1;
            } else {
                hole = x as i32;
            }
        }
        locations[y] = if sum == 9 {
            hole
        } else {
            -1
        };
    }
    proof {
        assert forall|y: int| 0 <= y < 20 implies #[trigger] locations[y] as int == garbage_hole(
            board@,
            y,
        ) && (count_true(row_cells(board@, y), 10) != 9 ==> locations[y] == -1) && (count_true(
            row_cells(board@, y),
            10,
        ) == 9 ==> {
            let u = locations[y] as int;
            &&& 0 <= u < 10
            &&& !board@[u][y]
            &&& forall|x: int| 0 <= x < 10 && x != u ==> #[trigger] board@[x][y]
        }) by {
            lemma_garbage_hole_unique(board@, y);
        }
    }
    locations
}

/// Index of the first occurrence of `p` in `q` at or after `i`, or the
/// length of `q` when there is none.
pub open spec fn first_index_from(q: Seq<Piece>, p: Piece, i: int) -> int
    decreases q.len() - i,
{
    if i < 0 || i >= q.len() {
        q.len() as int
    } else if q[i] == p {
        i
    } else {
        first_index_from(q, p, i + 1)
    }
}

/// Number of occurrences of `p` among the first `n` entries of `q`.
pub open spec fn occurrences(q: Seq<Piece>, p: Piece, n: int) -> nat
    decreases n,
{
    if n <= 0 {
        0
    } else {
        occurrences(q, p, n - 1) + if q[n - 1] == p { 1nat } else { 0nat }
    }
}

proof fn lemma_piece_index_injective(p: Piece, q: Piece)
    ensures
        piece_index(p) == piece_index(q) ==> p == q,
        piece_index(p) < 7,
{
}

/// For each piece kind, how many pieces of the queue come before the first
/// one of that kind, or the queue length when it is absent.
fn get_distance_to_next_piece(gamestate: &GameState) -> (r: [i32; 7])
    ensures
        forall|p: Piece|
            #[trigger] r[piece_index(p) as int] as int == first_index_from(
                gamestate.queue@,
                p,
                0,
            ),
{
    let queue = gamestate.queue;
    let mut distances = [5i32; 7];
    let mut i: usize = 5;
    proof {
        assert forall|p: Piece| #[trigger]
            distances[piece_index(p) as int] as int == first_index_from(queue@, p, 5) by {
            lemma_piece_index_injective(p, p);
        }
    }
    while i > 0
        invariant
            i <= 5,
            queue == gamestate.queue,
            forall|p: Piece|
                #[trigger] distances[piece_index(p) as int] as int == first_index_from(
                    queue@,
                    p,
                    i as int,
                ),
        decreases i,
    {
        i = i - 1;
        let k = queue[i].index();
        let ghost before = distances;
        distances[k] = i as i32;
        proof {
            assert forall|p: Piece| #[trigger]
                distances[piece_index(p) as int] as int == first_index_from(
                    queue@,
                    p,
                    i as int,
                ) by {
                lemma_piece_index_injective(p, queue[i as int]);
                assert(before[piece_index(p) as int] as int == first_index_from(
                    queue@,
                    p,
                    i + 1,
                ));
            }
        }
    }
    distances
}

/// For each piece kind, how many pieces of the queue are of that kind.
fn get_count_of_pieces(gamestate: &GameState) -> (r: [i32; 7])
    ensures
        forall|p: Piece|
            #[trigger] r[piece_index(p) as int] as int == occurrences(gamestate.queue@, p, 5),
{
    let queue = gamestate.queue;
    let mut counts = [0i32; 7];
    proof {
        assert forall|p: Piece| #[trigger] counts[piece_index(p) as int] as int == occurrences(
            queue@,
            p,
            0,
        ) by {
            lemma_piece_index_injective(p, p);
        }
    }
    for i in 0..5
        invariant
            queue == gamestate.queue,
            forall|p: Piece|
                #[trigger] counts[piece_index(p) as int] as int == occurrences(
                    queue@,
                    p,
                    i as int,
                ),
            forall|k: int| 0 <= k < 7 ==> 0 <= #[trigger] counts[k] <= i,
    {
        let k = queue[i].index();
        let ghost before = counts;
        counts[k] = counts[k] + 1;
        proof {
            assert forall|p: Piece| #[trigger]
                counts[piece_index(p) as int] as int == occurrences(queue@, p, i + 1) by {
                lemma_piece_index_injective(p, queue[i as int]);
                assert(before[piece_index(p) as int] as int == occurrences(queue@, p, i as int));
            }
        }
    }
    counts
}

/// Whether `o` holds the piece kind `p`, as 0 or 1.
pub open spec fn holds(o: Option<Piece>, p: Piece) -> int {
    if o == Some(p) {
        1
    } else {
        0
    }
}

/// One-hot of the held and the current piece: both set, or a 2 where they
/// are the same kind.
fn get_hold_or_current_piece(gamestate: &GameState) -> (r: [i32; 7])
    ensures
        forall|p: Piece|
            #[trigger] r[piece_index(p) as int] as int == holds(gamestate.hold, p) + holds(
                Some(gamestate.current_piece),
                p,
            ),
{
    let mut onehot = [0i32; 7];
    match gamestate.hold {
        Some(value) => {
            onehot[value.index()] = 1;
        },
        None => {},
    }
    let k = gamestate.current_piece.index();
    onehot[k] = onehot[k] + 1;
    proof {
        assert forall|p: Piece| #[trigger]
            onehot[piece_index(p) as int] as int == holds(gamestate.hold, p) + holds(
                Some(gamestate.current_piece),
                p,
            ) by {
            lemma_piece_index_injective(p, gamestate.current_piece);
            if let Some(hp) = gamestate.hold {
                lemma_piece_index_injective(p, hp);
            }
        }
    }
    onehot
}

/// One-hot of the next piece in the queue.
fn get_next_piece(gamestate: &GameState) -> (r: [i32; 7])
    ensures
        forall|p: Piece|
            #[trigger] r[piece_index(p) as int] as int == holds(Some(gamestate.queue[0]), p),
{
    let mut onehot = [0i32; 7];
    onehot[gamestate.queue[0].index()] = 1;
    proof {
        assert forall|p: Piece| #[trigger]
            onehot[piece_index(p) as int] as int == holds(Some(gamestate.queue[0]), p) by {
            lemma_piece_index_injective(p, gamestate.queue[0]);
        }
    }
    onehot
}

/// Profile, queue and pattern features of one player's position.
pub struct HachiFeatures {
    pub heights: [u32; 10],
    pub height_differences: [i32; 9],
    pub first_hole_depths: [i32; 10],
    pub garbage_holes: [i32; 20],
    pub piece_distance: [i32; 7],
    pub piece_counts: [i32; 7],
    pub hold_or_current_onehot: [i32; 7],
    pub next_onehot: [i32; 7],
    /// Windows of three columns by three rows.
    pub all_3x3s: Histograms,
    /// Windows of two columns by two rows.
    pub all_2x2s: Histograms,
    /// Windows of two columns by three rows.
    pub all_2x3s: Histograms,
    /// Windows of three columns by two rows.
    pub all_3x2s: Histograms,
    pub meter: i32,
    pub combo: i32,
    pub b2b: i32,
}

/// Whether `f` holds the profile, queue and pattern features of the position `g`.
pub open spec fn hachi_features_of(g: GameState, f: HachiFeatures) -> bool {
    let v = g.board@;
    &&& heights_of(v, f.heights@)
    &&& forall|x: int|
        0 <= x < 9 ==> #[trigger] f.height_differences[x] as int == col_height(v[x + 1])
            - col_height(v[x])
    &&& forall|x: int|
        0 <= x < 10 ==> #[trigger] f.first_hole_depths[x] as int == first_hole_depth(v[x])
    &&& forall|y: int| 0 <= y < 20 ==> #[trigger] f.garbage_holes[y] as int == garbage_hole(v, y)
    &&& forall|p: Piece|
        #[trigger] f.piece_distance[piece_index(p) as int] as int == first_index_from(
            g.queue@,
            p,
            0,
        )
    &&& forall|p: Piece|
        #[trigger] f.piece_counts[piece_index(p) as int] as int == occurrences(g.queue@, p, 5)
    &&& forall|p: Piece|
        #[trigger] f.hold_or_current_onehot[piece_index(p) as int] as int == holds(g.hold, p)
            + holds(Some(g.current_piece), p)
    &&& forall|p: Piece|
        #[trigger] f.next_onehot[piece_index(p) as int] as int == holds(Some(g.queue[0]), p)
    &&& histograms_of(v, 3, 3, f.all_3x3s)
    &&& histograms_of(v, 2, 2, f.all_2x2s)
    &&& histograms_of(v, 2, 3, f.all_2x3s)
    &&& histograms_of(v, 3, 2, f.all_3x2s)
    &&& f.meter == g.meter as i32
    &&& f.combo == g.combo as i32
    &&& f.b2b == g.b2b as i32
}

/// Profile, queue and pattern features of one player's position.
pub fn get_hachi_features(gamestate: &GameState) -> (r: HachiFeatures)
    ensures
        hachi_features_of(*gamestate, r),
{
    let board = gamestate.board;
    HachiFeatures {
        heights: get_heights(&board),
        height_differences: get_height_differences(&board),
        first_hole_depths: get_first_hole_depths(&board),
        garbage_holes: get_garbage_hole_sequence(&board),
        piece_distance: get_distance_to_next_piece(gamestate),
        piece_counts: get_count_of_pieces(gamestate),
        hold_or_current_onehot: get_hold_or_current_piece(gamestate),
        next_onehot: get_next_piece(gamestate),
        all_3x3s: window_histogram(&board, 3, 3),
        all_2x2s: window_histogram(&board, 2, 2),
        all_2x3s: window_histogram(&board, 2, 3),
        all_3x2s: window_histogram(&board, 3, 2),
        meter: gamestate.meter as i32,
        combo: gamestate.combo as i32,
        b2b: gamestate.b2b as i32,
    }
}

} // verus!
