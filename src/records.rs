//! Decoding recorded positions, and the training rows built from them with
//! their ground-truth labels.

use vstd::prelude::*;
use vstd::string::StringSliceAdditionalSpecFns;
use crate::board::{Board, Piece, Rotation};
use crate::feature_extractor::{Features, extract_features, features_of};
use crate::game::{Datum, State};

verus! {

/// Whether the bytes `a` and `b` are equal.
fn bytes_equal(a: &[u8], b: &[u8]) -> (r: bool)
    ensures
        r == (a@ == b@),
{
    if a.len() != b.len() {
        return false;
    }
    let mut i: usize = 0;
    while i < a.len()
        invariant
            a@.len() == b@.len(),
            i <= a.len(),
            forall|j: int| 0 <= j < i ==> a@[j] == b@[j],
        decreases a.len() - i,
    {
        if a[i] != b[i] {
            return false;
        }
        i = i + 1;
    }
    assert(a@ =~= b@);
    true
}

/// The piece kind that a one-letter code names.
pub open spec fn piece_of_code(code: Seq<u8>) -> Option<Piece> {
    if code == seq![73u8] {
        Some(Piece::I)
    } else if code == seq![74u8] {
        Some(Piece::J)
    } else if code == seq![76u8] {
        Some(Piece::L)
    } else if code == seq![79u8] {
        Some(Piece::O)
    } else if code == seq![83u8] {
        Some(Piece::S)
    } else if code == seq![84u8] {
        Some(Piece::T)
    } else if code == seq![90u8] {
        Some(Piece::Z)
    } else {
        None
    }
}

/// Decodes a piece code: one of the letters I, J, L, O, S, T and Z.
pub fn to_piece(s: &str) -> (r: Result<Piece, ()>)
    ensures
        r matches Ok(p) ==> piece_of_code(s.spec_bytes()) == Some(p),
        r is Err ==> piece_of_code(s.spec_bytes()) is None,
{
    let b = s.as_bytes();
    if b.len() != 1 {
        return Err(());
    }
    let c = b[0];
    assert(b@ =~= seq![c]);
    if c == 73 {
        Ok(Piece::I)
    } else if c == 74 {
        Ok(Piece::J)
    } else if c == 76 {
        Ok(Piece::L)
    } else if c == 79 {
        Ok(Piece::O)
    } else if c == 83 {
        Ok(Piece::S)
    } else if c == 84 {
        Ok(Piece::T)
    } else if c == 90 {
        Ok(Piece::Z)
    } else {
        Err(())
    }
}

/// The orientation that a rotation code names.
pub open spec fn rotation_of_code(code: i32) -> Option<Rotation> {
    if code == 0 {
        Some(Rotation::North)
    } else if code == 1 {
        Some(Rotation::East)
    } else if code == 2 {
        Some(Rotation::South)
    } else if code == 3 {
        Some(Rotation::West)
    } else {
        None
    }
}

/// Decodes a rotation code: 0 to 3, clockwise from north.
pub fn to_rotation(s: i32) -> (r: Result<Rotation, ()>)
    ensures
        r matches Ok(x) ==> rotation_of_code(s) == Some(x),
        r is Err ==> rotation_of_code(s) is None,
{
    if s == 0 {
        Ok(Rotation::North)
    } else if s == 1 {
        Ok(Rotation::East)
    } else if s == 2 {
        Ok(Rotation::South)
    } else if s == 3 {
        Ok(Rotation::West)
    } else {
        Err(())
    }
}

/// The outcome that a state code names.
pub open spec fn state_of_code(code: Seq<u8>) -> Option<State> {
    if code == seq![80u8, 76, 65, 89, 73, 78, 71] {
        Some(State::PLAYING)
    } else if code == seq![80u8, 49, 95, 87, 73, 78] {
        Some(State::P1_WIN)
    } else if code == seq![80u8, 50, 95, 87, 73, 78] {
        Some(State::P2_WIN)
    } else if code == seq![68u8, 82, 65, 87] {
        Some(State::DRAW)
    } else {
        None
    }
}

/// Decodes a state code: PLAYING, P1_WIN, P2_WIN or DRAW.
pub fn to_state(s: &str) -> (r: Result<State, ()>)
    ensures
        r matches Ok(x) ==> state_of_code(s.spec_bytes()) == Some(x),
        r is Err ==> state_of_code(s.spec_bytes()) is None,
{
    let b = s.as_bytes();
    let playing: [u8; 7] = [80, 76, 65, 89, 73, 78, 71];
    let p1_win: [u8; 6] = [80, 49, 95, 87, 73, 78];
    let p2_win: [u8; 6] = [80, 50, 95, 87, 73, 78];
    let draw: [u8; 4] = [68, 82, 65, 87];
    assert(playing@ =~= seq![80u8, 76, 65, 89, 73, 78, 71]);
    assert(p1_win@ =~= seq![80u8, 49, 95, 87, 73, 78]);
    assert(p2_win@ =~= seq![80u8, 50, 95, 87, 73, 78]);
    assert(draw@ =~= seq![68u8, 82, 65, 87]);
    if bytes_equal(b, playing.as_slice()) {
        Ok(State::PLAYING)
    } else if bytes_equal(b, p1_win.as_slice()) {
        Ok(State::P1_WIN)
    } else if bytes_equal(b, p2_win.as_slice()) {
        Ok(State::P2_WIN)
    } else if bytes_equal(b, draw.as_slice()) {
        Ok(State::DRAW)
    } else {
        Err(())
    }
}

/// Number of bytes of a serialized board: ten cells for each of twenty rows.
pub const BOARD_BYTES: usize = 200;

/// Decodes a serialized board: twenty rows of ten cells, floor first, each
/// cell a byte that is non-zero when occupied.
pub fn to_board(bytes: &[u8]) -> (r: Board)
    requires
        bytes@.len() >= BOARD_BYTES,
    ensures
        forall|x: int, y: int|
            0 <= x < 10 && 0 <= y < 64 ==> #[trigger] r@[x][y] == (y < 20 && bytes@[x + 10 * y]
                != 0),
{
    let mut ret = Board::new();
    for x in 0..10
        invariant
            bytes@.len() >= BOARD_BYTES,
            forall|i: int, y: int|
                0 <= i < 10 && 0 <= y < 64 ==> #[trigger] ret@[i][y] == (i < x && y < 20
                    && bytes@[i + 10 * y] != 0),
    {
        for y in 0..20
            invariant
                x < 10,
                bytes@.len() >= BOARD_BYTES,
                forall|i: int, j: int|
                    0 <= i < 10 && 0 <= j < 64 ==> #[trigger] ret@[i][j] == ((i < x && j < 20
                        && bytes@[i + 10 * j] != 0) || (i == x && j < y && bytes@[i + 10 * j]
                        != 0)),
        {
            if bytes[x + y * 10] != 0 {
                ret.set(x, y);
            }
        }
    }
    ret
}

/// Code of an outcome in the output table: 0 playing, 1 a win for player
/// one, 2 a win for player two, 3 a draw.
pub open spec fn state_index(s: State) -> int {
    match s {
        State::PLAYING => 0,
        State::P1_WIN => 1,
        State::P2_WIN => 2,
        State::DRAW => 3,
    }
}

/// Code of an outcome in the output table.
pub fn state_code(s: State) -> (r: u16)
    ensures
        r as int == state_index(s),
{
    match s {
        State::PLAYING => 0,
        State::P1_WIN => 1,
        State::P2_WIN => 2,
        State::DRAW => 3,
    }
}

/// The terminal value of an outcome: 1 when player one won, -1 when player
/// two won, and 0 otherwise.
pub open spec fn death_value(s: State) -> int {
    match s {
        State::P1_WIN => 1,
        State::P2_WIN => -1,
        _ => 0,
    }
}

/// The terminal value of an outcome.
pub fn to_death_value(s: &State) -> (r: i8)
    ensures
        r as int == death_value(*s),
{
    match s {
        State::PLAYING => 0,
        State::P1_WIN => 1,
        State::P2_WIN => -1,
        State::DRAW => 0,
    }
}

/// A ground-truth label: `sign` times the decay ratio raised to `steps`.
#[derive(Clone, Copy, Debug, PartialEq, Eq, Structural)]
pub struct Label {
    pub sign: i8,
    pub steps: u32,
}

/// The label of row `i` after the backward decay pass over rows ordered by
/// game and move: a row with a non-zero terminal value keeps it; any other
/// row takes the label of the next row of its game, decayed once more; a row
/// with no later non-zero terminal value in its game is labelled 0.
pub open spec fn decayed_label(games: Seq<u16>, values: Seq<i8>, i: int) -> Label
    decreases values.len() - i,
{
    if i < 0 || i >= values.len() {
        Label { sign: 0, steps: 0 }
    } else if values[i] != 0 {
        Label { sign: values[i], steps: 0 }
    } else if i + 1 < values.len() && games[i + 1] == games[i] {
        let next = decayed_label(games, values, i + 1);
        if next.sign == 0 {
            Label { sign: 0, steps: 0 }
        } else {
            Label { sign: next.sign, steps: (next.steps + 1) as u32 }
        }
    } else {
        Label { sign: 0, steps: 0 }
    }
}

proof fn lemma_steps_bounded(games: Seq<u16>, values: Seq<i8>, i: int)
    requires
        0 <= i < values.len(),
        games.len() == values.len(),
        values.len() < u32::MAX,
    ensures
        decayed_label(games, values, i).steps <= values.len() - i,
    decreases values.len() - i,
{
    if values[i] == 0 && i + 1 < values.len() && games[i + 1] == games[i] {
        lemma_steps_bounded(games, values, i + 1);
    }
}

/// A game whose terminal values are all 0 is labelled 0 on every row.
pub proof fn lemma_no_outcome_no_label(games: Seq<u16>, values: Seq<i8>, lo: int, hi: int, j: int)
    requires
        games.len() == values.len(),
        0 <= lo <= j < hi <= values.len(),
        forall|k: int| lo <= k < hi ==> #[trigger] games[k] == games[lo],
        hi < values.len() ==> games[hi] != games[lo],
        forall|k: int| lo <= k < hi ==> #[trigger] values[k] == 0,
    ensures
        decayed_label(games, values, j) == (Label { sign: 0, steps: 0 }),
    decreases hi - j,
{
    if j < hi - 1 {
        lemma_no_outcome_no_label(games, values, lo, hi, j + 1);
    }
}

/// Within one game whose only non-zero terminal value is on its last row,
/// each row's label is that value decayed once per row between it and the
/// last row.
pub proof fn lemma_geometric_decay(games: Seq<u16>, values: Seq<i8>, lo: int, hi: int, j: int)
    requires
        games.len() == values.len(),
        values.len() < u32::MAX,
        0 <= lo <= j < hi <= values.len(),
        forall|k: int| lo <= k < hi ==> #[trigger] games[k] == games[lo],
        forall|k: int| lo <= k < hi - 1 ==> #[trigger] values[k] == 0,
        values[hi - 1] != 0,
    ensures
        decayed_label(games, values, j) == (Label { sign: values[hi - 1], steps: (hi - 1 - j) as u32 }),
    decreases hi - j,
{
    if j < hi - 1 {
        lemma_geometric_decay(games, values, lo, hi, j + 1);
    }
}

/// Labels of rows ordered by game and move, from their terminal values,
/// by one backward pass.
pub fn decay_labels(games: &Vec<u16>, values: &Vec<i8>) -> (r: Vec<Label>)
    requires
        games.len() == values.len(),
        values.len() < u32::MAX,
    ensures
        r.len() == values.len(),
        forall|i: int| 0 <= i < r.len() ==> #[trigger] r@[i] == decayed_label(games@, values@, i),
{
    let n = values.len();
    let mut out: Vec<Label> = Vec::new();
    let mut k: usize = 0;
    while k < n
        invariant
            k <= n == values.len(),
            out.len() == k,
        decreases n - k,
    {
        out.push(Label { sign: 0, steps: 0 });
        k = k + 1;
    }
    let mut i: usize = n;
    while i > 0
        invariant
            i <= n == values.len() == games.len(),
            n < u32::MAX,
            out.len() == n,
            forall|j: int| i <= j < n ==> #[trigger] out@[j] == decayed_label(games@, values@, j),
        decreases i,
    {
        i = i - 1;
        let label = if values[i] != 0 {
            Label { sign: values[i], steps: 0 }
        } else if i + 1 < n && games[i + 1] == games[i] {
            let next = out[i + 1];
            proof {
                lemma_steps_bounded(games@, values@, i + 1);
            }
            if next.sign == 0 {
                Label { sign: 0, steps: 0 }
            } else {
                Label { sign: next.sign, steps: next.steps + 1 }
            }
        } else {
            Label { sign: 0, steps: 0 }
        };
        out.set(i, label);
    }
    out
}

/// One training row: both players' features, the game and move it belongs
/// to, the recorded outcome and the decayed ground-truth label.
pub struct Row {
    pub game_id: u16,
    pub move_index: u16,
    pub state: State,
    pub ground_truth: Label,
    pub features: (Features, Features),
}

/// The game ids of the recorded positions.
pub open spec fn games_of(data: Seq<Datum>) -> Seq<u16> {
    Seq::new(data.len(), |i: int| data[i].game_id)
}

/// The terminal values of the recorded positions.
pub open spec fn values_of(data: Seq<Datum>) -> Seq<i8> {
    Seq::new(data.len(), |i: int| death_value(data[i].state) as i8)
}

/// Training rows for positions ordered by game and move: each row holds
/// both players' features and the label that the backward decay pass
/// gives its position within its game.
pub fn build_rows(data: &Vec<Datum>) -> (r: Vec<Row>)
    requires
        data.len() < u32::MAX,
    ensures
        r.len() == data.len(),
        forall|i: int|
            0 <= i < r.len() ==> {
                let row = #[trigger] r@[i];
                &&& row.game_id == data@[i].game_id
                &&& row.move_index == data@[i].move_index
                &&& row.state == data@[i].state
                &&& features_of(data@[i].p1, row.features.0)
                &&& features_of(data@[i].p2, row.features.1)
                &&& row.features.0.wf() && row.features.1.wf()
                &&& row.ground_truth == decayed_label(games_of(data@), values_of(data@), i)
            },
{
    let mut games: Vec<u16> = Vec::new();
    let mut values: Vec<i8> = Vec::new();
    for i in 0..data.len()
        invariant
            games@ == games_of(data@).subrange(0, i as int),
            values@ == values_of(data@).subrange(0, i as int),
    {
        games.push(data[i].game_id);
        values.push(to_death_value(&data[i].state));
        assert(games@ =~= games_of(data@).subrange(0, i + 1));
        assert(values@ =~= values_of(data@).subrange(0, i + 1));
    }
    assert(games@ =~= games_of(data@));
    assert(values@ =~= values_of(data@));
    let labels = decay_labels(&games, &values);
    let mut rows: Vec<Row> = Vec::new();
    for i in 0..data.len()
        invariant
            labels.len() == data.len(),
            forall|j: int|
                0 <= j < labels.len() ==> #[trigger] labels@[j] == decayed_label(
                    games_of(data@),
                    values_of(data@),
                    j,
                ),
            rows.len() == i,
            forall|j: int|
                0 <= j < i ==> {
                    let row = #[trigger] rows@[j];
                    &&& row.game_id == data@[j].game_id
                    &&& row.move_index == data@[j].move_index
                    &&& row.state == data@[j].state
                    &&& features_of(data@[j].p1, row.features.0)
                    &&& features_of(data@[j].p2, row.features.1)
                    &&& row.features.0.wf() && row.features.1.wf()
                    &&& row.ground_truth == decayed_label(games_of(data@), values_of(data@), j)
                },
    {
        let d = &data[i];
        let p1 = extract_features(&d.p1);
        let p2 = extract_features(&d.p2);
        rows.push(
            Row {
                game_id: d.game_id,
                move_index: d.move_index,
                state: d.state,
                ground_truth: labels[i],
                features: (p1, p2),
            },
        );
    }
    rows
}

} // verus!
