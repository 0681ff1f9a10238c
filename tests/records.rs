use features::board::{Piece, Rotation};
use features::game::{Datum, GameState, Move, State};
use features::records::{
    Label, build_rows, decay_labels, state_code, to_board, to_death_value, to_piece, to_rotation, to_state,
};

fn value_of(l: &Label, ratio: f64) -> f64 {
    l.sign as f64 * ratio.powi(l.steps as i32)
}

#[test]
fn backward_decay_is_geometric() {
    let labels = decay_labels(&vec![7, 7, 7, 7], &vec![0, 0, 0, 1]);
    let steps: Vec<u32> = labels.iter().map(|l| l.steps).collect();
    assert_eq!(steps, vec![3, 2, 1, 0]);
    assert!(labels.iter().all(|l| l.sign == 1));
    let r = 50.0f64 / 60.0;
    let vals: Vec<f64> = labels.iter().map(|l| value_of(l, r)).collect();
    let want = [r * r * r, r * r, r, 1.0];
    for (a, b) in vals.iter().zip(want.iter()) {
        assert!((a - b).abs() < 1e-12);
    }
}

#[test]
fn decay_restarts_for_each_game() {
    let labels = decay_labels(&vec![1, 1, 2, 2, 2], &vec![0, -1, 0, 0, 0]);
    assert_eq!(labels[0], Label { sign: -1, steps: 1 });
    assert_eq!(labels[1], Label { sign: -1, steps: 0 });
    assert_eq!(labels[2], Label { sign: 0, steps: 0 });
    assert_eq!(labels[3], Label { sign: 0, steps: 0 });
    assert_eq!(labels[4], Label { sign: 0, steps: 0 });
    // A drawn game carries no outcome, and rows after a game's last outcome get 0.
    let labels = decay_labels(&vec![3, 3, 3, 3], &vec![0, 1, 0, 0]);
    assert_eq!(labels[0], Label { sign: 1, steps: 1 });
    assert_eq!(labels[1], Label { sign: 1, steps: 0 });
    assert_eq!(labels[2], Label { sign: 0, steps: 0 });
    assert_eq!(labels[3], Label { sign: 0, steps: 0 });
    assert_eq!(value_of(&labels[3], 0.5), 0.0);
    assert!(decay_labels(&vec![], &vec![]).is_empty());
}

#[test]
fn piece_codes() {
    assert_eq!(to_piece("I"), Ok(Piece::I));
    assert_eq!(to_piece("J"), Ok(Piece::J));
    assert_eq!(to_piece("L"), Ok(Piece::L));
    assert_eq!(to_piece("O"), Ok(Piece::O));
    assert_eq!(to_piece("S"), Ok(Piece::S));
    assert_eq!(to_piece("T"), Ok(Piece::T));
    assert_eq!(to_piece("Z"), Ok(Piece::Z));
    assert_eq!(to_piece("X"), Err(()));
    assert_eq!(to_piece(""), Err(()));
    assert_eq!(to_piece("TT"), Err(()));
}

#[test]
fn rotation_codes() {
    assert_eq!(to_rotation(0), Ok(Rotation::North));
    assert_eq!(to_rotation(1), Ok(Rotation::East));
    assert_eq!(to_rotation(2), Ok(Rotation::South));
    assert_eq!(to_rotation(3), Ok(Rotation::West));
    assert_eq!(to_rotation(4), Err(()));
    assert_eq!(to_rotation(-1), Err(()));
}

#[test]
fn state_codes() {
    assert_eq!(to_state("PLAYING"), Ok(State::PLAYING));
    assert_eq!(to_state("P1_WIN"), Ok(State::P1_WIN));
    assert_eq!(to_state("P2_WIN"), Ok(State::P2_WIN));
    assert_eq!(to_state("DRAW"), Ok(State::DRAW));
    assert_eq!(to_state("P3_WIN"), Err(()));
    assert_eq!(to_state("playing"), Err(()));
    assert_eq!(to_death_value(&State::PLAYING), 0);
    assert_eq!(to_death_value(&State::P1_WIN), 1);
    assert_eq!(to_death_value(&State::P2_WIN), -1);
    assert_eq!(to_death_value(&State::DRAW), 0);
}

#[test]
fn serialized_board() {
    let mut bytes = vec![0u8; 200];
    bytes[0] = 1;
    bytes[9] = 1;
    bytes[10 + 3] = 5;
    bytes[190 + 9] = 1;
    let b = to_board(&bytes);
    assert_eq!(b.cols[0], 1);
    assert_eq!(b.cols[9], 1 | 1 << 19);
    assert_eq!(b.cols[3], 0b10);
    assert_eq!(b.cols[1], 0);
}

fn state(board_cols: [u64; 10]) -> GameState {
    GameState {
        board: features::board::Board { cols: board_cols },
        current_piece: Piece::I,
        placement: Move { move_type: None, rotation: Rotation::North, x: 0, y: 0 },
        meter: 0,
        combo: 0,
        attack: 0,
        b2b: 0,
        damage_received: 0,
        spun: false,
        queue: [Piece::I, Piece::O, Piece::T, Piece::S, Piece::Z],
        hold: None,
    }
}

#[test]
fn rows_carry_features_and_labels() {
    let p = state([0b1; 10]);
    let q = state([0b11, 0, 0, 0, 0, 0, 0, 0, 0, 0]);
    let data = vec![
        Datum { p1: p, p2: q, state: State::PLAYING, game_id: 4, move_index: 0 },
        Datum { p1: p, p2: q, state: State::P2_WIN, game_id: 4, move_index: 1 },
    ];
    let rows = build_rows(&data);
    assert_eq!(rows.len(), 2);
    assert_eq!(rows[0].ground_truth, Label { sign: -1, steps: 1 });
    assert_eq!(rows[1].ground_truth, Label { sign: -1, steps: 0 });
    assert_eq!(rows[1].move_index, 1);
    assert_eq!(rows[0].features.0.heights, [1; 10]);
    assert_eq!(rows[0].features.1.heights[0], 2);
}

#[test]
fn state_codes_for_output() {
    assert_eq!(state_code(State::PLAYING), 0);
    assert_eq!(state_code(State::P1_WIN), 1);
    assert_eq!(state_code(State::P2_WIN), 2);
    assert_eq!(state_code(State::DRAW), 3);
}
