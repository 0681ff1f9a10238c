use features::attribute_finder::{Weights, get_attributes};
use features::board::{Board, Piece, Rotation, TPlacement};
use features::feature_extractor::{FeatureConfig, Features, extract_features};
use features::game::{GameState, Move};
use features::hachi::{get_garbage_hole_sequence, get_hachi_features};
use features::patterns::window_histogram;
use features::static_features::{
    cc_count_holes, cc_coveredness, cc_row_transitions, get_static_features, sunbeam_bumpiness,
    sunbeam_donations, sunbeam_holes, sunbeam_tslot, sunbeam_well,
};

fn board_of(cols: [u64; 10]) -> Board {
    Board { cols }
}

fn sample_board() -> Board {
    board_of([0b111, 0b101, 0b000, 0b001, 0b111, 0b111, 0b111, 0b111, 0b111, 0b111])
}

fn game_of(board: Board) -> GameState {
    GameState {
        board,
        current_piece: Piece::T,
        placement: Move { move_type: Some(Piece::I), rotation: Rotation::North, x: 4, y: 0 },
        meter: 3,
        combo: 2,
        attack: 4,
        b2b: 1,
        damage_received: 5,
        spun: false,
        queue: [Piece::S, Piece::Z, Piece::S, Piece::O, Piece::I],
        hold: Some(Piece::L),
    }
}

fn config() -> FeatureConfig {
    FeatureConfig {
        use_3x3s: true,
        use_positional_3x3s: true,
        top_3x3s: vec![0, 511, 7],
        top_3x3s_with_x: vec![511, 0],
        top_3x3s_with_y: vec![7],
    }
}

#[test]
fn test_donations() {
    let mut board = Board::new();
    board.cols[0] = 0b111;
    board.cols[1] = 0b101;
    board.cols[2] = 0b000;
    board.cols[3] = 0b001;
    board.cols[4] = 0b111;
    board.cols[5] = 0b111;
    board.cols[6] = 0b111;
    board.cols[7] = 0b111;
    board.cols[8] = 0b111;
    board.cols[9] = 0b111;
    let mut heights = board.heights();
    assert_eq!(sunbeam_donations(&mut board, &mut heights, 2).0, [0, 0, 1, 0]);
}

#[test]
fn donation_keeps_the_cleared_board() {
    let mut board = sample_board();
    let mut heights = board.heights();
    let (clears, donations) = sunbeam_donations(&mut board, &mut heights, 2);
    assert_eq!(clears, [0, 0, 1, 0]);
    assert_eq!(donations, 1);
    assert_eq!(board.cols, [0b1, 0b1, 0, 0, 0b1, 0b1, 0b1, 0b1, 0b1, 0b1]);
    assert_eq!(heights, [1, 1, 0, 0, 1, 1, 1, 1, 1, 1]);
}

#[test]
fn donations_never_exceed_depth() {
    for depth in 0..4usize {
        let mut board = sample_board();
        let mut heights = board.heights();
        let (clears, donations) = sunbeam_donations(&mut board, &mut heights, depth);
        assert!(donations as usize <= depth);
        assert!(clears.iter().sum::<i32>() as usize <= depth);
    }
    let mut board = sample_board();
    let mut heights = board.heights();
    assert_eq!(sunbeam_donations(&mut board, &mut heights, 0), ([0, 0, 0, 0], 0));
    assert_eq!(board, sample_board());
}

#[test]
fn single_line_clear_stops_the_search() {
    // A flat slot whose T piece completes only the bottom row.
    let mut board = board_of([0b111, 0b101, 0b000, 0b001, 0b101, 0b111, 0b111, 0b111, 0b111, 0b111]);
    let mut heights = board.heights();
    let before = board;
    let (clears, donations) = sunbeam_donations(&mut board, &mut heights, 2);
    assert_eq!(clears, [0, 1, 0, 0]);
    assert_eq!(donations, 0);
    assert_eq!(board, before);
}

#[test]
fn tslot_found_in_sample() {
    let board = sample_board();
    let heights = board.heights();
    assert_eq!(
        sunbeam_tslot(&board, &heights),
        Some(TPlacement { x: 2, y: 1, r: Rotation::South })
    );
    let empty = Board::new();
    assert_eq!(sunbeam_tslot(&empty, &empty.heights()), None);
}

#[test]
fn end_to_end_board_profile() {
    let board = sample_board();
    let heights = board.heights();
    assert_eq!(heights, [3, 3, 0, 1, 3, 3, 3, 3, 3, 3]);
    let (depth, well_x) = sunbeam_well(&board, &heights);
    assert_eq!(well_x, 2);
    assert_eq!(depth, 1);
    let hf = get_hachi_features(&game_of(board));
    assert_eq!(hf.first_hole_depths[1], 1);
    assert_eq!(hf.first_hole_depths[3], 0);
    assert_eq!(hf.first_hole_depths, [0, 1, 0, 0, 0, 0, 0, 0, 0, 0]);
    assert_eq!(hf.height_differences, [0, -3, 1, 2, 0, 0, 0, 0, 0]);
}

#[test]
fn heights_are_one_above_top_bit() {
    let board = board_of([0, 1, 0b10, 0b1000_0000, 1 << 63, u64::MAX, 0b1001, 0, 0b110, 1 << 19]);
    assert_eq!(board.heights(), [0, 1, 2, 8, 64, 64, 4, 0, 3, 20]);
}

#[test]
fn first_hole_depth_zero_iff_no_hole() {
    let board = board_of([0b1111, 0b1101, 0b1011, 0b0111, 0, 0b1, 0b10, 0b101, 0b111, 0b11]);
    let hf = get_hachi_features(&game_of(board));
    assert_eq!(hf.first_hole_depths[0], 0);
    assert_eq!(hf.first_hole_depths[1], 1);
    assert_eq!(hf.first_hole_depths[2], 2);
    assert_eq!(hf.first_hole_depths[3], 0);
    assert_eq!(hf.first_hole_depths[4], 0);
    assert_eq!(hf.first_hole_depths[5], 0);
    // An empty floor cell under an occupied cell also reads 0.
    assert_eq!(hf.first_hole_depths[6], 0);
    assert_eq!(hf.first_hole_depths[7], 1);
}

#[test]
fn garbage_hole_sequence_rows() {
    // Row 0: only column 4 empty. Row 1: all full. Row 2: columns 0 and 9 empty.
    let mut cols = [0b011u64; 10];
    cols[4] = 0b010;
    cols[0] = 0b111 & !0b100 | 0b011;
    cols[9] = 0b011;
    for x in 1..9 {
        if x != 4 {
            cols[x] |= 0b100;
        }
    }
    cols[4] |= 0b100;
    let hf = get_hachi_features(&game_of(board_of(cols)));
    assert_eq!(hf.garbage_holes[0], 4);
    assert_eq!(hf.garbage_holes[1], -1);
    assert_eq!(hf.garbage_holes[2], -1);
    for y in 3..20 {
        assert_eq!(hf.garbage_holes[y], -1);
    }
    // Column 0 as the hole.
    let mut cols = [1u64; 10];
    cols[0] = 0;
    let hf = get_hachi_features(&game_of(board_of(cols)));
    assert_eq!(hf.garbage_holes[0], 0);
}

#[test]
fn empty_board_histograms_are_zero() {
    let board = Board::new();
    for (c, r) in [(3usize, 3usize), (2, 2), (2, 3), (3, 2)] {
        let h = window_histogram(&board, c, r);
        assert_eq!(h.counts.len(), 1 << (c * r));
        assert!(h.counts.iter().all(|&v| v == 0));
        assert!(h.with_x.iter().all(|&v| v == 0));
        assert!(h.with_y.iter().all(|&v| v == 0));
    }
}

#[test]
fn full_block_histogram_counts() {
    let board = board_of([0b11111; 10]);
    let h = window_histogram(&board, 3, 3);
    assert_eq!(h.counts[511], 8 * 3);
    assert_eq!(h.with_x[511], 3 * 28);
    assert_eq!(h.with_y[511], 8 * 3);
    assert_eq!(h.counts.iter().sum::<i32>(), 8 * 5);
    let h = window_histogram(&board, 2, 2);
    assert_eq!(h.counts[15], 9 * 4);
}

#[test]
fn single_cell_pattern_ids() {
    let mut board = Board::new();
    board.set(1, 0);
    let h = window_histogram(&board, 3, 3);
    // The cell is seen from x = 0 (middle column) and x = 1 (left column).
    assert_eq!(h.counts[8], 1);
    assert_eq!(h.counts[1], 1);
    assert_eq!(h.counts[0], 6);
    assert_eq!(h.with_x[1], 1);
}

#[test]
fn static_measurements_on_sample() {
    let board = sample_board();
    let heights = board.heights();
    assert_eq!(cc_count_holes(&board, &heights), 1);
    assert_eq!(cc_coveredness(&board), 2);
    assert_eq!(cc_row_transitions(&board), 128);
    assert_eq!(sunbeam_bumpiness(&heights, 2), 8);
    assert_eq!(sunbeam_holes(&board, &heights, 2), (1, 0));
    assert_eq!(sunbeam_bumpiness(&[0, 2, 0, 0, 0, 0, 0, 0, 0, 5], 0), 4 + 25);
    assert_eq!(sunbeam_bumpiness(&[0, 2, 0, 0, 0, 0, 0, 0, 0, 5], 10), 4 + 4 + 25);
}

#[test]
fn static_features_on_sample() {
    let sf = get_static_features(&game_of(sample_board()));
    assert_eq!(sf.sunbeam_max_height, 3);
    assert_eq!(sf.sunbeam_well_x, 2);
    assert_eq!(sf.sunbeam_well_depth, 1);
    assert_eq!(sf.sunbeam_bumpiness, 8);
    assert_eq!(sf.sunbeam_t_clears, [0, 0, 1, 0]);
    assert_eq!(sf.sunbeam_n_donations, 1);
    assert_eq!(sf.sunbeam_max_donated_height, 1);
    let a = get_attributes(sample_board());
    assert_eq!(a.citrus_n_donations, 1);
    assert_eq!(a.citrus_well_x, 2);
}

#[test]
fn clear_lines_drops_rows() {
    let mut board = board_of([0b1011, 0b0011, 0b0111, 0b1011, 0b0011, 0b0011, 0b0011, 0b0011, 0b0011, 0b0011]);
    assert_eq!(board.clear_lines(), 2);
    assert_eq!(board.cols, [0b10, 0, 0b1, 0b10, 0, 0, 0, 0, 0, 0]);
}

#[test]
fn place_t_in_each_rotation() {
    let mut board = Board::new();
    board.place_t(TPlacement { x: 1, y: 0, r: Rotation::North });
    assert_eq!(&board.cols[..3], &[0b1, 0b11, 0b1]);
    let mut board = Board::new();
    board.place_t(TPlacement { x: 1, y: 1, r: Rotation::East });
    assert_eq!(&board.cols[..3], &[0, 0b111, 0b10]);
    let mut board = Board::new();
    board.place_t(TPlacement { x: 1, y: 1, r: Rotation::South });
    assert_eq!(&board.cols[..3], &[0b10, 0b11, 0b10]);
    let mut board = Board::new();
    board.place_t(TPlacement { x: 1, y: 1, r: Rotation::West });
    assert_eq!(&board.cols[..3], &[0b10, 0b111, 0]);
}

#[test]
fn queue_features() {
    let hf = get_hachi_features(&game_of(sample_board()));
    // Kinds in order I, J, L, O, S, T, Z; queue S Z S O I.
    assert_eq!(hf.piece_distance, [4, 5, 5, 3, 0, 5, 1]);
    assert_eq!(hf.piece_counts, [1, 0, 0, 1, 2, 0, 1]);
    assert_eq!(hf.hold_or_current_onehot, [0, 0, 1, 0, 0, 1, 0]);
    assert_eq!(hf.next_onehot, [0, 0, 0, 0, 1, 0, 0]);
    assert_eq!((hf.meter, hf.combo, hf.b2b), (3, 2, 1));
    let mut g = game_of(sample_board());
    g.hold = Some(Piece::T);
    let hf = get_hachi_features(&g);
    assert_eq!(hf.hold_or_current_onehot, [0, 0, 0, 0, 0, 2, 0]);
    g.hold = None;
    let hf = get_hachi_features(&g);
    assert_eq!(hf.hold_or_current_onehot, [0, 0, 0, 0, 0, 1, 0]);
}

#[test]
fn extraction_is_deterministic() {
    let g = game_of(sample_board());
    let cfg = config();
    let a = extract_features(&g).values(&cfg);
    let b = extract_features(&g).values(&cfg);
    assert_eq!(a, b);
    assert_eq!(a.len(), Features::count(&cfg));
    assert_eq!(a.len(), 99);
}

#[test]
fn feature_vector_layout() {
    let g = game_of(sample_board());
    let cfg = config();
    let f = extract_features(&g);
    let v = f.values(&cfg);
    assert_eq!(&v[..10], &[3, 3, 0, 1, 3, 3, 3, 3, 3, 3]);
    assert_eq!(&v[10..19], &[0, -3, 1, 2, 0, 0, 0, 0, 0]);
    let patterns = &v[77..83];
    assert_eq!(patterns[0], f.all_3x3s.counts[0]);
    assert_eq!(patterns[1], f.all_3x3s.counts[511]);
    assert_eq!(patterns[3], f.all_3x3s.with_x[511]);
    assert_eq!(patterns[5], f.all_3x3s.with_y[7]);
    assert_eq!(&v[83..92], &[3, 2, 1, 3, 8, 2, 1, 1, 1]);
    assert_eq!(&v[92..], &[0, 0, 1, 0, 1, 2, 128]);
    let off = FeatureConfig {
        use_3x3s: false,
        use_positional_3x3s: false,
        top_3x3s: vec![1, 2],
        top_3x3s_with_x: vec![],
        top_3x3s_with_y: vec![],
    };
    assert_eq!(f.values(&off).len(), 93);
    assert_eq!(Features::count(&off), 93);
}

#[test]
fn column_names_follow_layout() {
    let cfg = config();
    let cols = Features::sql_columns("p1", &cfg);
    let names: Vec<&str> = cols.split(", ").collect();
    assert_eq!(names.len(), Features::count(&cfg));
    assert_eq!(names[0], "p1_heights0");
    assert_eq!(names[9], "p1_heights9");
    assert_eq!(names[10], "p1_height_differences0");
    assert_eq!(names[77], "p1_all_3x3s0");
    assert_eq!(names[78], "p1_all_3x3s511");
    assert_eq!(names[80], "p1_all_3x3s_with_x511");
    assert_eq!(names[82], "p1_all_3x3s_with_y7");
    assert_eq!(names[83], "p1_meter");
    assert_eq!(names[92], "p1_sunbeam_t_clears0");
    assert_eq!(names[98], "p1_cc_row_transitions");
    let typed = Features::sql_columns_with_types("p2", &cfg);
    assert!(typed.starts_with("p2_heights0 INTEGER NOT NULL, p2_heights1 INTEGER NOT NULL"));
    let plain = Features::sql_columns_with_options("x", false, &cfg);
    assert!(plain.ends_with("x_cc_coveredness, x_cc_row_transitions"));
}

#[test]
fn placeholders_match_column_count() {
    let cfg = config();
    let p = Features::sql_placeholders(&cfg);
    assert_eq!(p.matches('?').count(), 99);
    assert!(p.starts_with("?, ?, ?"));
    assert!(p.ends_with(", ?"));
}

#[test]
fn default_weights() {
    let w = Weights::default();
    assert_eq!(w.height, -50);
    assert_eq!(w.holes, -400);
    assert_eq!(w.tslot, [150, 200, 250, 500]);
    assert_eq!(w.clear, [-400, -350, -300, 250]);
    assert_eq!(w.combo, [200, 500, 1000, 1500, 2000]);
    assert_eq!(w.pc, 2000);
    assert_eq!(w.waste_t, -100);
}

#[test]
fn partial_block_histogram_count() {
    let mut cols = [0u64; 10];
    for x in 2..=6 {
        cols[x] = 0b11111;
    }
    let h = window_histogram(&board_of(cols), 3, 3);
    assert_eq!(h.counts[511], (6 - 2 - 1) * (5 - 2));
}

#[test]
fn garbage_sequence_direct() {
    let mut cols = [0b1u64; 10];
    cols[7] = 0;
    let g = get_garbage_hole_sequence(&board_of(cols));
    assert_eq!(g[0], 7);
    assert_eq!(g[1], -1);
}
