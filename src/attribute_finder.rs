//! Evaluation weights of a search bot, and the board attributes it scores.

use vstd::prelude::*;
use crate::board::Board;
use crate::static_features::{StaticFeatures, board_static_features, static_features_of};

verus! {

/// Weights of a linear position evaluation.
#[derive(Debug, Clone, Copy)]
pub struct Weights {
    pub height: i32,
    pub well: i32,
    pub center: i32,
    pub bumpiness: i32,
    pub holes: i32,
    pub garbage: i32,
    pub tslot: [i32; 4],
    pub b2b_bonus: i32,
    pub combo_bonus: i32,
    pub clear: [i32; 4],
    pub tspin: [i32; 3],
    pub tspin_mini: [i32; 2],
    pub combo: [i32; 5],
    pub b2b: i32,
    pub pc: i32,
    pub waste_t: i32,
}

impl Default for Weights {
    fn default() -> (r: Self)
        ensures
            r.height == -50 && r.well == 25 && r.center == -100 && r.bumpiness == -25,
            r.holes == -400 && r.garbage == -300,
            r.tslot@ == seq![150i32, 200, 250, 500],
            r.b2b_bonus == 200 && r.combo_bonus == 200,
            r.clear@ == seq![-400i32, -350i32, -300i32, 250i32],
            r.tspin@ == seq![50i32, 400, 800],
            r.tspin_mini@ == seq![0i32, 0],
            r.combo@ == seq![200i32, 500, 1000, 1500, 2000],
            r.b2b == 100 && r.pc == 2000 && r.waste_t == -100,
    {
        let r = Self {
            height: -50,
            well: 25,
            center: -100,
            bumpiness: -25,
            holes: -400,
            garbage: -300,
            tslot: [150, 200, 250, 500],
            b2b_bonus: 200,
            combo_bonus: 200,
            clear: [-400, -350, -300, 250],
            tspin: [50, 400, 800],
            tspin_mini: [0, 0],
            combo: [200, 500, 1000, 1500, 2000],
            b2b: 100,
            pc: 2000,
            waste_t: -100,
        };
        assert(r.tslot@ =~= seq![150i32, 200, 250, 500]);
        assert(r.clear@ =~= seq![-400i32, -350i32, -300i32, 250i32]);
        assert(r.tspin@ =~= seq![50i32, 400, 800]);
        assert(r.tspin_mini@ =~= seq![0i32, 0]);
        assert(r.combo@ =~= seq![200i32, 500, 1000, 1500, 2000]);
        r
    }
}

/// The well, bumpiness, height and donation attributes of a board.
pub struct StaticAttributes {
    pub citrus_max_height: u32,
    pub citrus_bumpiness: i32,
    pub citrus_well_x: usize,
    pub citrus_well_depth: i32,
    pub citrus_max_donated_height: u32,
    pub citrus_n_donations: i32,
    pub citrus_t_clears: [i32; 4],
}

/// Whether `a` holds the attributes that the static features `f` give.
pub open spec fn attributes_from(f: StaticFeatures, a: StaticAttributes) -> bool {
    &&& a.citrus_max_height == f.sunbeam_max_height
    &&& a.citrus_bumpiness == f.sunbeam_bumpiness
    &&& a.citrus_well_x == f.sunbeam_well_x
    &&& a.citrus_well_depth == f.sunbeam_well_depth
    &&& a.citrus_max_donated_height == f.sunbeam_max_donated_height
    &&& a.citrus_n_donations == f.sunbeam_n_donations
    &&& a.citrus_t_clears == f.sunbeam_t_clears
}

/// The well, bumpiness, height and donation attributes of a board.
pub fn get_attributes(board: Board) -> (r: StaticAttributes)
    ensures
        exists|f: StaticFeatures| #[trigger]
            static_features_of(board@, f) && attributes_from(f, r),
{
    let f = board_static_features(&board);
    let r = StaticAttributes {
        citrus_max_height: f.sunbeam_max_height,
        citrus_bumpiness: f.sunbeam_bumpiness,
        citrus_well_x: f.sunbeam_well_x,
        citrus_well_depth: f.sunbeam_well_depth,
        citrus_max_donated_height: f.sunbeam_max_donated_height,
        citrus_n_donations: f.sunbeam_n_donations,
        citrus_t_clears: f.sunbeam_t_clears,
    };
    assert(static_features_of(board@, f) && attributes_from(f, r));
    r
}

} // verus!
