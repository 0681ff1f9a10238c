//! One player's complete feature record, the configuration that fixes which
//! pattern counts are emitted, and the flat integer vector that is written out.

use vstd::prelude::*;
use crate::board::{Piece, piece_index};
use crate::game::GameState;
use crate::hachi::{HachiFeatures, get_hachi_features, hachi_features_of};
use crate::patterns::{Histograms, histograms_of};
use crate::text::{decimal, join, lemma_join_push, push_decimal, push_separator};
use vstd::string::StringExecFns;
use crate::static_features::{StaticFeatures, get_static_features, static_features_of};

verus! {

/// Number of pattern ids of a three-by-three window.
pub const PATTERN_IDS: usize = 512;

/// All features of one player's position.
pub struct Features {
    pub heights: [u32; 10],
    pub height_differences: [i32; 9],
    pub first_hole_depths: [i32; 10],
    pub garbage_holes: [i32; 20],
    pub piece_distance: [i32; 7],
    pub piece_counts: [i32; 7],
    pub hold_or_current_onehot: [i32; 7],
    pub next_onehot: [i32; 7],
    /// Three-by-three pattern histograms: counts, x-sums and y-sums.
    pub all_3x3s: Histograms,
    pub meter: i32,
    pub combo: i32,
    pub b2b: i32,
    pub sunbeam_max_height: u32,
    pub sunbeam_bumpiness: i32,
    pub sunbeam_well_x: usize,
    pub sunbeam_well_depth: i32,
    pub sunbeam_max_donated_height: u32,
    pub sunbeam_n_donations: i32,
    pub sunbeam_t_clears: [i32; 4],
    pub cc_holes: i32,
    pub cc_coveredness: i32,
    pub cc_row_transitions: i32,
}

/// Which pattern histograms are emitted, and for each the ordered list of
/// pattern ids whose entries are emitted.
pub struct FeatureConfig {
    pub use_3x3s: bool,
    pub use_positional_3x3s: bool,
    pub top_3x3s: Vec<usize>,
    pub top_3x3s_with_x: Vec<usize>,
    pub top_3x3s_with_y: Vec<usize>,
}

/// Every listed id of `ids` is a pattern id.
pub open spec fn ids_valid(ids: Seq<usize>) -> bool {
    forall|i: int| 0 <= i < ids.len() ==> #[trigger] ids[i] < PATTERN_IDS
}

impl FeatureConfig {
    /// Every whitelisted id is a pattern id.
    pub open spec fn wf(&self) -> bool {
        &&& ids_valid(self.top_3x3s@)
        &&& ids_valid(self.top_3x3s_with_x@)
        &&& ids_valid(self.top_3x3s_with_y@)
    }
}

/// Whether `f` holds all the features of the position `g`: the profile,
/// queue and three-by-three pattern features, the counters, and the static
/// features of the board.
pub open spec fn features_of(g: GameState, f: Features) -> bool {
    exists|hf: HachiFeatures, sf: StaticFeatures|
        #![trigger hachi_features_of(g, hf), static_features_of(g.board@, sf)]
        hachi_features_of(g, hf) && static_features_of(g.board@, sf) && f == combine(hf, sf)
}

/// The features record made of the profile and pattern features `hf` and the static features `sf`.
pub open spec fn combine(hf: HachiFeatures, sf: StaticFeatures) -> Features {
    Features {
        heights: hf.heights,
        height_differences: hf.height_differences,
        first_hole_depths: hf.first_hole_depths,
        garbage_holes: hf.garbage_holes,
        piece_distance: hf.piece_distance,
        piece_counts: hf.piece_counts,
        hold_or_current_onehot: hf.hold_or_current_onehot,
        next_onehot: hf.next_onehot,
        all_3x3s: hf.all_3x3s,
        meter: hf.meter,
        combo: hf.combo,
        b2b: hf.b2b,
        sunbeam_max_height: sf.sunbeam_max_height,
        sunbeam_bumpiness: sf.sunbeam_bumpiness,
        sunbeam_well_x: sf.sunbeam_well_x,
        sunbeam_well_depth: sf.sunbeam_well_depth,
        sunbeam_max_donated_height: sf.sunbeam_max_donated_height,
        sunbeam_n_donations: sf.sunbeam_n_donations,
        sunbeam_t_clears: sf.sunbeam_t_clears,
        cc_holes: sf.cc_holes,
        cc_coveredness: sf.cc_coveredness,
        cc_row_transitions: sf.cc_row_transitions,
    }
}

/// All features of one player's position.
pub fn extract_features(game: &GameState) -> (r: Features)
    ensures
        features_of(*game, r),
        r.wf(),
{
    let sf = get_static_features(game);
    let hf = get_hachi_features(game);
    let ghost gsf = sf;
    let ghost ghf = hf;
    let r = Features {
        heights: hf.heights,
        height_differences: hf.height_differences,
        first_hole_depths: hf.first_hole_depths,
        garbage_holes: hf.garbage_holes,
        piece_distance: hf.piece_distance,
        piece_counts: hf.piece_counts,
        hold_or_current_onehot: hf.hold_or_current_onehot,
        next_onehot: hf.next_onehot,
        all_3x3s: hf.all_3x3s,
        meter: hf.meter,
        combo: hf.combo,
        b2b: hf.b2b,
        sunbeam_max_height: sf.sunbeam_max_height,
        sunbeam_bumpiness: sf.sunbeam_bumpiness,
        sunbeam_well_x: sf.sunbeam_well_x,
        sunbeam_well_depth: sf.sunbeam_well_depth,
        sunbeam_max_donated_height: sf.sunbeam_max_donated_height,
        sunbeam_n_donations: sf.sunbeam_n_donations,
        sunbeam_t_clears: sf.sunbeam_t_clears,
        cc_holes: sf.cc_holes,
        cc_coveredness: sf.cc_coveredness,
        cc_row_transitions: sf.cc_row_transitions,
    };
    assert(r == combine(ghf, gsf));
    proof {
        crate::patterns::lemma_two_to_nine();
        assert(3nat * 3nat == 9nat);
    }
    r
}

/// The entries of `src` at the listed ids, in list order.
pub open spec fn selected(src: Seq<i32>, ids: Seq<usize>) -> Seq<i32> {
    Seq::new(ids.len(), |i: int| src[ids[i] as int])
}

/// The heights as signed values.
pub open spec fn signed_heights(hs: [u32; 10]) -> Seq<i32> {
    Seq::new(10, |i: int| hs[i] as i32)
}

/// The emitted three-by-three pattern entries: the whitelisted counts when
/// enabled, then the whitelisted x-sums and y-sums when enabled.
pub open spec fn pattern_values(f: Features, cfg: FeatureConfig) -> Seq<i32> {
    (if cfg.use_3x3s {
        selected(f.all_3x3s.counts@, cfg.top_3x3s@)
    } else {
        Seq::empty()
    }) + (if cfg.use_positional_3x3s {
        selected(f.all_3x3s.with_x@, cfg.top_3x3s_with_x@) + selected(
            f.all_3x3s.with_y@,
            cfg.top_3x3s_with_y@,
        )
    } else {
        Seq::empty()
    })
}

/// The scalar features, in emission order.
pub open spec fn scalar_values(f: Features) -> Seq<i32> {
    seq![
        f.meter,
        f.combo,
        f.b2b,
        f.sunbeam_max_height as i32,
        f.sunbeam_bumpiness,
        f.sunbeam_well_x as i32,
        f.sunbeam_well_depth,
        f.sunbeam_max_donated_height as i32,
        f.sunbeam_n_donations,
    ]
}

/// The feature vector of `f` under `cfg`: heights, height differences,
/// first-hole depths, garbage holes, the four queue arrays, the emitted
/// pattern entries, the scalar features, the clear-count histogram and the
/// three hole and transition counts.
pub open spec fn feature_values(f: Features, cfg: FeatureConfig) -> Seq<i32> {
    profile_values(f) + pattern_values(f, cfg) + scalar_values(f) + tail_values(f)
}

/// The board profile and queue arrays, in emission order.
pub open spec fn profile_values(f: Features) -> Seq<i32> {
    signed_heights(f.heights) + f.height_differences@ + f.first_hole_depths@ + f.garbage_holes@
        + f.piece_distance@ + f.piece_counts@ + f.hold_or_current_onehot@ + f.next_onehot@
}

/// The clear-count histogram and the hole and transition counts, in emission order.
pub open spec fn tail_values(f: Features) -> Seq<i32> {
    f.sunbeam_t_clears@ + seq![f.cc_holes, f.cc_coveredness, f.cc_row_transitions]
}

/// Number of emitted pattern entries under `cfg`.
pub open spec fn pattern_count(cfg: FeatureConfig) -> int {
    (if cfg.use_3x3s {
        cfg.top_3x3s@.len() as int
    } else {
        0
    }) + (if cfg.use_positional_3x3s {
        cfg.top_3x3s_with_x@.len() + cfg.top_3x3s_with_y@.len()
    } else {
        0
    })
}

/// Width of the feature vector under `cfg`.
pub open spec fn feature_count(cfg: FeatureConfig) -> int {
    10 + 9 + 10 + 20 + 7 + 7 + 7 + 7 + pattern_count(cfg) + 9 + 4 + 3
}

/// The feature vector of every record has the width that the configuration fixes.
pub proof fn lemma_feature_values_len(f: Features, cfg: FeatureConfig)
    ensures
        feature_values(f, cfg).len() == feature_count(cfg),
{
}

/// Appends the entries of an array.
fn push_array<const N: usize>(vals: &mut Vec<i32>, a: &[i32; N])
    ensures
        final(vals)@ == old(vals)@ + a@,
{
    let ghost start = vals@;
    for i in 0..N
        invariant
            vals@ == start + a@.subrange(0, i as int),
    {
        vals.push(a[i]);
        assert(a@.subrange(0, i + 1) =~= a@.subrange(0, i as int).push(a[i as int]));
    }
    assert(a@.subrange(0, N as int) =~= a@);
}

/// Appends the entries of `src` at the listed ids.
fn push_selected(vals: &mut Vec<i32>, src: &Vec<i32>, ids: &Vec<usize>)
    requires
        forall|i: int| 0 <= i < ids.len() ==> #[trigger] ids@[i] < src.len(),
    ensures
        final(vals)@ == old(vals)@ + selected(src@, ids@),
{
    let ghost start = vals@;
    for i in 0..ids.len()
        invariant
            forall|j: int| 0 <= j < ids.len() ==> #[trigger] ids@[j] < src.len(),
            vals@ == start + selected(src@, ids@).subrange(0, i as int),
    {
        vals.push(src[ids[i]]);
        assert(selected(src@, ids@).subrange(0, i + 1) =~= selected(src@, ids@).subrange(
            0,
            i as int,
        ).push(src@[ids@[i as int] as int]));
    }
    assert(selected(src@, ids@).subrange(0, ids.len() as int) =~= selected(src@, ids@));
}

impl Features {
    /// Whether each histogram of the record has an entry for every pattern id.
    pub open spec fn wf(&self) -> bool {
        &&& self.all_3x3s.counts.len() == PATTERN_IDS
        &&& self.all_3x3s.with_x.len() == PATTERN_IDS
        &&& self.all_3x3s.with_y.len() == PATTERN_IDS
    }

    /// Width of the feature vector under `cfg`.
    pub fn count(cfg: &FeatureConfig) -> (r: usize)
        requires
            cfg.top_3x3s.len() + cfg.top_3x3s_with_x.len() + cfg.top_3x3s_with_y.len() <= usize::MAX - 93,
        ensures
            r as int == feature_count(*cfg),
    {
        let mut n: usize = 10 + 9 + 10 + 20 + 7 + 7 + 7 + 7;
        if cfg.use_3x3s {
            n = n + cfg.top_3x3s.len();
        }
        if cfg.use_positional_3x3s {
            n = n + cfg.top_3x3s_with_x.len() + cfg.top_3x3s_with_y.len();
        }
        n + 9 + 4 + 3
    }

    /// The feature vector of this record under `cfg`.
    pub fn values(&self, cfg: &FeatureConfig) -> (r: Vec<i32>)
        requires
            self.wf(),
            cfg.wf(),
        ensures
            r@ == feature_values(*self, *cfg),
    {
        let mut vals: Vec<i32> = Vec::new();
        self.push_profile(&mut vals);
        self.push_patterns(&mut vals, cfg);
        self.push_scalars(&mut vals);
        self.push_tail(&mut vals);
        assert(vals@ =~= feature_values(*self, *cfg));
        vals
    }

    fn push_profile(&self, vals: &mut Vec<i32>)
        ensures
            final(vals)@ == old(vals)@ + profile_values(*self),
    {
        let ghost start = vals@;
        let mut heights = [0i32; 10];
        for i in 0..10
            invariant
                forall|j: int| 0 <= j < i ==> #[trigger] heights[j] == self.heights[j] as i32,
        {
            heights[i] = self.heights[i] as i32;
        }
        assert(heights@ =~= signed_heights(self.heights));
        push_array(vals, &heights);
        push_array(vals, &self.height_differences);
        push_array(vals, &self.first_hole_depths);
        push_array(vals, &self.garbage_holes);
        push_array(vals, &self.piece_distance);
        push_array(vals, &self.piece_counts);
        push_array(vals, &self.hold_or_current_onehot);
        push_array(vals, &self.next_onehot);
        assert(vals@ =~= start + profile_values(*self));
    }

    fn push_patterns(&self, vals: &mut Vec<i32>, cfg: &FeatureConfig)
        requires
            self.wf(),
            cfg.wf(),
        ensures
            final(vals)@ == old(vals)@ + pattern_values(*self, *cfg),
    {
        let ghost start = vals@;
        if cfg.use_3x3s {
            push_selected(vals, &self.all_3x3s.counts, &cfg.top_3x3s);
        }
        if cfg.use_positional_3x3s {
            push_selected(vals, &self.all_3x3s.with_x, &cfg.top_3x3s_with_x);
            push_selected(vals, &self.all_3x3s.with_y, &cfg.top_3x3s_with_y);
        }
        assert(vals@ =~= start + pattern_values(*self, *cfg));
    }

    fn push_scalars(&self, vals: &mut Vec<i32>)
        ensures
            final(vals)@ == old(vals)@ + scalar_values(*self),
    {
        let ghost start = vals@;
        vals.push(self.meter);
        vals.push(self.combo);
        vals.push(self.b2b);
        vals.push(self.sunbeam_max_height as i32);
        vals.push(self.sunbeam_bumpiness);
        vals.push(self.sunbeam_well_x as i32);
        vals.push(self.sunbeam_well_depth);
        vals.push(self.sunbeam_max_donated_height as i32);
        vals.push(self.sunbeam_n_donations);
        assert(vals@ =~= start + scalar_values(*self));
    }

    fn push_tail(&self, vals: &mut Vec<i32>)
        ensures
            final(vals)@ == old(vals)@ + tail_values(*self),
    {
        let ghost start = vals@;
        push_array(vals, &self.sunbeam_t_clears);
        vals.push(self.cc_holes);
        vals.push(self.cc_coveredness);
        vals.push(self.cc_row_transitions);
        assert(vals@ =~= start + tail_values(*self));
    }
}

proof fn lemma_piece_arrays_equal(a: [i32; 7], b: [i32; 7])
    requires
        forall|p: Piece| #[trigger] a[piece_index(p) as int] == b[piece_index(p) as int],
    ensures
        a@ == b@,
{
    assert(a[piece_index(Piece::I) as int] == b[piece_index(Piece::I) as int]);
    assert(a[piece_index(Piece::J) as int] == b[piece_index(Piece::J) as int]);
    assert(a[piece_index(Piece::L) as int] == b[piece_index(Piece::L) as int]);
    assert(a[piece_index(Piece::O) as int] == b[piece_index(Piece::O) as int]);
    assert(a[piece_index(Piece::S) as int] == b[piece_index(Piece::S) as int]);
    assert(a[piece_index(Piece::T) as int] == b[piece_index(Piece::T) as int]);
    assert(a[piece_index(Piece::Z) as int] == b[piece_index(Piece::Z) as int]);
    assert(a@ =~= b@);
}

proof fn lemma_histograms_equal(v: Seq<Seq<bool>>, a: Histograms, b: Histograms)
    requires
        histograms_of(v, 3, 3, a),
        histograms_of(v, 3, 3, b),
    ensures
        a.counts@ == b.counts@,
        a.with_x@ == b.with_x@,
        a.with_y@ == b.with_y@,
{
    assert(a.counts@ =~= b.counts@);
    assert(a.with_x@ =~= b.with_x@);
    assert(a.with_y@ =~= b.with_y@);
}

/// Extraction is deterministic: any two feature records of the same
/// position give the same feature vector.
pub proof fn lemma_extraction_deterministic(g: GameState, f1: Features, f2: Features, cfg: FeatureConfig)
    requires
        features_of(g, f1),
        features_of(g, f2),
    ensures
        feature_values(f1, cfg) == feature_values(f2, cfg),
{
    let (hf1, sf1) = choose|hf: HachiFeatures, sf: StaticFeatures|
        #![trigger hachi_features_of(g, hf), static_features_of(g.board@, sf)]
        hachi_features_of(g, hf) && static_features_of(g.board@, sf) && f1 == combine(hf, sf);
    let (hf2, sf2) = choose|hf: HachiFeatures, sf: StaticFeatures|
        #![trigger hachi_features_of(g, hf), static_features_of(g.board@, sf)]
        hachi_features_of(g, hf) && static_features_of(g.board@, sf) && f2 == combine(hf, sf);
    let v = g.board@;
    assert(f1.heights@ =~= f2.heights@) by {
        assert forall|x: int| 0 <= x < 10 implies f1.heights@[x] == f2.heights@[x] by {
            assert(f1.heights@[x] as int == crate::board::col_height(v[x]));
            assert(f2.heights@[x] as int == crate::board::col_height(v[x]));
        }
    }
    assert(signed_heights(f1.heights) =~= signed_heights(f2.heights));
    assert(f1.height_differences@ =~= f2.height_differences@);
    assert(f1.first_hole_depths@ =~= f2.first_hole_depths@);
    assert(f1.garbage_holes@ =~= f2.garbage_holes@);
    lemma_piece_arrays_equal(f1.piece_distance, f2.piece_distance);
    lemma_piece_arrays_equal(f1.piece_counts, f2.piece_counts);
    lemma_piece_arrays_equal(f1.hold_or_current_onehot, f2.hold_or_current_onehot);
    lemma_piece_arrays_equal(f1.next_onehot, f2.next_onehot);
    lemma_histograms_equal(v, f1.all_3x3s, f2.all_3x3s);
    assert(profile_values(f1) == profile_values(f2));
    assert(pattern_values(f1, cfg) == pattern_values(f2, cfg));
    let w1 = f1.sunbeam_well_x as int;
    let w2 = f2.sunbeam_well_x as int;
    if w1 < w2 {
        assert(crate::static_features::h(v, w2) < crate::static_features::h(v, w1));
    } else if w2 < w1 {
        assert(crate::static_features::h(v, w1) < crate::static_features::h(v, w2));
    }
    assert(scalar_values(f1) =~= scalar_values(f2));
    assert(f1.sunbeam_t_clears@ =~= f2.sunbeam_t_clears@);
    assert(tail_values(f1) =~= tail_values(f2));
}

/// Name of a column: the prefix, an underscore, the feature name, the index
/// numeral when there is one, and the suffix.
pub open spec fn column_name(prefix: Seq<char>, name: Seq<char>, index: Option<usize>, suffix: Seq<char>) -> Seq<char> {
    prefix + seq!['_'] + name + match index {
        Some(i) => decimal(i as nat),
        None => Seq::empty(),
    } + suffix
}

/// Names of the columns of an array feature, indexed `0..n`.
pub open spec fn indexed_names(prefix: Seq<char>, name: Seq<char>, n: nat, suffix: Seq<char>) -> Seq<Seq<char>> {
    Seq::new(n, |i: int| column_name(prefix, name, Some(i as usize), suffix))
}

/// Names of the columns of a whitelisted histogram, indexed by the listed pattern ids.
pub open spec fn listed_names(prefix: Seq<char>, name: Seq<char>, ids: Seq<usize>, suffix: Seq<char>) -> Seq<Seq<char>> {
    Seq::new(ids.len(), |i: int| column_name(prefix, name, Some(ids[i]), suffix))
}

/// Name of the column of a scalar feature.
pub open spec fn scalar_name(prefix: Seq<char>, name: Seq<char>, suffix: Seq<char>) -> Seq<Seq<char>> {
    seq![column_name(prefix, name, None, suffix)]
}

/// Column names of the board profile and queue arrays.
pub open spec fn profile_names(p: Seq<char>, s: Seq<char>) -> Seq<Seq<char>> {
    indexed_names(p, "heights"@, 10, s) + indexed_names(p, "height_differences"@, 9, s)
        + indexed_names(p, "first_hole_depths"@, 10, s) + indexed_names(p, "garbage_holes"@, 20, s)
        + indexed_names(p, "piece_distance"@, 7, s) + indexed_names(p, "piece_counts"@, 7, s)
        + indexed_names(p, "hold_or_current_onehot"@, 7, s) + indexed_names(p, "next_onehot"@, 7, s)
}

/// Column names of the emitted pattern entries.
pub open spec fn pattern_names(p: Seq<char>, cfg: FeatureConfig, s: Seq<char>) -> Seq<Seq<char>> {
    (if cfg.use_3x3s {
        listed_names(p, "all_3x3s"@, cfg.top_3x3s@, s)
    } else {
        Seq::empty()
    }) + (if cfg.use_positional_3x3s {
        listed_names(p, "all_3x3s_with_x"@, cfg.top_3x3s_with_x@, s) + listed_names(
            p,
            "all_3x3s_with_y"@,
            cfg.top_3x3s_with_y@,
            s,
        )
    } else {
        Seq::empty()
    })
}

/// Column names of the scalar features, the clear-count histogram and the
/// hole and transition counts.
pub open spec fn closing_names(p: Seq<char>, s: Seq<char>) -> Seq<Seq<char>> {
    scalar_name(p, "meter"@, s) + scalar_name(p, "combo"@, s) + scalar_name(p, "b2b"@, s)
        + scalar_name(p, "sunbeam_max_height"@, s) + scalar_name(p, "sunbeam_bumpiness"@, s)
        + scalar_name(p, "sunbeam_well_x"@, s) + scalar_name(p, "sunbeam_well_depth"@, s)
        + scalar_name(p, "sunbeam_max_donated_height"@, s) + scalar_name(
        p,
        "sunbeam_n_donations"@,
        s,
    ) + indexed_names(p, "sunbeam_t_clears"@, 4, s) + scalar_name(p, "cc_holes"@, s)
        + scalar_name(p, "cc_coveredness"@, s) + scalar_name(p, "cc_row_transitions"@, s)
}

/// Names of all columns of a player's feature vector, in emission order.
pub open spec fn column_names(p: Seq<char>, cfg: FeatureConfig, s: Seq<char>) -> Seq<Seq<char>> {
    profile_names(p, s) + pattern_names(p, cfg, s) + closing_names(p, s)
}

/// Every player's column list has exactly one name per entry of the
/// feature vector that the same configuration emits.
pub proof fn lemma_columns_match_values(p: Seq<char>, cfg: FeatureConfig, s: Seq<char>, f: Features)
    ensures
        column_names(p, cfg, s).len() == feature_count(cfg),
        column_names(p, cfg, s).len() == feature_values(f, cfg).len(),
{
}

/// The column type text that follows each name when types are included.
pub open spec fn type_suffix(include_types: bool) -> Seq<char> {
    if include_types {
        " INTEGER NOT NULL"@
    } else {
        ""@
    }
}

/// Appends one column name to the list in `out`.
fn add_column(
    out: &mut String,
    done: Ghost<Seq<Seq<char>>>,
    first: bool,
    prefix: &str,
    name: &str,
    index: Option<usize>,
    suffix: &str,
)
    requires
        old(out)@ == join(done@),
        first == (done@.len() == 0),
    ensures
        final(out)@ == join(done@.push(column_name(prefix@, name@, index, suffix@))),
{
    let ghost start = out@;
    push_separator(out, first);
    let ghost sep = out@;
    out.append(prefix);
    out.append("_");
    out.append(name);
    let ghost before_index = out@;
    match index {
        Some(i) => push_decimal(out, i),
        None => {},
    }
    let ghost after_index = out@;
    out.append(suffix);
    proof {
        reveal_strlit("_");
        lemma_join_push(done@, column_name(prefix@, name@, index, suffix@));
        assert(after_index =~= before_index + match index {
            Some(i) => decimal(i as nat),
            None => Seq::<char>::empty(),
        });
        assert(out@ =~= sep + column_name(prefix@, name@, index, suffix@));
    }
}

/// Appends the names of an array feature's columns, indexed `0..n`.
fn add_indexed(
    out: &mut String,
    done: Ghost<Seq<Seq<char>>>,
    first: bool,
    prefix: &str,
    name: &str,
    n: usize,
    suffix: &str,
)
    requires
        old(out)@ == join(done@),
        first == (done@.len() == 0),
        n > 0,
    ensures
        final(out)@ == join(done@ + indexed_names(prefix@, name@, n as nat, suffix@)),
{
    assert(done@ + indexed_names(prefix@, name@, 0, suffix@) =~= done@);
    for i in 0..n
        invariant
            first == (done@.len() == 0),
            out@ == join(done@ + indexed_names(prefix@, name@, i as nat, suffix@)),
    {
        let ghost so_far = done@ + indexed_names(prefix@, name@, i as nat, suffix@);
        add_column(out, Ghost(so_far), first && i == 0, prefix, name, Some(i), suffix);
        assert(so_far.push(column_name(prefix@, name@, Some(i), suffix@)) =~= done@
            + indexed_names(prefix@, name@, (i + 1) as nat, suffix@));
    }
}

/// Appends the names of a whitelisted histogram's columns, one per listed id.
fn add_listed(
    out: &mut String,
    done: Ghost<Seq<Seq<char>>>,
    first: bool,
    prefix: &str,
    name: &str,
    ids: &Vec<usize>,
    suffix: &str,
)
    requires
        old(out)@ == join(done@),
        first == (done@.len() == 0),
    ensures
        final(out)@ == join(done@ + listed_names(prefix@, name@, ids@, suffix@)),
{
    assert(done@ + listed_names(prefix@, name@, ids@.subrange(0, 0), suffix@) =~= done@);
    for i in 0..ids.len()
        invariant
            first == (done@.len() == 0),
            out@ == join(done@ + listed_names(prefix@, name@, ids@.subrange(0, i as int), suffix@)),
    {
        let ghost so_far = done@ + listed_names(prefix@, name@, ids@.subrange(0, i as int), suffix@);
        add_column(out, Ghost(so_far), first && i == 0, prefix, name, Some(ids[i]), suffix);
        assert(so_far.push(column_name(prefix@, name@, Some(ids@[i as int]), suffix@)) =~= done@
            + listed_names(prefix@, name@, ids@.subrange(0, i + 1), suffix@));
    }
    assert(ids@.subrange(0, ids@.len() as int) =~= ids@);
}

/// Appends the name of a scalar feature's column.
fn add_scalar(out: &mut String, done: Ghost<Seq<Seq<char>>>, prefix: &str, name: &str, suffix: &str)
    requires
        old(out)@ == join(done@),
        done@.len() > 0,
    ensures
        final(out)@ == join(done@ + scalar_name(prefix@, name@, suffix@)),
{
    add_column(out, done, false, prefix, name, None, suffix);
    assert(done@.push(column_name(prefix@, name@, None, suffix@)) =~= done@ + scalar_name(
        prefix@,
        name@,
        suffix@,
    ));
}

fn add_profile_columns(out: &mut String, prefix: &str, suffix: &str)
    requires
        old(out)@ == Seq::<char>::empty(),
    ensures
        final(out)@ == join(profile_names(prefix@, suffix@)),
{
    let p = prefix;
    let s = suffix;
    let ghost e = Seq::<Seq<char>>::empty();
    let ghost d0 = e + indexed_names(p@, "heights"@, 10, s@);
    let ghost d1 = d0 + indexed_names(p@, "height_differences"@, 9, s@);
    let ghost d2 = d1 + indexed_names(p@, "first_hole_depths"@, 10, s@);
    let ghost d3 = d2 + indexed_names(p@, "garbage_holes"@, 20, s@);
    let ghost d4 = d3 + indexed_names(p@, "piece_distance"@, 7, s@);
    let ghost d5 = d4 + indexed_names(p@, "piece_counts"@, 7, s@);
    let ghost d6 = d5 + indexed_names(p@, "hold_or_current_onehot"@, 7, s@);
    add_indexed(out, Ghost(e), true, p, "heights", 10, s);
    add_indexed(out, Ghost(d0), false, p, "height_differences", 9, s);
    add_indexed(out, Ghost(d1), false, p, "first_hole_depths", 10, s);
    add_indexed(out, Ghost(d2), false, p, "garbage_holes", 20, s);
    add_indexed(out, Ghost(d3), false, p, "piece_distance", 7, s);
    add_indexed(out, Ghost(d4), false, p, "piece_counts", 7, s);
    add_indexed(out, Ghost(d5), false, p, "hold_or_current_onehot", 7, s);
    add_indexed(out, Ghost(d6), false, p, "next_onehot", 7, s);
    assert(d6 + indexed_names(p@, "next_onehot"@, 7, s@) =~= profile_names(p@, s@));
}

fn add_pattern_columns(
    out: &mut String,
    done: Ghost<Seq<Seq<char>>>,
    prefix: &str,
    cfg: &FeatureConfig,
    suffix: &str,
)
    requires
        old(out)@ == join(done@),
        done@.len() > 0,
    ensures
        final(out)@ == join(done@ + pattern_names(prefix@, *cfg, suffix@)),
{
    let ghost d0 = done@ + if cfg.use_3x3s {
        listed_names(prefix@, "all_3x3s"@, cfg.top_3x3s@, suffix@)
    } else {
        Seq::empty()
    };
    if cfg.use_3x3s {
        add_listed(out, done, false, prefix, "all_3x3s", &cfg.top_3x3s, suffix);
    } else {
        assert(done@ + Seq::<Seq<char>>::empty() =~= done@);
    }
    if cfg.use_positional_3x3s {
        let ghost d1 = d0 + listed_names(prefix@, "all_3x3s_with_x"@, cfg.top_3x3s_with_x@, suffix@);
        add_listed(out, Ghost(d0), false, prefix, "all_3x3s_with_x", &cfg.top_3x3s_with_x, suffix);
        add_listed(out, Ghost(d1), false, prefix, "all_3x3s_with_y", &cfg.top_3x3s_with_y, suffix);
    } else {
        assert(d0 + Seq::<Seq<char>>::empty() =~= d0);
    }
    assert(done@ + pattern_names(prefix@, *cfg, suffix@) =~= if cfg.use_positional_3x3s {
        d0 + listed_names(prefix@, "all_3x3s_with_x"@, cfg.top_3x3s_with_x@, suffix@)
            + listed_names(prefix@, "all_3x3s_with_y"@, cfg.top_3x3s_with_y@, suffix@)
    } else {
        d0
    });
}

fn add_closing_columns(out: &mut String, done: Ghost<Seq<Seq<char>>>, prefix: &str, suffix: &str)
    requires
        old(out)@ == join(done@),
        done@.len() > 0,
    ensures
        final(out)@ == join(done@ + closing_names(prefix@, suffix@)),
{
    let p = prefix;
    let s = suffix;
    let ghost d0 = done@ + scalar_name(p@, "meter"@, s@);
    let ghost d1 = d0 + scalar_name(p@, "combo"@, s@);
    let ghost d2 = d1 + scalar_name(p@, "b2b"@, s@);
    let ghost d3 = d2 + scalar_name(p@, "sunbeam_max_height"@, s@);
    let ghost d4 = d3 + scalar_name(p@, "sunbeam_bumpiness"@, s@);
    let ghost d5 = d4 + scalar_name(p@, "sunbeam_well_x"@, s@);
    let ghost d6 = d5 + scalar_name(p@, "sunbeam_well_depth"@, s@);
    let ghost d7 = d6 + scalar_name(p@, "sunbeam_max_donated_height"@, s@);
    let ghost d8 = d7 + scalar_name(p@, "sunbeam_n_donations"@, s@);
    let ghost d9 = d8 + indexed_names(p@, "sunbeam_t_clears"@, 4, s@);
    let ghost d10 = d9 + scalar_name(p@, "cc_holes"@, s@);
    let ghost d11 = d10 + scalar_name(p@, "cc_coveredness"@, s@);
    add_scalar(out, done, p, "meter", s);
    add_scalar(out, Ghost(d0), p, "combo", s);
    add_scalar(out, Ghost(d1), p, "b2b", s);
    add_scalar(out, Ghost(d2), p, "sunbeam_max_height", s);
    add_scalar(out, Ghost(d3), p, "sunbeam_bumpiness", s);
    add_scalar(out, Ghost(d4), p, "sunbeam_well_x", s);
    add_scalar(out, Ghost(d5), p, "sunbeam_well_depth", s);
    add_scalar(out, Ghost(d6), p, "sunbeam_max_donated_height", s);
    add_scalar(out, Ghost(d7), p, "sunbeam_n_donations", s);
    add_indexed(out, Ghost(d8), false, p, "sunbeam_t_clears", 4, s);
    add_scalar(out, Ghost(d9), p, "cc_holes", s);
    add_scalar(out, Ghost(d10), p, "cc_coveredness", s);
    add_scalar(out, Ghost(d11), p, "cc_row_transitions", s);
    assert(d11 + scalar_name(p@, "cc_row_transitions"@, s@) =~= done@ + closing_names(p@, s@));
}

impl Features {
    /// The column names of a player's feature vector, prefixed by `prefix`
    /// and separated by a comma and a space.
    pub fn sql_columns(prefix: &str, cfg: &FeatureConfig) -> (r: String)
        ensures
            r@ == join(column_names(prefix@, *cfg, type_suffix(false))),
    {
        Self::sql_columns_with_options(prefix, false, cfg)
    }

    /// The column names of a player's feature vector, each followed by its
    /// column type.
    pub fn sql_columns_with_types(prefix: &str, cfg: &FeatureConfig) -> (r: String)
        ensures
            r@ == join(column_names(prefix@, *cfg, type_suffix(true))),
    {
        Self::sql_columns_with_options(prefix, true, cfg)
    }

    /// The column names of a player's feature vector, `{prefix}_{feature}{index}`,
    /// each followed by its column type when `include_types` holds.
    pub fn sql_columns_with_options(prefix: &str, include_types: bool, cfg: &FeatureConfig) -> (r: String)
        ensures
            r@ == join(column_names(prefix@, *cfg, type_suffix(include_types))),
    {
        let suffix = if include_types {
            " INTEGER NOT NULL"
        } else {
            ""
        };
        let mut out = String::new();
        add_profile_columns(&mut out, prefix, suffix);
        let ghost d0 = profile_names(prefix@, suffix@);
        add_pattern_columns(&mut out, Ghost(d0), prefix, cfg, suffix);
        let ghost d1 = d0 + pattern_names(prefix@, *cfg, suffix@);
        add_closing_columns(&mut out, Ghost(d1), prefix, suffix);
        assert(d1 + closing_names(prefix@, suffix@) =~= column_names(prefix@, *cfg, suffix@));
        out
    }

    /// One `?` placeholder per column of a player's feature vector,
    /// separated by a comma and a space.
    pub fn sql_placeholders(cfg: &FeatureConfig) -> (r: String)
        requires
            cfg.top_3x3s.len() + cfg.top_3x3s_with_x.len() + cfg.top_3x3s_with_y.len() <= usize::MAX - 93,
        ensures
            r@ == join(Seq::new(feature_count(*cfg) as nat, |i: int| seq!['?'])),
    {
        let n = Self::count(cfg);
        let mut out = String::new();
        for i in 0..n
            invariant
                out@ == join(Seq::new(i as nat, |j: int| seq!['?'])),
        {
            push_separator(&mut out, i == 0);
            out.append("?");
            proof {
                reveal_strlit("?");
                let before = Seq::new(i as nat, |j: int| seq!['?']);
                lemma_join_push(before, seq!['?']);
                assert(before.push(seq!['?']) =~= Seq::new((i + 1) as nat, |j: int| seq!['?']));
            }
        }
        out
    }
}

} // verus!
