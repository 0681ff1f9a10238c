//! Feature extraction for recorded two-player block-stacking games.
//!
//! A board is ten bit-packed columns; the modules below turn a board and a
//! game-state snapshot into fixed-width integer feature vectors.

pub mod attribute_finder;
pub mod board;
pub mod feature_extractor;
pub mod game;
pub mod hachi;
pub mod patterns;
pub mod records;
pub mod static_features;
pub mod text;
