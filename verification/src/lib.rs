//! Verified core of the Doodle Jump AI playground: render statistics, asset
//! identifiers and paths, the texture bookkeeping, UI anchoring and the
//! small decisions taken by the game front ends.

pub mod render;
pub mod render_log;
pub mod stats;
pub mod assets;
pub mod game;
pub mod ui;
