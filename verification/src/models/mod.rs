//! The classifier packs' plain-valued logic.

pub mod forest;
pub mod metrics;
