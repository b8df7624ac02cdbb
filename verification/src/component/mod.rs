//! Components: read-only projections of a timer for a front-end to show.

pub mod title;
