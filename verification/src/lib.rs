//! Station timetable aggregation for a metro dashboard.
//!
//! The crate resolves a free-text station query to a canonical stop,
//! groups predicted arrivals by line and platform, derives per-line
//! route geometry for rendering, and caches the assembled snapshot
//! for the lifetime of the process.

pub mod model;
pub mod order;
pub mod grouping;
pub mod geometry;
pub mod snapshot;
pub mod cache;
pub mod session;
pub mod laws;
