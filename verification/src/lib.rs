//! Verified core of a map-tile flight viewer: the tile grid and viewport
//! math, the tile-coordinate codec, the disk-cache staleness rules, the
//! weather-index state machine, and the fetch pipeline's cache state.
//!
//! World positions are held in fixed-point form: one world width is
//! `1 << 32` units, so a `u64` or `i64` coordinate carries the fraction a
//! renderer needs without floating point.

use vstd::prelude::*;

pub mod backend;
pub mod disk_cache;
pub mod perf;
pub mod pipeline;
pub mod plane;
pub mod profiler;
pub mod strfmt;
pub mod tile;
pub mod view;
pub mod weather;

verus! {

/// Tiles are never requested above this zoom level.
pub const MAX_ZOOM_LEVEL: u32 = 20;

} // verus!
