//! Constants of the program.

use vstd::prelude::*;

verus! {

pub const ANIME_PER_PAGE: usize = 50;

pub const SECONDS_IN_MINUTES: i32 = 60;

pub const DEFAULT_HIGHLIGHT_COLOR: &'static str = "rgb(96, 217, 236)";

pub const ANIME_UPDATE_DELAY: u64 = 5;

/// A file counts as an episode of an anime when its title is more alike than
/// `SIMILARITY_THRESHOLD_NUMERATOR / SIMILARITY_THRESHOLD_DENOMINATOR`.
pub const SIMILARITY_THRESHOLD_NUMERATOR: u64 = 4;

pub const SIMILARITY_THRESHOLD_DENOMINATOR: u64 = 5;

pub const STARTUP_SCAN_DELAY: u64 = 30;

pub const ONE_HOUR: u64 = 3600;

pub const BROWSE_PAGE_LIMIT: i32 = 4;

} // verus!
