//! Publish-orchestration engine for a video-catalog uploader.
//!
//! The library computes publish timestamps from scheduling modes, derives
//! canonical metadata (title, episode number, tags) from user input and
//! filename conventions, validates thumbnail caption layout, and models the
//! read-merge-write and pagination protocols of the remote catalog service.
//! Network and file I/O live outside the library; every function here is
//! verified against its contract.

pub mod calendar;
pub mod date_compute;
pub mod error;
pub mod options;
pub mod strutil;
pub mod thumbnail;
pub mod youtube;

use vstd::prelude::*;

verus! {

/// The publish timestamps this library emits use a four-digit year, so the
/// calendar model stops at the last day it can print.
pub const MAX_YEAR: u32 = 9999;

} // verus!
