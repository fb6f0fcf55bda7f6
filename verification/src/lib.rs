//! Directory scan pipeline: records for a directory's immediate children are
//! collected, ordered deterministically (directories first, then by name),
//! split into bounded batches, and laid out as an event sequence ending in a
//! completion marker, with periodic progress ticks along the way.

pub mod error;
pub mod events;
pub mod order;
pub mod record;
pub mod sort;

use vstd::prelude::*;

verus! {

/// Largest number of records that one batch event may carry.
pub const BATCH_SIZE: usize = 250;

/// A progress event is due after every this many entries processed.
pub const PROGRESS_INTERVAL: usize = 250;

} // verus!
