use vstd::prelude::*;

pub mod store;
pub mod text;
pub mod usage;
pub mod downsample;
pub mod timefmt;
pub mod cache;
pub mod jsonfmt;
pub mod query;
pub mod collector;
pub mod adapter;
pub mod cpu_info;
pub mod mem_info;
pub mod disk_info;
pub mod net_info;
pub mod watch;
pub mod resource;
pub mod logline;

verus! {

/// Fixed capacity of every per-container metric history: 24 hours of
/// samples at one sample every ten seconds.
pub const MAX_LOG_LENGTH: usize = 8640;

} // verus!
