use vstd::prelude::*;

verus! {

use crate::cpu_info::{CpuInfo, CpuInfoError};
use crate::disk_info::{DiskInfo, DiskInfoError};
use crate::mem_info::{MemInfo, MemInfoError};
use crate::net_info::{NetInfo, NetInfoError};

// ---------------------------------------------------------------------------
// Host resource aggregation: one combined reading of all four counters.
// ---------------------------------------------------------------------------

#[derive(Debug, Clone, PartialEq)]
pub enum ApplicationError {
    CpuInfoError(CpuInfoError),
    NetInfoError(NetInfoError),
    MemInfoError(MemInfoError),
    DiskInfoError(DiskInfoError),
    TimeError(String),
}

/// One combined host reading: the counter deltas of two spaced samples
/// for the rate-like sources, and the instantaneous memory reading.
#[derive(Debug, PartialEq)]
pub struct ResourceInfo {
    /// When the reading was taken, milliseconds since the epoch.
    pub timestamp_millis: u64,
    pub cpu_info: Result<CpuInfo, CpuInfoError>,
    pub net_info: Result<NetInfo, NetInfoError>,
    pub disk_info: Result<DiskInfo, DiskInfoError>,
    pub mem_info: Result<MemInfo, MemInfoError>,
}

/// The difference of two spaced CPU readings: the full fieldwise delta
/// where both succeeded, otherwise the failure (the earlier reading's
/// error when both failed).
pub open spec fn spec_diff_cpu(
    second: Result<CpuInfo, CpuInfoError>,
    first: Result<CpuInfo, CpuInfoError>,
) -> Result<CpuInfo, CpuInfoError> {
    if second is Ok && first is Ok {
        Ok(second.unwrap().spec_sub(first.unwrap()))
    } else if second is Err && first is Ok {
        Err(second.unwrap_err())
    } else {
        Err(first.unwrap_err())
    }
}

/// Combines two spaced CPU readings into their delta.
pub fn diff_cpu_results(
    second: Result<CpuInfo, CpuInfoError>,
    first: Result<CpuInfo, CpuInfoError>,
) -> (r: Result<CpuInfo, CpuInfoError>)
    requires
        second is Ok && first is Ok ==> second.unwrap().can_sub(first.unwrap()),
    ensures
        r == spec_diff_cpu(second, first),
{
    match (second, first) {
        (Ok(a), Ok(b)) => Ok(a.sub(b)),
        (Err(c), Ok(_)) => Err(c),
        (Ok(_), Err(b)) => Err(b),
        (Err(_), Err(b)) => Err(b),
    }
}

/// As `spec_diff_cpu`, for network readings.
pub open spec fn spec_diff_net(
    second: Result<NetInfo, NetInfoError>,
    first: Result<NetInfo, NetInfoError>,
) -> Result<NetInfo, NetInfoError> {
    if second is Ok && first is Ok {
        Ok(second.unwrap().spec_sub(first.unwrap()))
    } else if second is Err && first is Ok {
        Err(second.unwrap_err())
    } else {
        Err(first.unwrap_err())
    }
}

/// As `diff_cpu_results`, for network readings.
pub fn diff_net_results(
    second: Result<NetInfo, NetInfoError>,
    first: Result<NetInfo, NetInfoError>,
) -> (r: Result<NetInfo, NetInfoError>)
    requires
        second is Ok && first is Ok ==> second.unwrap().can_sub(first.unwrap()),
    ensures
        r == spec_diff_net(second, first),
{
    match (second, first) {
        (Ok(a), Ok(b)) => Ok(a.sub(b)),
        (Err(c), Ok(_)) => Err(c),
        (Ok(_), Err(b)) => Err(b),
        (Err(_), Err(b)) => Err(b),
    }
}

/// As `spec_diff_cpu`, for disk readings.
pub open spec fn spec_diff_disk(
    second: Result<DiskInfo, DiskInfoError>,
    first: Result<DiskInfo, DiskInfoError>,
) -> Result<DiskInfo, DiskInfoError> {
    if second is Ok && first is Ok {
        Ok(second.unwrap().spec_sub(first.unwrap()))
    } else if second is Err && first is Ok {
        Err(second.unwrap_err())
    } else {
        Err(first.unwrap_err())
    }
}

/// As `diff_cpu_results`, for disk readings.
pub fn diff_disk_results(
    second: Result<DiskInfo, DiskInfoError>,
    first: Result<DiskInfo, DiskInfoError>,
) -> (r: Result<DiskInfo, DiskInfoError>)
    requires
        second is Ok && first is Ok ==> second.unwrap().can_sub(first.unwrap()),
    ensures
        r == spec_diff_disk(second, first),
{
    match (second, first) {
        (Ok(a), Ok(b)) => Ok(a.sub(b)),
        (Err(c), Ok(_)) => Err(c),
        (Ok(_), Err(b)) => Err(b),
        (Err(_), Err(b)) => Err(b),
    }
}

/// Builds the combined reading out of two spaced sample sets: rate-like
/// counters as deltas, memory as the second instantaneous reading.
pub fn combine_info(
    timestamp_millis: u64,
    cpu_first: Result<CpuInfo, CpuInfoError>,
    cpu_second: Result<CpuInfo, CpuInfoError>,
    net_first: Result<NetInfo, NetInfoError>,
    net_second: Result<NetInfo, NetInfoError>,
    disk_first: Result<DiskInfo, DiskInfoError>,
    disk_second: Result<DiskInfo, DiskInfoError>,
    mem_info: Result<MemInfo, MemInfoError>,
) -> (r: ResourceInfo)
    requires
        cpu_second is Ok && cpu_first is Ok ==> cpu_second.unwrap().can_sub(cpu_first.unwrap()),
        net_second is Ok && net_first is Ok ==> net_second.unwrap().can_sub(net_first.unwrap()),
        disk_second is Ok && disk_first is Ok ==> disk_second.unwrap().can_sub(
            disk_first.unwrap(),
        ),
    ensures
        r.timestamp_millis == timestamp_millis,
        r.mem_info == mem_info,
        r.cpu_info == spec_diff_cpu(cpu_second, cpu_first),
        r.net_info == spec_diff_net(net_second, net_first),
        r.disk_info == spec_diff_disk(disk_second, disk_first),
{
    ResourceInfo {
        timestamp_millis,
        cpu_info: diff_cpu_results(cpu_second, cpu_first),
        net_info: diff_net_results(net_second, net_first),
        disk_info: diff_disk_results(disk_second, disk_first),
        mem_info,
    }
}

} // verus!
