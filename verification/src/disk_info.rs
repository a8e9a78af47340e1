use vstd::prelude::*;
use vstd::string::StringSliceAdditionalSpecFns;

verus! {

use crate::text::{spec_parse_i64, spec_tokens, tokenize_ws};

// ---------------------------------------------------------------------------
// Host disk counters: one device line of the kernel's diskstats file.
// ---------------------------------------------------------------------------

/// Size in bytes of one kernel I/O sector.
pub const SECTOR_SIZE: i64 = 512;

#[derive(Debug, Clone, PartialEq)]
pub enum DiskInfoError {
    IOError(String),
    EntryNotFound(String),
    InvalidEntry(String),
}

/// One reading of a block device's I/O counters, in the order the kernel
/// reports them after the device identification.
#[derive(Debug, Clone, Copy, PartialEq)]
pub struct DiskInfo {
    pub reads_completed: i64,
    pub reads_merged: i64,
    pub sectors_read: i64,
    pub milliseconds_spent_reading: i64,
    pub writes_completed: i64,
    pub writes_merged: i64,
    pub sectors_written: i64,
    pub milliseconds_spent_writing: i64,
    pub ios_in_progress: i64,
    pub milliseconds_spent_ios: i64,
    pub weighted_milliseconds_spent_ios: i64,
    pub discards_completed: i64,
    pub discards_merged: i64,
    pub sectors_discarted: i64,
    pub flush_requests_completed: i64,
    pub milliseconds_spent_flushing: i64,
}

/// Whether a diskstats line carries the sixteen counters: the three
/// device-identification tokens followed by sixteen parseable numbers.
pub open spec fn spec_disk_line_ok(toks: Seq<Seq<u8>>) -> bool {
    &&& toks.len() >= 19
    &&& forall|j: int| 3 <= j < 19 ==> #[trigger] crate::cpu_info::tok_i64(toks, j) is Some
}

impl DiskInfo {
    /// Parses one diskstats line: the first three tokens identify the
    /// device and are skipped, the next sixteen are the counters.
    pub fn parse(s: &str) -> (r: Result<DiskInfo, DiskInfoError>)
        ensures
            r is Ok <==> spec_disk_line_ok(spec_tokens(s.spec_bytes())),
            r is Ok ==> {
                let toks = spec_tokens(s.spec_bytes());
                let d = r.unwrap();
                &&& d.reads_completed == crate::cpu_info::tok_i64(toks, 3).unwrap()
                &&& d.reads_merged == crate::cpu_info::tok_i64(toks, 4).unwrap()
                &&& d.sectors_read == crate::cpu_info::tok_i64(toks, 5).unwrap()
                &&& d.milliseconds_spent_reading == crate::cpu_info::tok_i64(toks, 6).unwrap()
                &&& d.writes_completed == crate::cpu_info::tok_i64(toks, 7).unwrap()
                &&& d.writes_merged == crate::cpu_info::tok_i64(toks, 8).unwrap()
                &&& d.sectors_written == crate::cpu_info::tok_i64(toks, 9).unwrap()
                &&& d.milliseconds_spent_writing == crate::cpu_info::tok_i64(toks, 10).unwrap()
                &&& d.ios_in_progress == crate::cpu_info::tok_i64(toks, 11).unwrap()
                &&& d.milliseconds_spent_ios == crate::cpu_info::tok_i64(toks, 12).unwrap()
                &&& d.weighted_milliseconds_spent_ios == crate::cpu_info::tok_i64(
                    toks,
                    13,
                ).unwrap()
                &&& d.discards_completed == crate::cpu_info::tok_i64(toks, 14).unwrap()
                &&& d.discards_merged == crate::cpu_info::tok_i64(toks, 15).unwrap()
                &&& d.sectors_discarted == crate::cpu_info::tok_i64(toks, 16).unwrap()
                &&& d.flush_requests_completed == crate::cpu_info::tok_i64(toks, 17).unwrap()
                &&& d.milliseconds_spent_flushing == crate::cpu_info::tok_i64(toks, 18).unwrap()
            },
    {
        let tokens = tokenize_ws(s.as_bytes());
        proof {
            assert(tokens@.map_values(|v: Vec<u8>| v@) =~= spec_tokens(s.spec_bytes()));
        }
        Ok(
            DiskInfo {
                reads_completed: parse_token(&tokens, 3, "reads_completed")?,
                reads_merged: parse_token(&tokens, 4, "reads_merged")?,
                sectors_read: parse_token(&tokens, 5, "sectors_read")?,
                milliseconds_spent_reading: parse_token(
                    &tokens,
                    6,
                    "milliseconds_spent_reading",
                )?,
                writes_completed: parse_token(&tokens, 7, "writes_completed")?,
                writes_merged: parse_token(&tokens, 8, "writes_merged")?,
                sectors_written: parse_token(&tokens, 9, "sectors_written")?,
                milliseconds_spent_writing: parse_token(
                    &tokens,
                    10,
                    "milliseconds_spent_writing",
                )?,
                ios_in_progress: parse_token(&tokens, 11, "ios_in_progress")?,
                milliseconds_spent_ios: parse_token(&tokens, 12, "milliseconds_spent_ios")?,
                weighted_milliseconds_spent_ios: parse_token(
                    &tokens,
                    13,
                    "weighted_milliseconds_spent_ios",
                )?,
                discards_completed: parse_token(&tokens, 14, "discards_completed")?,
                discards_merged: parse_token(&tokens, 15, "discards_merged")?,
                sectors_discarted: parse_token(&tokens, 16, "sectors_discarted")?,
                flush_requests_completed: parse_token(&tokens, 17, "flush_requests_completed")?,
                milliseconds_spent_flushing: parse_token(
                    &tokens,
                    18,
                    "milliseconds_spent_flushing",
                )?,
            },
        )
    }

    /// All counter differences stay within the machine integer range.
    pub open spec fn can_sub(self, rhs: DiskInfo) -> bool {
        &&& i64::MIN <= self.reads_completed - rhs.reads_completed <= i64::MAX
        &&& i64::MIN <= self.reads_merged - rhs.reads_merged <= i64::MAX
        &&& i64::MIN <= self.sectors_read - rhs.sectors_read <= i64::MAX
        &&& i64::MIN <= self.milliseconds_spent_reading - rhs.milliseconds_spent_reading
            <= i64::MAX
        &&& i64::MIN <= self.writes_completed - rhs.writes_completed <= i64::MAX
        &&& i64::MIN <= self.writes_merged - rhs.writes_merged <= i64::MAX
        &&& i64::MIN <= self.sectors_written - rhs.sectors_written <= i64::MAX
        &&& i64::MIN <= self.milliseconds_spent_writing - rhs.milliseconds_spent_writing
            <= i64::MAX
        &&& i64::MIN <= self.ios_in_progress - rhs.ios_in_progress <= i64::MAX
        &&& i64::MIN <= self.milliseconds_spent_ios - rhs.milliseconds_spent_ios <= i64::MAX
        &&& i64::MIN <= self.weighted_milliseconds_spent_ios - rhs.weighted_milliseconds_spent_ios
            <= i64::MAX
        &&& i64::MIN <= self.discards_completed - rhs.discards_completed <= i64::MAX
        &&& i64::MIN <= self.discards_merged - rhs.discards_merged <= i64::MAX
        &&& i64::MIN <= self.sectors_discarted - rhs.sectors_discarted <= i64::MAX
        &&& i64::MIN <= self.flush_requests_completed - rhs.flush_requests_completed <= i64::MAX
        &&& i64::MIN <= self.milliseconds_spent_flushing - rhs.milliseconds_spent_flushing
            <= i64::MAX
    }

    /// All sixteen counter deltas, fieldwise.
    pub open spec fn spec_sub(self, rhs: DiskInfo) -> DiskInfo {
        DiskInfo {
            reads_completed: (self.reads_completed - rhs.reads_completed) as i64,
            reads_merged: (self.reads_merged - rhs.reads_merged) as i64,
            sectors_read: (self.sectors_read - rhs.sectors_read) as i64,
            milliseconds_spent_reading: (self.milliseconds_spent_reading
                - rhs.milliseconds_spent_reading) as i64,
            writes_completed: (self.writes_completed - rhs.writes_completed) as i64,
            writes_merged: (self.writes_merged - rhs.writes_merged) as i64,
            sectors_written: (self.sectors_written - rhs.sectors_written) as i64,
            milliseconds_spent_writing: (self.milliseconds_spent_writing
                - rhs.milliseconds_spent_writing) as i64,
            ios_in_progress: (self.ios_in_progress - rhs.ios_in_progress) as i64,
            milliseconds_spent_ios: (self.milliseconds_spent_ios
                - rhs.milliseconds_spent_ios) as i64,
            weighted_milliseconds_spent_ios: (self.weighted_milliseconds_spent_ios
                - rhs.weighted_milliseconds_spent_ios) as i64,
            discards_completed: (self.discards_completed - rhs.discards_completed) as i64,
            discards_merged: (self.discards_merged - rhs.discards_merged) as i64,
            sectors_discarted: (self.sectors_discarted - rhs.sectors_discarted) as i64,
            flush_requests_completed: (self.flush_requests_completed
                - rhs.flush_requests_completed) as i64,
            milliseconds_spent_flushing: (self.milliseconds_spent_flushing
                - rhs.milliseconds_spent_flushing) as i64,
        }
    }

    /// The counter deltas between two readings.
    pub fn sub(self, rhs: DiskInfo) -> (r: DiskInfo)
        requires
            self.can_sub(rhs),
        ensures
            r == self.spec_sub(rhs),
    {
        DiskInfo {
            reads_completed: self.reads_completed - rhs.reads_completed,
            reads_merged: self.reads_merged - rhs.reads_merged,
            sectors_read: self.sectors_read - rhs.sectors_read,
            milliseconds_spent_reading: self.milliseconds_spent_reading
                - rhs.milliseconds_spent_reading,
            writes_completed: self.writes_completed - rhs.writes_completed,
            writes_merged: self.writes_merged - rhs.writes_merged,
            sectors_written: self.sectors_written - rhs.sectors_written,
            milliseconds_spent_writing: self.milliseconds_spent_writing
                - rhs.milliseconds_spent_writing,
            ios_in_progress: self.ios_in_progress - rhs.ios_in_progress,
            milliseconds_spent_ios: self.milliseconds_spent_ios - rhs.milliseconds_spent_ios,
            weighted_milliseconds_spent_ios: self.weighted_milliseconds_spent_ios
                - rhs.weighted_milliseconds_spent_ios,
            discards_completed: self.discards_completed - rhs.discards_completed,
            discards_merged: self.discards_merged - rhs.discards_merged,
            sectors_discarted: self.sectors_discarted - rhs.sectors_discarted,
            flush_requests_completed: self.flush_requests_completed
                - rhs.flush_requests_completed,
            milliseconds_spent_flushing: self.milliseconds_spent_flushing
                - rhs.milliseconds_spent_flushing,
        }
    }
}

/// Parses the counter named `entry_name` at token position `i`.
fn parse_token(tokens: &Vec<Vec<u8>>, i: usize, entry_name: &str) -> (r: Result<
    i64,
    DiskInfoError,
>)
    ensures
        r is Ok <==> crate::cpu_info::tok_i64(tokens@.map_values(|v: Vec<u8>| v@), i as int)
            is Some,
        r is Ok ==> r.unwrap() == crate::cpu_info::tok_i64(
            tokens@.map_values(|v: Vec<u8>| v@),
            i as int,
        ).unwrap(),
{
    if i >= tokens.len() {
        return Err(DiskInfoError::EntryNotFound(entry_name.to_owned()));
    }
    proof {
        assert(tokens@.map_values(|v: Vec<u8>| v@)[i as int] == tokens@[i as int]@);
    }
    match crate::text::parse_i64_on_bytes(tokens[i].as_slice()) {
        Some(v) => Ok(v),
        None => Err(DiskInfoError::InvalidEntry(entry_name.to_owned())),
    }
}

} // verus!
