use vstd::prelude::*;
use vstd::string::StringSliceAdditionalSpecFns;

verus! {

use crate::text::{spec_parse_i64, spec_tokens, tokenize_ws};

// ---------------------------------------------------------------------------
// Host CPU counters: the aggregate line of the kernel's stat file.
// ---------------------------------------------------------------------------

#[derive(Debug, Clone, PartialEq)]
pub enum CpuInfoError {
    IOError(String),
    EntryNotFound(String),
    InvalidEntry(String),
}

/// One reading of the aggregate CPU time counters.  The later fields
/// appeared in newer kernels and may be missing from older stat lines.
#[derive(Debug, Clone, Copy, PartialEq)]
pub struct CpuInfo {
    pub user: i64,
    pub nice: i64,
    pub system: i64,
    pub idle: i64,
    pub iowait: Option<i64>,
    pub irq: Option<i64>,
    pub softirq: Option<i64>,
    pub steal: Option<i64>,
    pub guest: Option<i64>,
    pub guest_nice: Option<i64>,
}

/// The value of token `i`, when it exists and parses as a decimal.
pub open spec fn tok_i64(toks: Seq<Seq<u8>>, i: int) -> Option<i64> {
    if 0 <= i < toks.len() {
        spec_parse_i64(toks[i])
    } else {
        None
    }
}

/// Whether the stat line yields a reading: it leads with the aggregate
/// `cpu` token, carries at least four parseable counters, and every
/// later counter that is present parses as well.
pub open spec fn spec_cpu_line_ok(toks: Seq<Seq<u8>>) -> bool {
    &&& toks.len() >= 5
    &&& toks[0] == "cpu".spec_bytes()
    &&& tok_i64(toks, 1) is Some
    &&& tok_i64(toks, 2) is Some
    &&& tok_i64(toks, 3) is Some
    &&& tok_i64(toks, 4) is Some
    &&& forall|j: int| 5 <= j < 11 && j < toks.len() ==> #[trigger] tok_i64(toks, j) is Some
}

impl CpuInfo {
    /// Parses the aggregate CPU line.  The counters are taken in the
    /// order they stand on the line; the first four are required, the
    /// rest are optional but must parse where present.
    pub fn parse(s: &str) -> (r: Result<CpuInfo, CpuInfoError>)
        ensures
            r is Ok <==> spec_cpu_line_ok(spec_tokens(s.spec_bytes())),
            r is Ok ==> {
                let toks = spec_tokens(s.spec_bytes());
                let c = r.unwrap();
                &&& c.user == tok_i64(toks, 1).unwrap()
                &&& c.system == tok_i64(toks, 2).unwrap()
                &&& c.nice == tok_i64(toks, 3).unwrap()
                &&& c.idle == tok_i64(toks, 4).unwrap()
                &&& c.iowait == tok_i64(toks, 5)
                &&& c.irq == tok_i64(toks, 6)
                &&& c.softirq == tok_i64(toks, 7)
                &&& c.steal == tok_i64(toks, 8)
                &&& c.guest == tok_i64(toks, 9)
                &&& c.guest_nice == tok_i64(toks, 10)
            },
    {
        let tokens = tokenize_ws(s.as_bytes());
        let ghost toks = spec_tokens(s.spec_bytes());
        proof {
            assert(tokens@.map_values(|v: Vec<u8>| v@) =~= toks);
        }
        if tokens.len() == 0 {
            return Err(CpuInfoError::EntryNotFound("cpu".to_owned()));
        }
        proof {
            assert(tokens@.map_values(|v: Vec<u8>| v@)[0] == tokens@[0]@);
        }
        if !crate::text::bytes_same(tokens[0].as_slice(), "cpu".as_bytes()) {
            return Err(CpuInfoError::EntryNotFound("cpu".to_owned()));
        }
        let user = parse_next_token(&tokens, 1, "user")?;
        let system = parse_next_token(&tokens, 2, "system")?;
        let nice = parse_next_token(&tokens, 3, "nice")?;
        let idle = parse_next_token(&tokens, 4, "idle")?;
        let iowait = parse_next_token_optional(&tokens, 5, "iowait")?;
        let irq = parse_next_token_optional(&tokens, 6, "irq")?;
        let softirq = parse_next_token_optional(&tokens, 7, "softirq")?;
        let steal = parse_next_token_optional(&tokens, 8, "steal")?;
        let guest = parse_next_token_optional(&tokens, 9, "guest")?;
        let guest_nice = parse_next_token_optional(&tokens, 10, "guest_nice")?;
        Ok(CpuInfo { user, nice, system, idle, iowait, irq, softirq, steal, guest, guest_nice })
    }

    /// The full counter delta: every required field subtracted, every
    /// optional field subtracted where both readings carry it.
    pub open spec fn spec_sub(self, rhs: CpuInfo) -> CpuInfo {
        CpuInfo {
            user: (self.user - rhs.user) as i64,
            nice: (self.nice - rhs.nice) as i64,
            system: (self.system - rhs.system) as i64,
            idle: (self.idle - rhs.idle) as i64,
            iowait: spec_sub_optional(self.iowait, rhs.iowait),
            irq: spec_sub_optional(self.irq, rhs.irq),
            softirq: spec_sub_optional(self.softirq, rhs.softirq),
            steal: spec_sub_optional(self.steal, rhs.steal),
            guest: spec_sub_optional(self.guest, rhs.guest),
            guest_nice: spec_sub_optional(self.guest_nice, rhs.guest_nice),
        }
    }

    /// The counter deltas between two readings; an optional counter's
    /// delta exists only when both readings carry it.
    pub fn sub(self, rhs: CpuInfo) -> (r: CpuInfo)
        requires
            self.can_sub(rhs),
        ensures
            r == self.spec_sub(rhs),
    {
        CpuInfo {
            user: self.user - rhs.user,
            nice: self.nice - rhs.nice,
            system: self.system - rhs.system,
            idle: self.idle - rhs.idle,
            iowait: sub_optional(self.iowait, rhs.iowait),
            irq: sub_optional(self.irq, rhs.irq),
            softirq: sub_optional(self.softirq, rhs.softirq),
            steal: sub_optional(self.steal, rhs.steal),
            guest: sub_optional(self.guest, rhs.guest),
            guest_nice: sub_optional(self.guest_nice, rhs.guest_nice),
        }
    }

    /// All counter differences stay within the machine integer range.
    pub open spec fn can_sub(self, rhs: CpuInfo) -> bool {
        &&& i64::MIN <= self.user - rhs.user <= i64::MAX
        &&& i64::MIN <= self.nice - rhs.nice <= i64::MAX
        &&& i64::MIN <= self.system - rhs.system <= i64::MAX
        &&& i64::MIN <= self.idle - rhs.idle <= i64::MAX
        &&& can_sub_optional(self.iowait, rhs.iowait)
        &&& can_sub_optional(self.irq, rhs.irq)
        &&& can_sub_optional(self.softirq, rhs.softirq)
        &&& can_sub_optional(self.steal, rhs.steal)
        &&& can_sub_optional(self.guest, rhs.guest)
        &&& can_sub_optional(self.guest_nice, rhs.guest_nice)
    }
}

pub open spec fn can_sub_optional(a: Option<i64>, b: Option<i64>) -> bool {
    a is Some && b is Some ==> i64::MIN <= a.unwrap() - b.unwrap() <= i64::MAX
}

pub open spec fn spec_sub_optional(a: Option<i64>, b: Option<i64>) -> Option<i64> {
    if a is Some && b is Some {
        Some((a.unwrap() - b.unwrap()) as i64)
    } else {
        None
    }
}

/// The difference of two optional counters; absent unless both are
/// present.
pub fn sub_optional(a: Option<i64>, b: Option<i64>) -> (r: Option<i64>)
    requires
        can_sub_optional(a, b),
    ensures
        r == spec_sub_optional(a, b),
{
    match (a, b) {
        (Some(x), Some(y)) => Some(x - y),
        _ => None,
    }
}

/// Parses the required counter named `name` at position `i`.
fn parse_next_token(tokens: &Vec<Vec<u8>>, i: usize, name: &str) -> (r: Result<i64, CpuInfoError>)
    ensures
        r is Ok <==> tok_i64(tokens@.map_values(|v: Vec<u8>| v@), i as int) is Some,
        r is Ok ==> r.unwrap() == tok_i64(tokens@.map_values(|v: Vec<u8>| v@), i as int).unwrap(),
        r is Err ==> (r.unwrap_err() matches CpuInfoError::EntryNotFound(_) <==> i
            >= tokens@.len()),
{
    if i >= tokens.len() {
        return Err(CpuInfoError::EntryNotFound(name.to_owned()));
    }
    proof {
        assert(tokens@.map_values(|v: Vec<u8>| v@)[i as int] == tokens@[i as int]@);
    }
    match crate::text::parse_i64_on_bytes(tokens[i].as_slice()) {
        Some(v) => Ok(v),
        None => Err(CpuInfoError::InvalidEntry(name.to_owned())),
    }
}

/// Parses the optional counter named `name` at position `i`: absent when
/// the line is too short, an error when present but malformed.
fn parse_next_token_optional(tokens: &Vec<Vec<u8>>, i: usize, name: &str) -> (r: Result<
    Option<i64>,
    CpuInfoError,
>)
    ensures
        i >= tokens@.len() ==> r == Ok::<Option<i64>, CpuInfoError>(None),
        i < tokens@.len() ==> {
            let v = tok_i64(tokens@.map_values(|v: Vec<u8>| v@), i as int);
            &&& (r is Ok <==> v is Some)
            &&& (r is Ok ==> r.unwrap() == v)
        },
{
    if i >= tokens.len() {
        return Ok(None);
    }
    proof {
        assert(tokens@.map_values(|v: Vec<u8>| v@)[i as int] == tokens@[i as int]@);
    }
    match crate::text::parse_i64_on_bytes(tokens[i].as_slice()) {
        Some(v) => Ok(Some(v)),
        None => Err(CpuInfoError::InvalidEntry(name.to_owned())),
    }
}

/// The CPU load a reading's deltas denote, in hundredths of a percent:
/// the user share of the total time.  A non-positive total or a negative
/// user delta reads as zero load rather than a meaningless percentage.
pub fn calc_cpu_usage(cpu_info: &CpuInfo) -> (r: i64)
    ensures
        r == spec_cpu_usage_hundredths(*cpu_info),
{
    let total: i128 = cpu_info.user as i128 + cpu_info.nice as i128 + cpu_info.system as i128
        + cpu_info.idle as i128 + opt_or_zero(cpu_info.iowait) as i128 + opt_or_zero(
        cpu_info.irq,
    ) as i128 + opt_or_zero(cpu_info.softirq) as i128 + opt_or_zero(cpu_info.steal) as i128
        + opt_or_zero(cpu_info.guest) as i128 + opt_or_zero(cpu_info.guest_nice) as i128;
    if total <= 0 || cpu_info.user < 0 {
        0
    } else {
        let v: i128 = (cpu_info.user as i128) * 10000 / total;
        proof {
            assert((cpu_info.user as i128) * 10000 <= (i64::MAX as i128) * 10000
                && (cpu_info.user as i128) * 10000 >= 0) by (nonlinear_arith)
                requires
                    0 <= cpu_info.user <= i64::MAX,
            ;
        }
        if v > i64::MAX as i128 {
            i64::MAX
        } else {
            v as i64
        }
    }
}

pub open spec fn spec_opt_or_zero(v: Option<i64>) -> i64 {
    match v {
        Some(x) => x,
        None => 0,
    }
}

/// The counter's value, with an absent counter reading as zero time.
fn opt_or_zero(v: Option<i64>) -> (r: i64)
    ensures
        r == spec_opt_or_zero(v),
{
    match v {
        Some(x) => x,
        None => 0,
    }
}

/// The CPU load formula: `user * 10000 / total`, clamped; zero for a
/// non-positive total or a negative user delta.
pub open spec fn spec_cpu_usage_hundredths(c: CpuInfo) -> i64 {
    let total = c.user + c.nice + c.system + c.idle + spec_opt_or_zero(c.iowait) + spec_opt_or_zero(c.irq)
        + spec_opt_or_zero(c.softirq) + spec_opt_or_zero(c.steal) + spec_opt_or_zero(c.guest)
        + spec_opt_or_zero(c.guest_nice);
    if total <= 0 || c.user < 0 {
        0
    } else {
        let v = c.user * 10000 / total;
        if v > i64::MAX {
            i64::MAX
        } else {
            v as i64
        }
    }
}

} // verus!
