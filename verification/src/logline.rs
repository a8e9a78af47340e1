use vstd::prelude::*;

verus! {

use crate::adapter::{json_as_str, json_as_u16, json_as_u32, json_as_u64, json_as_u8, json_entries, json_member, json_number_parts, json_parse};
use crate::adapter::{entries_of, member_of, number_parts_of, parsed_json, str_chars_of, u16_of, u32_of, u64_of, u8_of};
use crate::usage::{ContainerUsage, CpuUsage, IoUsage, MemoryUsage, NetUsage, Usage, Usages};

// ---------------------------------------------------------------------------
// Warm start: reading the daily log back.
//
// On restart the store is rebuilt from the tail of the daily log.  Each
// line is one tick's JSON object, written by this crate's own renderer;
// the `json` crate parses it and the readers below lift the parsed tree
// back into plain sample values.  Fixed-point percentages are recovered
// exactly from the number's decimal mantissa and exponent — no floating
// point is involved.
// ---------------------------------------------------------------------------

pub open spec fn spec_pow10(n: nat) -> int
    decreases n,
{
    if n == 0 {
        1
    } else {
        10 * spec_pow10((n - 1) as nat)
    }
}

/// The fixed-point hundredths a decimal mantissa-exponent pair denotes:
/// `mantissa * 10^(exponent + 2)`, truncated at the last whole hundredth
/// and saturated at the integer range; negative numbers carry no
/// percentage.
pub open spec fn spec_hundredths_from_parts(positive: bool, mantissa: u64, exponent: i16) -> Option<
    u64,
> {
    if !positive && mantissa != 0 {
        None
    } else {
        let e2 = exponent + 2;
        let v: int = if e2 >= 0 {
            (mantissa as int) * spec_pow10(e2 as nat)
        } else {
            (mantissa as int) / spec_pow10((-e2) as nat)
        };
        if v > u64::MAX {
            Some(u64::MAX)
        } else {
            Some(v as u64)
        }
    }
}

proof fn lemma_pow10_positive(n: nat)
    ensures
        spec_pow10(n) >= 1,
    decreases n,
{
    if n > 0 {
        lemma_pow10_positive((n - 1) as nat)
    }
}

/// The powers of ten up to the saturation threshold, made concrete one
/// multiplication at a time (each step is a product of literals).
proof fn lemma_pow10_values()
    ensures
        spec_pow10(19) == 10000000000000000000,
        spec_pow10(20) == 100000000000000000000,
{
    assert(spec_pow10(0) == 1);
    assert(spec_pow10(1) == 10);
    assert(spec_pow10(2) == 100);
    assert(spec_pow10(3) == 1000);
    assert(spec_pow10(4) == 10000);
    assert(spec_pow10(5) == 100000);
    assert(spec_pow10(6) == 1000000);
    assert(spec_pow10(7) == 10000000);
    assert(spec_pow10(8) == 100000000);
    assert(spec_pow10(9) == 1000000000);
    assert(spec_pow10(10) == 10000000000);
    assert(spec_pow10(11) == 100000000000);
    assert(spec_pow10(12) == 1000000000000);
    assert(spec_pow10(13) == 10000000000000);
    assert(spec_pow10(14) == 100000000000000);
    assert(spec_pow10(15) == 1000000000000000);
    assert(spec_pow10(16) == 10000000000000000);
    assert(spec_pow10(17) == 100000000000000000);
    assert(spec_pow10(18) == 1000000000000000000);
    assert(spec_pow10(19) == 10000000000000000000);
    assert(spec_pow10(20) == 100000000000000000000);
}

/// Grows fast: twenty decimal digits already exceed the `u64` range.
proof fn lemma_pow10_large(n: nat)
    requires
        n >= 20,
    ensures
        spec_pow10(n) > u64::MAX,
    decreases n,
{
    if n == 20 {
        lemma_pow10_values();
    } else {
        lemma_pow10_large((n - 1) as nat);
        lemma_pow10_positive((n - 1) as nat);
    }
}

/// Computes `10^n` in wide arithmetic; exponents past the saturation
/// threshold never reach here.
fn pow10_u128(n: u32) -> (r: u128)
    requires
        n <= 19,
    ensures
        r == spec_pow10(n as nat),
        r <= 10000000000000000000u128,
{
    let mut r: u128 = 1;
    let mut i: u32 = 0;
    while i < n
        invariant
            0 <= i <= n,
            n <= 19,
            r == spec_pow10(i as nat),
        decreases n - i,
    {
        proof {
            lemma_pow10_monotone(i as nat + 1, 19);
            lemma_pow10_values();
        }
        r = r * 10;
        i = i + 1;
    }
    proof {
        lemma_pow10_monotone(n as nat, 19);
        lemma_pow10_values();
    }
    r
}

proof fn lemma_pow10_monotone(a: nat, b: nat)
    requires
        a <= b,
    ensures
        spec_pow10(a) <= spec_pow10(b),
    decreases b,
{
    if a < b {
        lemma_pow10_monotone(a, (b - 1) as nat);
        lemma_pow10_positive((b - 1) as nat);
    }
}

/// Recovers a fixed-point percentage from a parsed number's decimal
/// parts.
fn hundredths_from_parts(positive: bool, mantissa: u64, exponent: i16) -> (r: Option<u64>)
    ensures
        r == spec_hundredths_from_parts(positive, mantissa, exponent),
{
    if !positive && mantissa != 0 {
        return None;
    }
    let e2: i32 = exponent as i32 + 2;
    if e2 >= 0 {
        if e2 >= 20 {
            proof {
                lemma_pow10_large(e2 as nat);
                lemma_pow10_positive(e2 as nat);
                if mantissa > 0 {
                    assert(mantissa * spec_pow10(e2 as nat) >= 1 * spec_pow10(e2 as nat))
                        by (nonlinear_arith)
                        requires
                            mantissa >= 1,
                            spec_pow10(e2 as nat) >= 0,
                    ;
                }
                assert(0 * spec_pow10(e2 as nat) == 0) by (nonlinear_arith);
            }
            if mantissa == 0 {
                return Some(0);
            }
            return Some(u64::MAX);
        }
        let p = pow10_u128(e2 as u32);
        proof {
            lemma_pow10_positive(e2 as nat);
            assert((mantissa as u128) * p <= (u64::MAX as u128) * 10000000000000000000)
                by (nonlinear_arith)
                requires
                    0 <= mantissa as u128 <= u64::MAX as u128,
                    0 <= p <= 10000000000000000000u128,
            ;
            assert((u64::MAX as u128) * 10000000000000000000 < u128::MAX) by (nonlinear_arith);
        }
        let wide: u128 = (mantissa as u128) * p;
        if wide > u64::MAX as u128 {
            Some(u64::MAX)
        } else {
            Some(wide as u64)
        }
    } else {
        let neg: i32 = 0 - e2;
        if neg >= 20 {
            proof {
                lemma_pow10_large(neg as nat);
                lemma_pow10_positive(neg as nat);
                assert((mantissa as int) / spec_pow10(neg as nat) == 0) by {
                    vstd::arithmetic::div_mod::lemma_basic_div(
                        mantissa as int,
                        spec_pow10(neg as nat),
                    );
                }
            }
            return Some(0);
        }
        let p = pow10_u128(neg as u32);
        proof {
            lemma_pow10_positive(neg as nat);
        }
        let wide: u128 = (mantissa as u128) / p;
        proof {
            vstd::arithmetic::div_mod::lemma_div_is_ordered(
                (mantissa as u128) as int,
                u64::MAX as int,
                p as int,
            );
            vstd::arithmetic::div_mod::lemma_div_is_ordered_by_denominator(
                u64::MAX as int,
                1,
                p as int,
            );
        }
        Some(wide as u64)
    }
}

/// The fixed-point percentage a member's number value denotes, if any.
pub open spec fn spec_pct(v: json::JsonValue) -> Option<u64> {
    match number_parts_of(v) {
        Some((positive, mantissa, exponent)) => spec_hundredths_from_parts(
            positive,
            mantissa,
            exponent,
        ),
        None => None,
    }
}

/// Reads a percentage member back into fixed point.
fn read_percentage(v: &json::JsonValue) -> (r: Option<u64>)
    ensures
        r == spec_pct(*v),
{
    match json_number_parts(v) {
        Some((positive, mantissa, exponent)) => hundredths_from_parts(
            positive,
            mantissa,
            exponent,
        ),
        None => None,
    }
}

/// The samples one container's log entry records, member by member, with
/// every absent or non-numeric member staying absent.
pub open spec fn spec_usage_from_json(v: json::JsonValue) -> Usage {
    let cpu = member_of(v, "cpu"@);
    let memory = member_of(v, "memory"@);
    let io = member_of(v, "io"@);
    let net = member_of(v, "net"@);
    Usage {
        cpu: CpuUsage {
            percentage: spec_pct(member_of(cpu, "percentage"@)),
            total: u64_of(member_of(cpu, "total"@)),
            system: u64_of(member_of(cpu, "system"@)),
            ncpu: u8_of(member_of(cpu, "ncpu"@)),
        },
        memory: MemoryUsage {
            percentage: spec_pct(member_of(memory, "percentage"@)),
            used: u64_of(member_of(memory, "used"@)),
            available: u64_of(member_of(memory, "available"@)),
        },
        io: IoUsage {
            readkB: u64_of(member_of(io, "readkB"@)),
            writekB: u64_of(member_of(io, "writekB"@)),
            readkBps: u32_of(member_of(io, "readkBps"@)),
            writekBps: u32_of(member_of(io, "writekBps"@)),
        },
        net: NetUsage {
            recvkB: u64_of(member_of(net, "recvkB"@)),
            sendkB: u64_of(member_of(net, "sendkB"@)),
            recvkBps: u32_of(member_of(net, "recvkBps"@)),
            sendkBps: u32_of(member_of(net, "sendkBps"@)),
        },
    }
}

/// A log line's document yields a tick exactly when its timestamp and
/// tick length are readable.
pub open spec fn spec_line_readable(v: json::JsonValue) -> bool {
    str_chars_of(member_of(v, "time"@)) is Some && u16_of(member_of(v, "millis"@)) is Some
}

/// What the recovered tick holds: the document's timestamp and tick
/// length, and one container entry per pair under `stats`, in order.
pub open spec fn spec_usages_match(v: json::JsonValue, u: Usages) -> bool {
    let es = entries_of(member_of(v, "stats"@));
    &&& u.time@ == str_chars_of(member_of(v, "time"@)).unwrap()
    &&& u.millis == u16_of(member_of(v, "millis"@)).unwrap()
    &&& u.usages@.len() == es.len()
    &&& forall|i: int|
        0 <= i < es.len() ==> (#[trigger] u.usages@[i]).name@ == es[i].0 && u.usages@[i].usage
            == spec_usage_from_json(es[i].1)
}

/// Lifts one parsed daily-log line back into the tick's results: the
/// timestamp and tick length are required, and each entry under `stats`
/// contributes one container's samples, with every absent or non-numeric
/// member staying absent.
pub fn json_to_usage(v: &json::JsonValue) -> (r: Option<Usages>)
    ensures
        r is Some <==> spec_line_readable(*v),
        r is Some ==> spec_usages_match(*v, r.unwrap()),
{
    let time = match json_as_str(json_member(v, "time")) {
        Some(t) => t,
        None => {
            return None;
        },
    };
    let millis = match json_as_u16(json_member(v, "millis")) {
        Some(m) => m,
        None => {
            return None;
        },
    };
    let ghost es = entries_of(member_of(*v, "stats"@));
    let entries = json_entries(json_member(v, "stats"));
    let n = entries.len();
    let mut usages: Vec<ContainerUsage> = Vec::new();
    let mut i: usize = 0;
    while i < n
        invariant
            0 <= i <= n,
            n == entries@.len(),
            n == es.len(),
            es == entries_of(member_of(*v, "stats"@)),
            forall|j: int|
                0 <= j < n ==> (#[trigger] entries@[j]).0@ == es[j].0 && *entries@[j].1
                    == es[j].1,
            usages@.len() == i,
            forall|j: int|
                0 <= j < i ==> (#[trigger] usages@[j]).name@ == es[j].0 && usages@[j].usage
                    == spec_usage_from_json(es[j].1),
        decreases n - i,
    {
        let name = entries[i].0.clone();
        let u = entries[i].1;
        let cpu_v = json_member(u, "cpu");
        let memory_v = json_member(u, "memory");
        let io_v = json_member(u, "io");
        let net_v = json_member(u, "net");
        let usage = Usage {
            cpu: CpuUsage {
                percentage: read_percentage(json_member(cpu_v, "percentage")),
                total: json_as_u64(json_member(cpu_v, "total")),
                system: json_as_u64(json_member(cpu_v, "system")),
                ncpu: json_as_u8(json_member(cpu_v, "ncpu")),
            },
            memory: MemoryUsage {
                percentage: read_percentage(json_member(memory_v, "percentage")),
                used: json_as_u64(json_member(memory_v, "used")),
                available: json_as_u64(json_member(memory_v, "available")),
            },
            io: IoUsage {
                readkB: json_as_u64(json_member(io_v, "readkB")),
                writekB: json_as_u64(json_member(io_v, "writekB")),
                readkBps: json_as_u32(json_member(io_v, "readkBps")),
                writekBps: json_as_u32(json_member(io_v, "writekBps")),
            },
            net: NetUsage {
                recvkB: json_as_u64(json_member(net_v, "recvkB")),
                sendkB: json_as_u64(json_member(net_v, "sendkB")),
                recvkBps: json_as_u32(json_member(net_v, "recvkBps")),
                sendkBps: json_as_u32(json_member(net_v, "sendkBps")),
            },
        };
        usages.push(ContainerUsage { name, usage });
        i = i + 1;
    }
    Some(Usages { time, millis, usages })
}

/// Parses one line of the daily log back into the tick it recorded;
/// `None` exactly for a malformed line (the reload skips it).
pub fn parse_usages_line(line: &str) -> (r: Option<Usages>)
    ensures
        r is Some <==> (parsed_json(line@) is Some && spec_line_readable(
            parsed_json(line@).unwrap(),
        )),
        r is Some ==> spec_usages_match(parsed_json(line@).unwrap(), r.unwrap()),
{
    match json_parse(line) {
        Some(v) => json_to_usage(&v),
        None => None,
    }
}

/// How many trailing lines of the daily log the warm start replays: the
/// store never holds more than its capacity, so older lines are skipped.
pub fn lines_to_skip(nlines: u64) -> (r: u64)
    ensures
        r == if nlines >= crate::MAX_LOG_LENGTH as u64 {
            nlines - crate::MAX_LOG_LENGTH as u64
        } else {
            0
        },
{
    if nlines >= crate::MAX_LOG_LENGTH as u64 {
        nlines - crate::MAX_LOG_LENGTH as u64
    } else {
        0
    }
}

} // verus!
