use vstd::prelude::*;
use vstd::string::{StringExecFns, StringSliceAdditionalSpecFns, StrSliceExecFns};

verus! {

use crate::usage::{CpuStats, IoStats, MemoryStats, NetStats, Stats};

// ---------------------------------------------------------------------------
// The raw-stats adapter boundary.
//
// The runtime answers a stats query with a JSON document.  The `json`
// crate parses it; this module reads the handful of counters the pipeline
// needs out of the parsed tree and reshapes them into a plain `Stats`
// snapshot.  Each call into the `json` crate goes through a trusted
// wrapper below; everything around the calls is verified.
// ---------------------------------------------------------------------------

#[verifier::external_type_specification]
#[verifier::external_body]
pub struct ExJsonValue(json::JsonValue);

// What a parsed document holds is opaque to the verifier, so each
// accessor's result is given a name: a spec-level function of the
// document value alone (the `json` crate computes all of these
// deterministically from the value, with no dependence on the machine or
// the process).  The wrappers below promise exactly that their call
// returns the named result; everything downstream is verified against
// the names.

/// What `json::parse` yields for a document text, if it parses.
pub uninterp spec fn parsed_json(s: Seq<char>) -> Option<json::JsonValue>;

/// The member of an object under a key (JSON null when absent or not an
/// object).
pub uninterp spec fn member_of(v: json::JsonValue, key: Seq<char>) -> json::JsonValue;

/// The element of an array at an index (JSON null when out of range or
/// not an array).
pub uninterp spec fn element_of(v: json::JsonValue, i: int) -> json::JsonValue;

/// The elements of an array, empty for any other kind of value.
pub uninterp spec fn members_of(v: json::JsonValue) -> Seq<json::JsonValue>;

/// The key-value pairs of an object, empty for any other kind of value.
pub uninterp spec fn entries_of(v: json::JsonValue) -> Seq<(Seq<char>, json::JsonValue)>;

/// The value of a number that fits `u64`.
pub uninterp spec fn u64_of(v: json::JsonValue) -> Option<u64>;

/// The value of a number that fits `u32`.
pub uninterp spec fn u32_of(v: json::JsonValue) -> Option<u32>;

/// The value of a number that fits `u16`.
pub uninterp spec fn u16_of(v: json::JsonValue) -> Option<u16>;

/// The value of a number that fits `u8`.
pub uninterp spec fn u8_of(v: json::JsonValue) -> Option<u8>;

/// The characters of a string value.
pub uninterp spec fn str_chars_of(v: json::JsonValue) -> Option<Seq<char>>;

/// The UTF-8 bytes of a string value (the encoding of `str_chars_of`).
pub uninterp spec fn str_of(v: json::JsonValue) -> Option<Seq<u8>>;

/// The sign, decimal mantissa and decimal exponent of a number value.
pub uninterp spec fn number_parts_of(v: json::JsonValue) -> Option<(bool, u64, i16)>;

/// Relies on json::parse: parses a JSON document, or fails on malformed
/// input.  The error's detail is not used, so a failure comes back as
/// `None`.
#[verifier::external_body]
pub(crate) fn json_parse(s: &str) -> (r: Option<json::JsonValue>)
    ensures
        r == parsed_json(s@),
{
    match json::parse(s) {
        Ok(v) => Some(v),
        Err(_) => None,
    }
}

/// Relies on the `json` crate's `Index<&str>` implementation: the member
/// of an object under `key`, or JSON null when `v` is not an object or
/// has no such member.
#[verifier::external_body]
pub(crate) fn json_member<'a>(v: &'a json::JsonValue, key: &str) -> (r: &'a json::JsonValue)
    ensures
        *r == member_of(*v, key@),
{
    &v[key]
}

/// Relies on the `json` crate's `Index<usize>` implementation: element
/// `i` of an array, or JSON null when out of range or not an array.
#[verifier::external_body]
pub(crate) fn json_member_at<'a>(v: &'a json::JsonValue, i: usize) -> (r: &'a json::JsonValue)
    ensures
        *r == element_of(*v, i as int),
{
    &v[i]
}

/// Relies on JsonValue::members: the elements of an array, empty for
/// any other kind of value.
#[verifier::external_body]
pub(crate) fn json_members<'a>(v: &'a json::JsonValue) -> (r: Vec<&'a json::JsonValue>)
    ensures
        r@.len() == members_of(*v).len(),
        forall|i: int| 0 <= i < r@.len() ==> *(#[trigger] r@[i]) == members_of(*v)[i],
{
    v.members().collect()
}

/// Relies on JsonValue::as_u64: the value of a number that fits `u64`.
#[verifier::external_body]
pub(crate) fn json_as_u64(v: &json::JsonValue) -> (r: Option<u64>)
    ensures
        r == u64_of(*v),
{
    v.as_u64()
}

/// Relies on JsonValue::as_u16: the value of a number that fits `u16`.
#[verifier::external_body]
pub(crate) fn json_as_u16(v: &json::JsonValue) -> (r: Option<u16>)
    ensures
        r == u16_of(*v),
{
    v.as_u16()
}

/// Relies on JsonValue::as_str: the contents of a string value.
#[verifier::external_body]
pub(crate) fn json_as_str(v: &json::JsonValue) -> (r: Option<String>)
    ensures
        r is Some <==> str_chars_of(*v) is Some,
        r is Some <==> str_of(*v) is Some,
        r is Some ==> str_chars_of(*v) == Some(r.unwrap()@),
        r is Some ==> str_of(*v) == Some(crate::text::name_bytes(r.unwrap())),
{
    match v.as_str() {
        Some(s) => Some(s.to_owned()),
        None => None,
    }
}

/// Relies on JsonValue::as_u32: the value of a number that fits `u32`.
#[verifier::external_body]
pub(crate) fn json_as_u32(v: &json::JsonValue) -> (r: Option<u32>)
    ensures
        r == u32_of(*v),
{
    v.as_u32()
}

/// Relies on JsonValue::as_u8: the value of a number that fits `u8`.
#[verifier::external_body]
pub(crate) fn json_as_u8(v: &json::JsonValue) -> (r: Option<u8>)
    ensures
        r == u8_of(*v),
{
    v.as_u8()
}

/// Relies on JsonValue::entries: the key-value pairs of an object, empty
/// for any other kind of value.
#[verifier::external_body]
pub(crate) fn json_entries<'a>(v: &'a json::JsonValue) -> (r: Vec<(String, &'a json::JsonValue)>)
    ensures
        r@.len() == entries_of(*v).len(),
        forall|i: int|
            0 <= i < r@.len() ==> (#[trigger] r@[i]).0@ == entries_of(*v)[i].0 && *r@[i].1
                == entries_of(*v)[i].1,
{
    v.entries().map(|(k, e)| (k.to_owned(), e)).collect()
}

/// Relies on JsonValue::as_number and Number::as_parts: the sign,
/// decimal mantissa and decimal exponent of a number value.
#[verifier::external_body]
pub(crate) fn json_number_parts(v: &json::JsonValue) -> (r: Option<(bool, u64, i16)>)
    ensures
        r == number_parts_of(*v),
{
    match v.as_number() {
        Some(n) => Some(n.as_parts()),
        None => None,
    }
}

/// Scales an optional counter from nanoseconds to milliseconds.
fn ns_to_ms(v: Option<u64>) -> (r: Option<u64>)
    ensures
        r == match v {
            Some(x) => Some((x / 1000000) as u64),
            None => None::<u64>,
        },
{
    match v {
        Some(x) => Some(x / 1000000),
        None => None,
    }
}

/// The used-memory reading: usage minus cache, clamped at zero, with a
/// missing cache entry counting as zero cache.
fn used_memory_of(usage: Option<u64>, cached: Option<u64>) -> (r: Option<u64>)
    ensures
        r == match usage {
            Some(u) => {
                let c = match cached {
                    Some(c) => c,
                    None => 0u64,
                };
                Some(crate::usage::sat_sub(u, c))
            },
            None => None::<u64>,
        },
{
    match usage {
        Some(u) => {
            let c = match cached {
                Some(c) => c,
                None => 0,
            };
            Some(
                if u >= c {
                    u - c
                } else {
                    0
                },
            )
        },
        None => None,
    }
}

/// The cumulative byte count recorded for one block-I/O operation kind:
/// the `value` of the first listed entry whose `op` names the operation.
pub open spec fn spec_blkio(entries: Seq<json::JsonValue>, op: Seq<u8>) -> Option<u64>
    decreases entries.len(),
{
    if entries.len() == 0 {
        None
    } else if str_of(member_of(entries[0], "op"@)) == Some(op) {
        u64_of(member_of(entries[0], "value"@))
    } else {
        spec_blkio(entries.drop_first(), op)
    }
}

proof fn lemma_blkio_skip(entries: Seq<json::JsonValue>, op: Seq<u8>, i: int)
    requires
        0 <= i <= entries.len(),
        forall|j: int|
            0 <= j < i ==> str_of(member_of(#[trigger] entries[j], "op"@)) != Some(op),
    ensures
        spec_blkio(entries, op) == spec_blkio(entries.skip(i), op),
    decreases i,
{
    if i == 0 {
        assert(entries.skip(0) =~= entries);
    } else {
        assert(entries.len() > 0);
        assert(str_of(member_of(entries[0], "op"@)) != Some(op));
        assert forall|j: int|
            0 <= j < i - 1 implies str_of(
            member_of(#[trigger] entries.drop_first()[j], "op"@),
        ) != Some(op) by {
            assert(entries.drop_first()[j] == entries[j + 1]);
        }
        lemma_blkio_skip(entries.drop_first(), op, i - 1);
        assert(entries.drop_first().skip(i - 1) =~= entries.skip(i));
    }
}

/// Finds the counter recorded for `op` among the block-I/O entries.
fn blkio_value(stats: &json::JsonValue, op: &str) -> (r: Option<u64>)
    ensures
        r == spec_blkio(
            members_of(member_of(member_of(*stats, "blkio_stats"@), "io_service_bytes_recursive"@)),
            op.spec_bytes(),
        ),
{
    let ghost es = members_of(
        member_of(member_of(*stats, "blkio_stats"@), "io_service_bytes_recursive"@),
    );
    let entries = json_members(json_member(
        json_member(stats, "blkio_stats"),
        "io_service_bytes_recursive",
    ));
    let n = entries.len();
    let mut i: usize = 0;
    while i < n
        invariant
            0 <= i <= n,
            n == entries@.len(),
            n == es.len(),
            es == members_of(
                member_of(member_of(*stats, "blkio_stats"@), "io_service_bytes_recursive"@),
            ),
            forall|j: int| 0 <= j < n ==> *(#[trigger] entries@[j]) == es[j],
            forall|j: int|
                0 <= j < i ==> str_of(member_of(#[trigger] es[j], "op"@)) != Some(
                    op.spec_bytes(),
                ),
        decreases n - i,
    {
        proof {
            lemma_blkio_skip(es, op.spec_bytes(), i as int);
            assert(es.skip(i as int)[0] == es[i as int]);
        }
        let entry = entries[i];
        match json_as_str(json_member(entry, "op")) {
            Some(o) => {
                match crate::text::compare_bytes(o.as_str().as_bytes(), op.as_bytes()) {
                    crate::text::NameOrder::Same => {
                        return json_as_u64(json_member(entry, "value"));
                    },
                    _ => {},
                }
            },
            None => {},
        }
        i = i + 1;
    }
    proof {
        lemma_blkio_skip(es, op.spec_bytes(), n as int);
        assert(es.skip(n as int).len() == 0);
    }
    None
}

/// A counter scaled from nanoseconds to milliseconds, where present.
pub open spec fn spec_ns_to_ms(v: Option<u64>) -> Option<u64> {
    match v {
        Some(x) => Some((x / 1000000) as u64),
        None => None,
    }
}

/// Usage minus cache, clamped at zero, with a missing cache entry
/// counting as zero cache.
pub open spec fn spec_used_memory(usage: Option<u64>, cached: Option<u64>) -> Option<u64> {
    match usage {
        Some(u) => Some(
            crate::usage::sat_sub(
                u,
                match cached {
                    Some(c) => c,
                    None => 0u64,
                },
            ),
        ),
        None => None,
    }
}

/// An online-CPU count clamped into its byte-sized field.
pub open spec fn spec_ncpu(v: Option<u16>) -> Option<u8> {
    match v {
        Some(n) => Some(
            if n > 255 {
                255u8
            } else {
                n as u8
            },
        ),
        None => None,
    }
}

/// The exact snapshot a stats document `v` reshapes to: every counter is
/// read from its documented place, scaled and clamped as the pipeline
/// expects, and stays absent where the document lacks it.
pub open spec fn spec_stats_match(v: json::JsonValue, r: Stats) -> bool {
    let cpu = member_of(v, "cpu_stats"@);
    let memory = member_of(v, "memory_stats"@);
    let eth0 = member_of(member_of(v, "networks"@), "eth0"@);
    let blkio = members_of(member_of(member_of(v, "blkio_stats"@), "io_service_bytes_recursive"@));
    &&& r.cpu.total == spec_ns_to_ms(u64_of(member_of(member_of(cpu, "cpu_usage"@), "total_usage"@)))
    &&& r.cpu.system == spec_ns_to_ms(u64_of(member_of(cpu, "system_cpu_usage"@)))
    &&& r.cpu.ncpu == spec_ncpu(u16_of(member_of(cpu, "online_cpus"@)))
    &&& r.memory.used == spec_used_memory(
        u64_of(member_of(memory, "usage"@)),
        u64_of(member_of(member_of(memory, "stats"@), "cache"@)),
    )
    &&& r.memory.available == u64_of(member_of(memory, "limit"@))
    &&& r.net.recv == u64_of(member_of(eth0, "rx_bytes"@))
    &&& r.net.send == u64_of(member_of(eth0, "tx_bytes"@))
    &&& r.io.read == spec_blkio(blkio, "read".spec_bytes())
    &&& r.io.write == spec_blkio(blkio, "write".spec_bytes())
    &&& (r.time is Some <==> str_of(member_of(v, "read"@)) is Some)
    &&& (r.time is Some ==> str_of(member_of(v, "read"@)) == Some(
        crate::text::name_bytes(r.time.unwrap()),
    ))
}

/// Reshapes one runtime stats document into a plain snapshot: CPU times
/// scaled to milliseconds, used memory with the cache subtracted, the
/// `eth0` network counters, the block-I/O read/write byte counters, and
/// the runtime's timestamp.  Every field the document lacks stays absent.
pub fn reshape_json(stats: &json::JsonValue) -> (r: Stats)
    ensures
        spec_stats_match(*stats, r),
{
    let cpu_stats = json_member(stats, "cpu_stats");
    let total = ns_to_ms(json_as_u64(json_member(json_member(cpu_stats, "cpu_usage"), "total_usage")));
    let system = ns_to_ms(json_as_u64(json_member(cpu_stats, "system_cpu_usage")));
    let ncpu16 = json_as_u16(json_member(cpu_stats, "online_cpus"));
    let number_cpus: Option<u8> = match ncpu16 {
        Some(n) => Some(
            if n > 255 {
                255
            } else {
                n as u8
            },
        ),
        None => None,
    };
    let memory_stats = json_member(stats, "memory_stats");
    let used_memory = used_memory_of(
        json_as_u64(json_member(memory_stats, "usage")),
        json_as_u64(json_member(json_member(memory_stats, "stats"), "cache")),
    );
    let available_memory = json_as_u64(json_member(memory_stats, "limit"));
    let eth0 = json_member(json_member(stats, "networks"), "eth0");
    let net_rx = json_as_u64(json_member(eth0, "rx_bytes"));
    let net_tx = json_as_u64(json_member(eth0, "tx_bytes"));
    let blkio_read = blkio_value(stats, "read");
    let blkio_write = blkio_value(stats, "write");
    let time = json_as_str(json_member(stats, "read"));
    Stats {
        time,
        cpu: CpuStats { total, system, ncpu: number_cpus },
        memory: MemoryStats { used: used_memory, available: available_memory },
        io: IoStats { read: blkio_read, write: blkio_write },
        net: NetStats { send: net_tx, recv: net_rx },
    }
}

/// Parses one runtime stats document and reshapes it; `None` exactly on
/// malformed JSON.
pub fn parse_stats_body(body: &str) -> (r: Option<Stats>)
    ensures
        r is Some <==> parsed_json(body@) is Some,
        r is Some ==> spec_stats_match(parsed_json(body@).unwrap(), r.unwrap()),
{
    match json_parse(body) {
        Some(v) => Some(reshape_json(&v)),
        None => None,
    }
}

/// The characters of a name with every `/` removed.
pub open spec fn spec_without_slashes(s: Seq<char>) -> Seq<char>
    decreases s.len(),
{
    if s.len() == 0 {
        Seq::empty()
    } else {
        let rest = spec_without_slashes(s.drop_last());
        if s.last() == '/' {
            rest
        } else {
            rest.push(s.last())
        }
    }
}

/// Removes every `/` from a name, as the runtime reports container names
/// with a leading slash.
pub fn strip_slashes(s: &str) -> (r: String)
    ensures
        r@ =~= spec_without_slashes(s@),
{
    let n = s.unicode_len();
    let mut r = String::new();
    let mut i: usize = 0;
    while i < n
        invariant
            0 <= i <= n,
            n == s@.len(),
            r@ =~= spec_without_slashes(s@.take(i as int)),
        decreases n - i,
    {
        proof {
            assert(s@.take(i + 1).drop_last() =~= s@.take(i as int));
            assert(s@.take(i + 1).last() == s@[i as int]);
        }
        let c = s.get_char(i);
        if c != '/' {
            let piece = s.substring_char(i, i + 1);
            r.append(piece);
            proof {
                assert(piece@ =~= seq![s@[i as int]]);
            }
        }
        i = i + 1;
    }
    proof {
        assert(s@.take(n as int) =~= s@);
    }
    r
}

/// The container names a listing's entries yield: the first element of
/// each entry's `Names` array with its slashes removed, or nothing at
/// all when any entry lacks a string name there.
pub open spec fn spec_listing_names(ms: Seq<json::JsonValue>) -> Option<Seq<Seq<char>>>
    decreases ms.len(),
{
    if ms.len() == 0 {
        Some(Seq::empty())
    } else {
        match spec_listing_names(ms.drop_last()) {
            None => None,
            Some(rest) => match str_chars_of(element_of(member_of(ms.last(), "Names"@), 0)) {
                None => None,
                Some(nm) => Some(rest.push(spec_without_slashes(nm))),
            },
        }
    }
}

/// A listing with one unreadable entry yields nothing, wherever that
/// entry stands.
proof fn lemma_listing_prefix_none(ms: Seq<json::JsonValue>, k: int)
    requires
        0 <= k <= ms.len(),
        spec_listing_names(ms.take(k)) is None,
    ensures
        spec_listing_names(ms) is None,
    decreases ms.len(),
{
    if k < ms.len() {
        assert(ms.drop_last().take(k) =~= ms.take(k));
        lemma_listing_prefix_none(ms.drop_last(), k);
    } else {
        assert(ms.take(k) =~= ms);
    }
}

/// Extracts the current container names out of the runtime's listing
/// document: the first element of each entry's `Names` array, without its
/// slashes.  Fails when the document is malformed or any entry lacks a
/// name, as a partial listing would silently drop containers.
pub fn container_names_from_body(body: &str) -> (r: Option<Vec<String>>)
    ensures
        r is Some <==> (parsed_json(body@) is Some && spec_listing_names(
            members_of(parsed_json(body@).unwrap()),
        ) is Some),
        r is Some ==> {
            let names = spec_listing_names(members_of(parsed_json(body@).unwrap())).unwrap();
            &&& r.unwrap()@.len() == names.len()
            &&& forall|i: int|
                0 <= i < names.len() ==> (#[trigger] r.unwrap()@[i])@ == names[i]
        },
{
    let parsed = match json_parse(body) {
        Some(v) => v,
        None => {
            return None;
        },
    };
    let ghost ms = members_of(parsed);
    let members = json_members(&parsed);
    let n = members.len();
    let mut names: Vec<String> = Vec::new();
    let mut i: usize = 0;
    while i < n
        invariant
            0 <= i <= n,
            n == members@.len(),
            n == ms.len(),
            ms == members_of(parsed),
            parsed_json(body@) == Some(parsed),
            forall|j: int| 0 <= j < n ==> *(#[trigger] members@[j]) == ms[j],
            spec_listing_names(ms.take(i as int)) is Some,
            spec_listing_names(ms.take(i as int)).unwrap().len() == i,
            names@.len() == i,
            forall|j: int|
                0 <= j < i ==> (#[trigger] names@[j])@ == spec_listing_names(
                    ms.take(i as int),
                ).unwrap()[j],
        decreases n - i,
    {
        proof {
            assert(ms.take(i + 1).drop_last() =~= ms.take(i as int));
            assert(ms.take(i + 1).last() == ms[i as int]);
        }
        let name = match json_as_str(json_member_at(json_member(members[i], "Names"), 0)) {
            Some(s) => s,
            None => {
                proof {
                    lemma_listing_prefix_none(ms, i + 1);
                }
                return None;
            },
        };
        let stripped = strip_slashes(name.as_str());
        let ghost prev_names = names@;
        names.push(stripped);
        proof {
            let now = spec_listing_names(ms.take(i + 1)).unwrap();
            let before = spec_listing_names(ms.take(i as int)).unwrap();
            assert(str_chars_of(element_of(member_of(ms[i as int], "Names"@), 0)) == Some(name@));
            assert(now == before.push(spec_without_slashes(name@)));
            assert forall|j: int| 0 <= j < i + 1 implies (#[trigger] names@[j])@ == now[j] by {
                if j < i {
                    assert(names@[j] == prev_names[j]);
                    assert(now[j] == before[j]);
                } else {
                    assert(names@[j] == stripped);
                    assert(now[j] == spec_without_slashes(name@));
                }
            }
        }
        i = i + 1;
    }
    proof {
        assert(ms.take(n as int) =~= ms);
    }
    Some(names)
}

} // verus!
