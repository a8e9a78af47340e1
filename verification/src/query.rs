use vstd::prelude::*;
use vstd::slice::{slice_subrange, slice_to_vec};
use vstd::string::{StringExecFns, StringSliceAdditionalSpecFns};

verus! {

use crate::cache::{UsageCache, TimedCpuUsage, TimedMemoryUsage, TimedIoUsage, TimedNetUsage};
use crate::downsample::{DownsampleOption, is_downsample_selection, plot_bounded, MAX_PLOT_COORD};
use crate::jsonfmt::{data_to_json, lemma_items_chars_ref_eq};
use crate::store::LogVec;
use crate::text::{bytes_same, spec_split, spec_nonempty, split_bytes, filter_nonempty};
use crate::timefmt::{find_byte, spec_find_byte, time_of_day_ms};

// ---------------------------------------------------------------------------
// The query service: the read-only HTTP API over the usage cache.
//
// This module decides, for one raw request, the response status and the
// full response text.  It performs no I/O: the caller reads the request
// bytes from its connection and writes the returned response back.
// ---------------------------------------------------------------------------

/// The statuses the service answers with.
#[derive(Debug, Clone, Copy, PartialEq)]
pub enum StatusCode {
    Success,
    MethodNotAllowed,
    InternalServerError,
    NotFound,
}

// ---------------------------------------------------------------------------
// Request-line parsing.
// ---------------------------------------------------------------------------

/// The first line of a request: everything before the first line feed,
/// with a trailing carriage return stripped.
pub open spec fn spec_first_line(s: Seq<u8>) -> Seq<u8> {
    let e = match spec_find_byte(s, 10) {
        Some(i) => i,
        None => s.len() as int,
    };
    let l = s.take(e);
    if l.len() > 0 && l.last() == 13 {
        l.drop_last()
    } else {
        l
    }
}

/// The path segments of a request URI.
pub open spec fn spec_segments(uri: Seq<u8>) -> Seq<Seq<u8>> {
    spec_nonempty(spec_split(uri, 47))
}

/// Extracts the first line of the raw request.
fn first_line(s: &[u8]) -> (r: &[u8])
    ensures
        r@ =~= spec_first_line(s@),
{
    let e = match find_byte(s, 10) {
        Some(i) => i,
        None => s.len(),
    };
    let l = slice_subrange(s, 0, e);
    if l.len() > 0 && l[l.len() - 1] == 13 {
        slice_subrange(l, 0, l.len() - 1)
    } else {
        l
    }
}

// ---------------------------------------------------------------------------
// Plot coordinates.
// ---------------------------------------------------------------------------

/// A nonnegative value clamped into the coordinate range the downsampler
/// accepts.
pub open spec fn spec_coord(v: int) -> int {
    if v > MAX_PLOT_COORD {
        MAX_PLOT_COORD as int
    } else {
        v
    }
}

/// The x coordinate of a sample: its time of day in milliseconds, or 0
/// where the timestamp cannot be read (the sample still plots, at the
/// origin, rather than failing the whole request).
pub open spec fn spec_x_of_time(time: String) -> int {
    match crate::timefmt::spec_time_of_day_ms(crate::text::name_bytes(time)) {
        Some(ms) => spec_coord(ms as int),
        None => 0,
    }
}

/// The y coordinate of an optional metric value: the value, or 0 when it
/// is absent.
pub open spec fn spec_y_of_u64(v: Option<u64>) -> int {
    match v {
        Some(p) => spec_coord(p as int),
        None => 0,
    }
}

pub open spec fn spec_y_of_u32(v: Option<u32>) -> int {
    match v {
        Some(p) => spec_coord(p as int),
        None => 0,
    }
}

/// Clamps a sample value into the coordinate range the downsampler
/// accepts; the coordinates only steer the shape heuristic.
fn coord_of_u64(v: u64) -> (c: i64)
    ensures
        0 <= c <= MAX_PLOT_COORD,
        c == spec_coord(v as int),
{
    if v > MAX_PLOT_COORD as u64 {
        MAX_PLOT_COORD
    } else {
        v as i64
    }
}

fn x_of_time(time: &str) -> (c: i64)
    ensures
        0 <= c <= MAX_PLOT_COORD,
        c == match crate::timefmt::spec_time_of_day_ms(time.spec_bytes()) {
            Some(ms) => spec_coord(ms as int),
            None => 0,
        },
{
    match time_of_day_ms(time) {
        Some(ms) => coord_of_u64(ms),
        None => 0,
    }
}

fn cpu_points(series: &LogVec<TimedCpuUsage>) -> (r: Vec<(i64, i64)>)
    ensures
        r@.len() == series@.len(),
        plot_bounded(r@),
        forall|i: int|
            0 <= i < series@.len() ==> (#[trigger] r@[i]).0 == spec_x_of_time(series@[i].time)
                && r@[i].1 == spec_y_of_u64(series@[i].percentage),
{
    let n = series.len();
    let mut r: Vec<(i64, i64)> = Vec::new();
    let mut i: usize = 0;
    while i < n
        invariant
            0 <= i <= n,
            n == series@.len(),
            r@.len() == i,
            plot_bounded(r@),
            forall|j: int|
                0 <= j < i ==> (#[trigger] r@[j]).0 == spec_x_of_time(series@[j].time)
                    && r@[j].1 == spec_y_of_u64(series@[j].percentage),
        decreases n - i,
    {
        let s = series.get(i);
        let y = match s.percentage {
            Some(p) => coord_of_u64(p),
            None => 0,
        };
        r.push((x_of_time(s.time.as_str()), y));
        i = i + 1;
    }
    r
}

fn memory_points(series: &LogVec<TimedMemoryUsage>) -> (r: Vec<(i64, i64)>)
    ensures
        r@.len() == series@.len(),
        plot_bounded(r@),
        forall|i: int|
            0 <= i < series@.len() ==> (#[trigger] r@[i]).0 == spec_x_of_time(series@[i].time)
                && r@[i].1 == spec_y_of_u64(series@[i].percentage),
{
    let n = series.len();
    let mut r: Vec<(i64, i64)> = Vec::new();
    let mut i: usize = 0;
    while i < n
        invariant
            0 <= i <= n,
            n == series@.len(),
            r@.len() == i,
            plot_bounded(r@),
            forall|j: int|
                0 <= j < i ==> (#[trigger] r@[j]).0 == spec_x_of_time(series@[j].time)
                    && r@[j].1 == spec_y_of_u64(series@[j].percentage),
        decreases n - i,
    {
        let s = series.get(i);
        let y = match s.percentage {
            Some(p) => coord_of_u64(p),
            None => 0,
        };
        r.push((x_of_time(s.time.as_str()), y));
        i = i + 1;
    }
    r
}

fn io_points(series: &LogVec<TimedIoUsage>, write: bool) -> (r: Vec<(i64, i64)>)
    ensures
        r@.len() == series@.len(),
        plot_bounded(r@),
        forall|i: int|
            0 <= i < series@.len() ==> (#[trigger] r@[i]).0 == spec_x_of_time(series@[i].time)
                && r@[i].1 == spec_y_of_u32(if write { series@[i].writekBps } else { series@[i].readkBps }),
{
    let n = series.len();
    let mut r: Vec<(i64, i64)> = Vec::new();
    let mut i: usize = 0;
    while i < n
        invariant
            0 <= i <= n,
            n == series@.len(),
            r@.len() == i,
            plot_bounded(r@),
            forall|j: int|
                0 <= j < i ==> (#[trigger] r@[j]).0 == spec_x_of_time(series@[j].time)
                    && r@[j].1 == spec_y_of_u32(
                    if write {
                        series@[j].writekBps
                    } else {
                        series@[j].readkBps
                    },
                ),
        decreases n - i,
    {
        let s = series.get(i);
        let v = if write {
            s.writekBps
        } else {
            s.readkBps
        };
        let y = match v {
            Some(p) => coord_of_u64(p as u64),
            None => 0,
        };
        r.push((x_of_time(s.time.as_str()), y));
        i = i + 1;
    }
    r
}

fn net_points(series: &LogVec<TimedNetUsage>, send: bool) -> (r: Vec<(i64, i64)>)
    ensures
        r@.len() == series@.len(),
        plot_bounded(r@),
        forall|i: int|
            0 <= i < series@.len() ==> (#[trigger] r@[i]).0 == spec_x_of_time(series@[i].time)
                && r@[i].1 == spec_y_of_u32(if send { series@[i].sendkBps } else { series@[i].recvkBps }),
{
    let n = series.len();
    let mut r: Vec<(i64, i64)> = Vec::new();
    let mut i: usize = 0;
    while i < n
        invariant
            0 <= i <= n,
            n == series@.len(),
            r@.len() == i,
            plot_bounded(r@),
            forall|j: int|
                0 <= j < i ==> (#[trigger] r@[j]).0 == spec_x_of_time(series@[j].time)
                    && r@[j].1 == spec_y_of_u32(
                    if send {
                        series@[j].sendkBps
                    } else {
                        series@[j].recvkBps
                    },
                ),
        decreases n - i,
    {
        let s = series.get(i);
        let v = if send {
            s.sendkBps
        } else {
            s.recvkBps
        };
        let y = match v {
            Some(p) => coord_of_u64(p as u64),
            None => 0,
        };
        r.push((x_of_time(s.time.as_str()), y));
        i = i + 1;
    }
    r
}

// ---------------------------------------------------------------------------
// Routes.
// ---------------------------------------------------------------------------

/// The joined, quoted container names of the listing body.
pub open spec fn names_list_chars(names: Seq<Seq<char>>) -> Seq<char>
    decreases names.len(),
{
    if names.len() == 0 {
        Seq::empty()
    } else if names.len() == 1 {
        "\""@ + names[0] + "\""@
    } else {
        names_list_chars(names.drop_last()) + ","@ + "\""@ + names.last() + "\""@
    }
}

/// The body of the container listing: the names known to the CPU store,
/// quoted, comma-joined, in the store's sorted unique order.
pub fn route_containers(cache: &UsageCache) -> (r: String)
    requires
        cache.wf(),
    ensures
        r@ =~= "["@ + names_list_chars(cache.cpu.names_chars()) + "]"@,
{
    let names = cache.cpu.container_names();
    let mut s = "[".to_owned();
    let n = names.len();
    let mut i: usize = 0;
    while i < n
        invariant
            0 <= i <= n,
            n == names@.len(),
            n == cache.cpu.names_chars().len(),
            forall|j: int|
                0 <= j < n ==> (#[trigger] names@[j])@ == cache.cpu.names_chars()[j],
            s@ =~= "["@ + names_list_chars(cache.cpu.names_chars().take(i as int)),
        decreases n - i,
    {
        proof {
            assert(cache.cpu.names_chars().take(i + 1).drop_last() =~= cache.cpu.names_chars().take(
                i as int,
            ));
            assert(cache.cpu.names_chars().take(i + 1).last() == cache.cpu.names_chars()[i as int]);
            assert(cache.cpu.names_chars().take(i + 1)[0] == cache.cpu.names_chars()[0]);
        }
        if i > 0 {
            s.append(",");
        }
        s.append("\"");
        s.append(names[i].as_str());
        s.append("\"");
        i = i + 1;
    }
    proof {
        assert(cache.cpu.names_chars().take(n as int) =~= cache.cpu.names_chars());
    }
    s.append("]");
    s
}

/// What a 200 series body must hold: the rendering of a downsampling
/// selection over the stored history — identity below the engagement
/// threshold, otherwise exactly the target count with both endpoints —
/// each returned sample an original one, in original order.
pub open spec fn spec_series_body_ok<T: crate::jsonfmt::JsonSample>(
    series: Seq<T>,
    t: int,
    body: Seq<char>,
) -> bool {
    exists|sel: Seq<int>|
        {
            &&& #[trigger] is_downsample_selection(sel, series.len() as int, t)
            &&& body =~= "["@ + crate::jsonfmt::json_items_chars(
                sel.map_values(|i: int| series[i]),
            ) + "]"@
        }
}

/// CPU or memory history of one container, downsampled and rendered; the
/// answer exists exactly when the container is known to that store.
fn route_cpu_or_memory_usage(
    cache: &UsageCache,
    container_name: &[u8],
    memory: bool,
    opt: &DownsampleOption,
) -> (r: Option<String>)
    requires
        cache.wf(),
    ensures
        !memory ==> (r is Some <==> cache.cpu.contains_name(container_name@)),
        memory ==> (r is Some <==> cache.memory.contains_name(container_name@)),
        (!memory && r is Some) ==> spec_series_body_ok(
            cache.cpu.series_of(container_name@),
            opt.threshold as int,
            r.unwrap()@,
        ),
        (memory && r is Some) ==> spec_series_body_ok(
            cache.memory.series_of(container_name@),
            opt.threshold as int,
            r.unwrap()@,
        ),
{
    if memory {
        match cache.memory.get_bytes(container_name) {
            None => None,
            Some(series) => {
                let points = memory_points(series);
                let data = series.downsample(&points, opt);
                let ghost sel = choose|sel: Seq<int>|
                    {
                        &&& is_downsample_selection(
                            sel,
                            series@.len() as int,
                            opt.threshold as int,
                        )
                        &&& sel.len() == data@.len()
                        &&& (forall|i: int|
                            0 <= i < sel.len() ==> *(#[trigger] data@[i]) == series@[sel[i]])
                    };
                proof {
                    let vs = sel.map_values(|i: int| series@[i]);
                    assert forall|a: int| 0 <= a < data@.len() implies *(#[trigger] data@[a])
                        == vs[a] by {}
                    lemma_items_chars_ref_eq::<TimedMemoryUsage>(data@, vs);
                }
                let body = data_to_json(data);
                proof {
                    let k = container_name@;
                    assert(sel.map_values(|i: int| cache.memory.series_of(k)[i]) =~= sel.map_values(
                        |i: int| series@[i],
                    ));
                    assert(is_downsample_selection(
                        sel,
                        cache.memory.series_of(k).len() as int,
                        opt.threshold as int,
                    ));
                }
                Some(body)
            },
        }
    } else {
        match cache.cpu.get_bytes(container_name) {
            None => None,
            Some(series) => {
                let points = cpu_points(series);
                let data = series.downsample(&points, opt);
                let ghost sel = choose|sel: Seq<int>|
                    {
                        &&& is_downsample_selection(
                            sel,
                            series@.len() as int,
                            opt.threshold as int,
                        )
                        &&& sel.len() == data@.len()
                        &&& (forall|i: int|
                            0 <= i < sel.len() ==> *(#[trigger] data@[i]) == series@[sel[i]])
                    };
                proof {
                    let vs = sel.map_values(|i: int| series@[i]);
                    assert forall|a: int| 0 <= a < data@.len() implies *(#[trigger] data@[a])
                        == vs[a] by {}
                    lemma_items_chars_ref_eq::<TimedCpuUsage>(data@, vs);
                }
                let body = data_to_json(data);
                proof {
                    let k = container_name@;
                    assert(sel.map_values(|i: int| cache.cpu.series_of(k)[i]) =~= sel.map_values(
                        |i: int| series@[i],
                    ));
                    assert(is_downsample_selection(
                        sel,
                        cache.cpu.series_of(k).len() as int,
                        opt.threshold as int,
                    ));
                }
                Some(body)
            },
        }
    }
}

/// Read or write throughput history of one container.
fn route_io_usage(
    cache: &UsageCache,
    container_name: &[u8],
    write: bool,
    opt: &DownsampleOption,
) -> (r: Option<String>)
    requires
        cache.wf(),
    ensures
        r is Some <==> cache.io.contains_name(container_name@),
        r is Some ==> spec_series_body_ok(
            cache.io.series_of(container_name@),
            opt.threshold as int,
            r.unwrap()@,
        ),
{
    match cache.io.get_bytes(container_name) {
        None => None,
        Some(series) => {
            let points = io_points(series, write);
            let data = series.downsample(&points, opt);
            let ghost sel = choose|sel: Seq<int>|
                {
                    &&& is_downsample_selection(sel, series@.len() as int, opt.threshold as int)
                    &&& sel.len() == data@.len()
                    &&& (forall|i: int|
                        0 <= i < sel.len() ==> *(#[trigger] data@[i]) == series@[sel[i]])
                };
            proof {
                let vs = sel.map_values(|i: int| series@[i]);
                assert forall|a: int| 0 <= a < data@.len() implies *(#[trigger] data@[a])
                    == vs[a] by {}
                lemma_items_chars_ref_eq::<TimedIoUsage>(data@, vs);
            }
            let body = data_to_json(data);
            proof {
                let k = container_name@;
                assert(sel.map_values(|i: int| cache.io.series_of(k)[i]) =~= sel.map_values(
                    |i: int| series@[i],
                ));
                assert(is_downsample_selection(
                    sel,
                    cache.io.series_of(k).len() as int,
                    opt.threshold as int,
                ));
            }
            Some(body)
        },
    }
}

/// Receive or send throughput history of one container.
fn route_net_usage(
    cache: &UsageCache,
    container_name: &[u8],
    send: bool,
    opt: &DownsampleOption,
) -> (r: Option<String>)
    requires
        cache.wf(),
    ensures
        r is Some <==> cache.net.contains_name(container_name@),
        r is Some ==> spec_series_body_ok(
            cache.net.series_of(container_name@),
            opt.threshold as int,
            r.unwrap()@,
        ),
{
    match cache.net.get_bytes(container_name) {
        None => None,
        Some(series) => {
            let points = net_points(series, send);
            let data = series.downsample(&points, opt);
            let ghost sel = choose|sel: Seq<int>|
                {
                    &&& is_downsample_selection(sel, series@.len() as int, opt.threshold as int)
                    &&& sel.len() == data@.len()
                    &&& (forall|i: int|
                        0 <= i < sel.len() ==> *(#[trigger] data@[i]) == series@[sel[i]])
                };
            proof {
                let vs = sel.map_values(|i: int| series@[i]);
                assert forall|a: int| 0 <= a < data@.len() implies *(#[trigger] data@[a])
                    == vs[a] by {}
                lemma_items_chars_ref_eq::<TimedNetUsage>(data@, vs);
            }
            let body = data_to_json(data);
            proof {
                let k = container_name@;
                assert(sel.map_values(|i: int| cache.net.series_of(k)[i]) =~= sel.map_values(
                    |i: int| series@[i],
                ));
                assert(is_downsample_selection(
                    sel,
                    cache.net.series_of(k).len() as int,
                    opt.threshold as int,
                ));
            }
            Some(body)
        },
    }
}

// ---------------------------------------------------------------------------
// Response assembly.
// ---------------------------------------------------------------------------

/// The full text of a successful response carrying `body`: status line,
/// headers with the body's exact byte length, then the body.
pub open spec fn ok_response_chars(body: Seq<char>) -> Seq<char> {
    "HTTP/1.1 200 OK\r\nConnection: close\r\nContent-Type: application/json\r\nContent-Length: "@
        + crate::text::dec_chars(vstd::utf8::encode_utf8(body).len() as nat) + "\r\n\r\n"@ + body
}

/// A successful response: status line, headers, and the JSON body, with
/// the body's exact byte length declared.
fn ok_response(body: String) -> (r: String)
    ensures
        r@ =~= ok_response_chars(body@),
{
    let body_str = body.as_str();
    let len = body_str.as_bytes().len();
    proof {
        assert(body_str.spec_bytes() == crate::text::name_bytes(body));
    }
    let mut s =
        "HTTP/1.1 200 OK\r\nConnection: close\r\nContent-Type: application/json\r\nContent-Length: ".to_owned();
    s.append(crate::text::u64_to_dec(len as u64).as_str());
    s.append("\r\n\r\n");
    s.append(body_str);
    s
}

/// What status the service answers a raw request with: a malformed
/// request line is a generic error, a non-GET method is refused, a known
/// route on a known container succeeds, and everything else is not found.
pub open spec fn spec_status(cache: UsageCache, req: Seq<u8>) -> StatusCode {
    let parts = spec_split(spec_first_line(req), 32);
    if parts.len() != 3 {
        StatusCode::InternalServerError
    } else if parts[0] != "GET".spec_bytes() {
        StatusCode::MethodNotAllowed
    } else {
        let segs = spec_segments(parts[1]);
        if segs.len() == 1 && segs[0] == "containers".spec_bytes() {
            StatusCode::Success
        } else if segs.len() == 3 && segs[0] == "containers".spec_bytes() && segs[2]
            == "cpu".spec_bytes() {
            if cache.cpu.contains_name(segs[1]) {
                StatusCode::Success
            } else {
                StatusCode::NotFound
            }
        } else if segs.len() == 3 && segs[0] == "containers".spec_bytes() && segs[2]
            == "memory".spec_bytes() {
            if cache.memory.contains_name(segs[1]) {
                StatusCode::Success
            } else {
                StatusCode::NotFound
            }
        } else if segs.len() == 4 && segs[0] == "containers".spec_bytes() && segs[2]
            == "io".spec_bytes() && (segs[3] == "read".spec_bytes() || segs[3]
            == "write".spec_bytes()) {
            if cache.io.contains_name(segs[1]) {
                StatusCode::Success
            } else {
                StatusCode::NotFound
            }
        } else if segs.len() == 4 && segs[0] == "containers".spec_bytes() && segs[2]
            == "net".spec_bytes() && (segs[3] == "recv".spec_bytes() || segs[3]
            == "send".spec_bytes()) {
            if cache.net.contains_name(segs[1]) {
                StatusCode::Success
            } else {
                StatusCode::NotFound
            }
        } else {
            StatusCode::NotFound
        }
    }
}

/// What the body of a 200 answer must hold, by route: the sorted quoted
/// name listing for the container index, and a downsampled rendering of
/// the requested history for the series routes.
pub open spec fn spec_success_body_ok(
    cache: UsageCache,
    req: Seq<u8>,
    t: int,
    body: Seq<char>,
) -> bool {
    let parts = spec_split(spec_first_line(req), 32);
    let segs = spec_segments(parts[1]);
    if segs.len() == 1 && segs[0] == "containers".spec_bytes() {
        body =~= "["@ + names_list_chars(cache.cpu.names_chars()) + "]"@
    } else if segs.len() == 3 && segs[0] == "containers".spec_bytes() && segs[2]
        == "cpu".spec_bytes() {
        spec_series_body_ok(cache.cpu.series_of(segs[1]), t, body)
    } else if segs.len() == 3 && segs[0] == "containers".spec_bytes() && segs[2]
        == "memory".spec_bytes() {
        spec_series_body_ok(cache.memory.series_of(segs[1]), t, body)
    } else if segs.len() == 4 && segs[0] == "containers".spec_bytes() && segs[2]
        == "io".spec_bytes() && (segs[3] == "read".spec_bytes() || segs[3]
        == "write".spec_bytes()) {
        spec_series_body_ok(cache.io.series_of(segs[1]), t, body)
    } else if segs.len() == 4 && segs[0] == "containers".spec_bytes() && segs[2]
        == "net".spec_bytes() && (segs[3] == "recv".spec_bytes() || segs[3]
        == "send".spec_bytes()) {
        spec_series_body_ok(cache.net.series_of(segs[1]), t, body)
    } else {
        true
    }
}

/// Serves one raw HTTP request against the cache: resolves the route,
/// downsamples the requested history to `opt.threshold` points, and
/// returns the status together with the full response text to write
/// back.  Per-request failures map to error responses; nothing panics.
pub fn handle_request(cache: &UsageCache, request: &[u8], opt: &DownsampleOption) -> (r: (
    StatusCode,
    String,
))
    requires
        cache.wf(),
    ensures
        r.0 == spec_status(*cache, request@),
        r.0 is MethodNotAllowed ==> r.1@ =~= "HTTP/1.1 405 MethodNotAllowed\r\n\r\n"@,
        r.0 is NotFound ==> r.1@ =~= "HTTP/1.1 404 NotFound\r\n\r\n"@,
        r.0 is Success ==> exists|body: Seq<char>|
            {
                &&& r.1@ =~= #[trigger] ok_response_chars(body)
                &&& spec_success_body_ok(*cache, request@, opt.threshold as int, body)
            },
{
    let line = first_line(request);
    let parts = split_bytes(line, 32);
    if parts.len() != 3 {
        return (
            StatusCode::InternalServerError,
            "HTTP/1.1 500 InternalError\r\n\r\n invalid request line".to_owned(),
        );
    }
    if !bytes_same(parts[0].as_slice(), "GET".as_bytes()) {
        proof {
            assert(parts@.map_values(|v: Vec<u8>| v@)[0] == parts@[0]@);
        }
        return (StatusCode::MethodNotAllowed, "HTTP/1.1 405 MethodNotAllowed\r\n\r\n".to_owned());
    }
    proof {
        assert(parts@.map_values(|v: Vec<u8>| v@)[0] == parts@[0]@);
        assert(parts@.map_values(|v: Vec<u8>| v@)[1] == parts@[1]@);
    }
    let segs = filter_nonempty(split_bytes(parts[1].as_slice(), 47));
    let ghost sv = spec_segments(parts@[1]@);
    proof {
        assert(segs@.map_values(|v: Vec<u8>| v@) =~= sv);
    }
    let body: Option<String> = if segs.len() == 1 && bytes_same(
        segs[0].as_slice(),
        "containers".as_bytes(),
    ) {
        proof {
            assert(segs@.map_values(|v: Vec<u8>| v@)[0] == segs@[0]@);
        }
        Some(route_containers(cache))
    } else if segs.len() == 3 && bytes_same(segs[0].as_slice(), "containers".as_bytes())
        && bytes_same(segs[2].as_slice(), "cpu".as_bytes()) {
        proof {
            assert(segs@.map_values(|v: Vec<u8>| v@)[0] == segs@[0]@);
            assert(segs@.map_values(|v: Vec<u8>| v@)[1] == segs@[1]@);
            assert(segs@.map_values(|v: Vec<u8>| v@)[2] == segs@[2]@);
        }
        route_cpu_or_memory_usage(cache, segs[1].as_slice(), false, opt)
    } else if segs.len() == 3 && bytes_same(segs[0].as_slice(), "containers".as_bytes())
        && bytes_same(segs[2].as_slice(), "memory".as_bytes()) {
        proof {
            assert(segs@.map_values(|v: Vec<u8>| v@)[0] == segs@[0]@);
            assert(segs@.map_values(|v: Vec<u8>| v@)[1] == segs@[1]@);
            assert(segs@.map_values(|v: Vec<u8>| v@)[2] == segs@[2]@);
        }
        route_cpu_or_memory_usage(cache, segs[1].as_slice(), true, opt)
    } else if segs.len() == 4 && bytes_same(segs[0].as_slice(), "containers".as_bytes())
        && bytes_same(segs[2].as_slice(), "io".as_bytes()) && (bytes_same(
        segs[3].as_slice(),
        "read".as_bytes(),
    ) || bytes_same(segs[3].as_slice(), "write".as_bytes())) {
        proof {
            assert(segs@.map_values(|v: Vec<u8>| v@)[0] == segs@[0]@);
            assert(segs@.map_values(|v: Vec<u8>| v@)[1] == segs@[1]@);
            assert(segs@.map_values(|v: Vec<u8>| v@)[2] == segs@[2]@);
            assert(segs@.map_values(|v: Vec<u8>| v@)[3] == segs@[3]@);
        }
        let write = bytes_same(segs[3].as_slice(), "write".as_bytes());
        route_io_usage(cache, segs[1].as_slice(), write, opt)
    } else if segs.len() == 4 && bytes_same(segs[0].as_slice(), "containers".as_bytes())
        && bytes_same(segs[2].as_slice(), "net".as_bytes()) && (bytes_same(
        segs[3].as_slice(),
        "recv".as_bytes(),
    ) || bytes_same(segs[3].as_slice(), "send".as_bytes())) {
        proof {
            assert(segs@.map_values(|v: Vec<u8>| v@)[0] == segs@[0]@);
            assert(segs@.map_values(|v: Vec<u8>| v@)[1] == segs@[1]@);
            assert(segs@.map_values(|v: Vec<u8>| v@)[2] == segs@[2]@);
            assert(segs@.map_values(|v: Vec<u8>| v@)[3] == segs@[3]@);
        }
        let send = bytes_same(segs[3].as_slice(), "send".as_bytes());
        route_net_usage(cache, segs[1].as_slice(), send, opt)
    } else {
        None
    };
    match body {
        Some(b) => {
            proof {
                assert(spec_success_body_ok(*cache, request@, opt.threshold as int, b@));
            }
            let resp = ok_response(b);
            proof {
                assert(resp@ =~= ok_response_chars(b@));
            }
            (StatusCode::Success, resp)
        },
        None => (StatusCode::NotFound, "HTTP/1.1 404 NotFound\r\n\r\n".to_owned()),
    }
}

} // verus!
