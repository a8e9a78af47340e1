use vstd::prelude::*;

verus! {

use vstd::arithmetic::div_mod::{lemma_div_is_ordered, lemma_div_multiples_vanish, lemma_fundamental_div_mod, lemma_mod_bound};
use vstd::arithmetic::mul::lemma_mul_inequality;

/// Options of the downsampling engine.  `threshold` is the number of
/// points a reduced series should have; the default suits plotting.
pub struct DownsampleOption {
    pub threshold: usize,
}

impl Default for DownsampleOption {
    /// The default plotting resolution: 512 points.
    fn default() -> (r: Self)
        ensures
            r.threshold == 512,
    {
        DownsampleOption { threshold: 512 }
    }
}

/// Largest coordinate magnitude the selection accepts; keeps every
/// intermediate product of the area arithmetic inside `i128`.
pub const MAX_PLOT_COORD: i64 = 0x4000_0000;

/// Largest series length the selection accepts.
pub const MAX_PLOT_LEN: usize = 0x4000_0000;

/// First index of interior bucket `b` when `n` points are reduced to `t`:
/// the interior `[1, n-2]` is split into `t-2` buckets with floor-divided
/// boundaries.
pub open spec fn bucket_lo(n: int, t: int, b: int) -> int {
    1 + b * (n - 2) / (t - 2)
}

/// Buckets are ordered: each bucket starts strictly after the previous
/// one, because the interior is longer than the number of buckets.
pub proof fn lemma_bucket_lo_step(n: int, t: int, b: int)
    requires
        3 <= t < n,
        0 <= b <= t - 3,
    ensures
        bucket_lo(n, t, b) < bucket_lo(n, t, b + 1),
{
    let k = n - 2;
    let m = t - 2;
    assert(b * k >= 0) by (nonlinear_arith)
        requires
            b >= 0,
            k >= 0,
    ;
    lemma_fundamental_div_mod(b * k, m);
    lemma_mod_bound(b * k, m);
    let q = b * k / m;
    assert(b * k >= m * q);
    assert((b + 1) * k == b * k + k) by (nonlinear_arith);
    assert(m * (q + 1) == m * q + m) by (nonlinear_arith);
    assert(b * k + k >= m * (q + 1));
    lemma_div_is_ordered(m * (q + 1), b * k + k, m);
    lemma_div_multiples_vanish(q + 1, m);
    assert((m * (q + 1)) / m == q + 1);
    assert((b + 1) * k / m >= q + 1);
}

/// Bucket starts never pass the last point: the start of the one-past-last
/// bucket is exactly `n - 1`.
pub proof fn lemma_bucket_lo_last(n: int, t: int)
    requires
        3 <= t < n,
    ensures
        bucket_lo(n, t, t - 2) == n - 1,
{
    lemma_div_multiples_vanish(n - 2, t - 2);
    assert((t - 2) * (n - 2) / (t - 2) == n - 2);
}

pub proof fn lemma_bucket_lo_monotone(n: int, t: int, b1: int, b2: int)
    requires
        3 <= t < n,
        0 <= b1 <= b2,
    ensures
        bucket_lo(n, t, b1) <= bucket_lo(n, t, b2),
{
    let k = n - 2;
    let m = t - 2;
    lemma_mul_inequality(b1, b2, k);
    lemma_div_is_ordered(b1 * k, b2 * k, m);
}

proof fn lemma_abs_mul_bound(x: int, y: int, xb: int, yb: int)
    requires
        -xb <= x <= xb,
        -yb <= y <= yb,
    ensures
        -(xb * yb) <= x * y <= xb * yb,
{
    assert(-(xb * yb) <= x * y <= xb * yb) by (nonlinear_arith)
        requires
            -xb <= x <= xb,
            -yb <= y <= yb,
    ;
}

/// Twice the area of the triangle spanned by the previously selected
/// point, a candidate point, and the centroid of the next bucket, all
/// scaled by the centroid's denominator `cm` so the comparison stays in
/// exact integer arithmetic.
pub open spec fn spec_scaled_area2(
    px: int,
    py: int,
    qx: int,
    qy: int,
    sx: int,
    sy: int,
    cm: int,
) -> int {
    let v = (cm * px - sx) * (qy - py) - (px - qx) * (cm * py - sy);
    if v >= 0 {
        v
    } else {
        -v
    }
}

/// All coordinates of `points` are small enough for the area arithmetic.
pub open spec fn plot_bounded(points: Seq<(i64, i64)>) -> bool {
    forall|i: int|
        0 <= i < points.len() ==> -MAX_PLOT_COORD <= (#[trigger] points[i]).0 <= MAX_PLOT_COORD
            && -MAX_PLOT_COORD <= points[i].1 <= MAX_PLOT_COORD
}

/// The range whose centroid anchors bucket `b`'s triangle: the next
/// interior bucket, or the final sample alone after the last one.
pub open spec fn next_range(n: int, t: int, b: int) -> (int, int) {
    if b + 1 < t - 2 {
        (bucket_lo(n, t, b + 1), bucket_lo(n, t, b + 2))
    } else {
        (n - 1, n)
    }
}

/// The centroid numerators and denominator anchoring bucket `b`:
/// coordinate sums over the anchoring range, or the series' first sample
/// when that range is degenerate.
pub open spec fn centroid_parts(points: Seq<(i64, i64)>, n: int, t: int, b: int) -> (int, int, int) {
    let (nlo, nhi) = next_range(n, t, b);
    if nlo < nhi {
        (spec_sum_x(points, nlo, nhi), spec_sum_y(points, nlo, nhi), nhi - nlo)
    } else {
        (points[0].0 as int, points[0].1 as int, 1)
    }
}

/// How candidate `j` of bucket `b` ranks: the scaled area of the
/// triangle it spans with the previously selected point `prev` and the
/// bucket's centroid anchor.
pub open spec fn candidate_area(
    points: Seq<(i64, i64)>,
    n: int,
    t: int,
    b: int,
    prev: int,
    j: int,
) -> int {
    let (sx, sy, cm) = centroid_parts(points, n, t, b);
    spec_scaled_area2(
        points[prev].0 as int,
        points[prev].1 as int,
        points[j].0 as int,
        points[j].1 as int,
        sx,
        sy,
        cm,
    )
}

/// `pick` is the first index of bucket `b` whose triangle area is
/// maximal: no candidate beats it, and every earlier candidate falls
/// strictly short (ties go to the first index encountered).
pub open spec fn picks_largest_triangle(
    points: Seq<(i64, i64)>,
    n: int,
    t: int,
    b: int,
    prev: int,
    pick: int,
) -> bool {
    &&& forall|j: int|
        bucket_lo(n, t, b) <= j < bucket_lo(n, t, b + 1) ==> #[trigger] candidate_area(
            points,
            n,
            t,
            b,
            prev,
            j,
        ) <= candidate_area(points, n, t, b, prev, pick)
    &&& forall|j: int|
        bucket_lo(n, t, b) <= j < pick ==> #[trigger] candidate_area(points, n, t, b, prev, j)
            < candidate_area(points, n, t, b, prev, pick)
}

/// Sum of the x (respectively y) coordinates of `points[lo..hi]`.
pub open spec fn spec_sum_x(points: Seq<(i64, i64)>, lo: int, hi: int) -> int
    decreases hi - lo,
{
    if lo >= hi {
        0
    } else {
        spec_sum_x(points, lo, hi - 1) + points[hi - 1].0
    }
}

pub open spec fn spec_sum_y(points: Seq<(i64, i64)>, lo: int, hi: int) -> int
    decreases hi - lo,
{
    if lo >= hi {
        0
    } else {
        spec_sum_y(points, lo, hi - 1) + points[hi - 1].1
    }
}

proof fn lemma_sum_bounds(points: Seq<(i64, i64)>, lo: int, hi: int)
    requires
        plot_bounded(points),
        0 <= lo,
        lo <= hi,
        hi <= points.len(),
    ensures
        -(hi - lo) * (MAX_PLOT_COORD as int) <= spec_sum_x(points, lo, hi) <= (hi - lo) * (
        MAX_PLOT_COORD as int),
        -(hi - lo) * (MAX_PLOT_COORD as int) <= spec_sum_y(points, lo, hi) <= (hi - lo) * (
        MAX_PLOT_COORD as int),
    decreases hi - lo,
{
    if lo < hi {
        lemma_sum_bounds(points, lo, hi - 1);
        assert((hi - lo) * (MAX_PLOT_COORD as int) == (hi - 1 - lo) * (MAX_PLOT_COORD as int)
            + MAX_PLOT_COORD) by (nonlinear_arith);
    }
}

/// Sums the coordinates of `points[lo..hi]`.
fn sum_points(points: &Vec<(i64, i64)>, lo: usize, hi: usize) -> (r: (i64, i64))
    requires
        lo <= hi,
        hi <= points@.len(),
        points@.len() <= MAX_PLOT_LEN,
        plot_bounded(points@),
    ensures
        r.0 == spec_sum_x(points@, lo as int, hi as int),
        r.1 == spec_sum_y(points@, lo as int, hi as int),
{
    let mut sx: i64 = 0;
    let mut sy: i64 = 0;
    let mut j = lo;
    while j < hi
        invariant
            lo <= j <= hi,
            hi <= points@.len(),
            points@.len() <= MAX_PLOT_LEN,
            plot_bounded(points@),
            sx == spec_sum_x(points@, lo as int, j as int),
            sy == spec_sum_y(points@, lo as int, j as int),
        decreases hi - j,
    {
        proof {
            lemma_sum_bounds(points@, lo as int, j as int);
            assert((j - lo) * (MAX_PLOT_COORD as int) <= (MAX_PLOT_LEN as int) * (
            MAX_PLOT_COORD as int)) by (nonlinear_arith)
                requires
                    0 <= j - lo <= MAX_PLOT_LEN,
            ;
        }
        let p = points[j];
        sx = sx + p.0;
        sy = sy + p.1;
        j = j + 1;
    }
    (sx, sy)
}

/// The scaled triangle area used to rank candidates.
fn scaled_area2(
    px: i64,
    py: i64,
    qx: i64,
    qy: i64,
    sx: i64,
    sy: i64,
    cm: i64,
) -> (r: i128)
    requires
        -MAX_PLOT_COORD <= px <= MAX_PLOT_COORD,
        -MAX_PLOT_COORD <= py <= MAX_PLOT_COORD,
        -MAX_PLOT_COORD <= qx <= MAX_PLOT_COORD,
        -MAX_PLOT_COORD <= qy <= MAX_PLOT_COORD,
        0 <= cm <= MAX_PLOT_LEN,
        -(MAX_PLOT_LEN as int) * (MAX_PLOT_COORD as int) <= sx <= (MAX_PLOT_LEN as int) * (
        MAX_PLOT_COORD as int),
        -(MAX_PLOT_LEN as int) * (MAX_PLOT_COORD as int) <= sy <= (MAX_PLOT_LEN as int) * (
        MAX_PLOT_COORD as int),
    ensures
        r == spec_scaled_area2(
            px as int,
            py as int,
            qx as int,
            qy as int,
            sx as int,
            sy as int,
            cm as int,
        ),
{
    proof {
        assert((cm as int) * (px as int) <= (MAX_PLOT_LEN as int) * (MAX_PLOT_COORD as int)
            && (cm as int) * (px as int) >= -(MAX_PLOT_LEN as int) * (MAX_PLOT_COORD as int)
            && (cm as int) * (py as int) <= (MAX_PLOT_LEN as int) * (MAX_PLOT_COORD as int)
            && (cm as int) * (py as int) >= -(MAX_PLOT_LEN as int) * (MAX_PLOT_COORD as int))
            by (nonlinear_arith)
            requires
                0 <= cm <= MAX_PLOT_LEN,
                -MAX_PLOT_COORD <= px <= MAX_PLOT_COORD,
                -MAX_PLOT_COORD <= py <= MAX_PLOT_COORD,
        ;
    }
    let a: i128 = (cm as i128) * (px as i128) - (sx as i128);
    let b: i128 = (qy as i128) - (py as i128);
    let c: i128 = (px as i128) - (qx as i128);
    let d: i128 = (cm as i128) * (py as i128) - (sy as i128);
    proof {
        lemma_abs_mul_bound(a as int, b as int, 0x2000_0000_0000_0000, 0x1_0000_0000);
        lemma_abs_mul_bound(c as int, d as int, 0x1_0000_0000, 0x2000_0000_0000_0000);
    }
    let v: i128 = a * b - c * d;
    if v >= 0 {
        v
    } else {
        -v
    }
}

/// Picks the indices a largest-triangle downsampling keeps.
///
/// The triangle for each interior bucket anchors on the centroid of the
/// bucket that follows it — the canonical anchor for this family of
/// heuristics; an anchor on the current bucket's own average is a known
/// variant, not used here.
///
/// With `target < 3` or `target >= n` the whole series is kept: the result
/// is the identity index sequence.  Otherwise exactly `target` indices come
/// back: index 0, one index out of each interior bucket, and index `n - 1`,
/// strictly increasing.  Within interior bucket `b` the point chosen is the
/// first one maximising the triangle area spanned with the previously
/// selected point and the centroid of the following bucket.
pub fn select_indices(points: &Vec<(i64, i64)>, target: usize) -> (r: Vec<usize>)
    requires
        points@.len() <= MAX_PLOT_LEN,
        plot_bounded(points@),
    ensures
        (target < 3 || target >= points@.len()) ==> r@ =~= Seq::new(
            points@.len(),
            |i: int| i as usize,
        ),
        (3 <= target < points@.len()) ==> {
            let n = points@.len() as int;
            let t = target as int;
            &&& r@.len() == target
            &&& r@[0] == 0usize
            &&& r@[t - 1] == (points@.len() - 1) as usize
            &&& forall|b: int|
                0 <= b < t - 2 ==> bucket_lo(n, t, b) <= #[trigger] r@[b + 1] < bucket_lo(
                    n,
                    t,
                    b + 1,
                )
            &&& forall|i: int| 0 <= i < t - 1 ==> #[trigger] r@[i] < r@[i + 1]
            &&& forall|i: int| 0 <= i < t ==> #[trigger] r@[i] < points@.len()
            &&& forall|b: int|
                #![trigger r@[b + 1]]
                0 <= b < t - 2 ==> picks_largest_triangle(
                    points@,
                    n,
                    t,
                    b,
                    r@[b] as int,
                    r@[b + 1] as int,
                )
        },
{
    let n = points.len();
    if target < 3 || target >= n {
        let mut r: Vec<usize> = Vec::new();
        let mut i: usize = 0;
        while i < n
            invariant
                0 <= i <= n,
                n == points@.len(),
                r@.len() == i,
                forall|j: int| 0 <= j < i ==> r@[j] == j as usize,
            decreases n - i,
        {
            r.push(i);
            i = i + 1;
        }
        proof {
            assert(r@ =~= Seq::new(points@.len(), |i: int| i as usize));
        }
        return r;
    }
    let ghost gn = n as int;
    let ghost gt = target as int;
    let k: u64 = (n - 2) as u64;
    let m: u64 = (target - 2) as u64;
    let mut r: Vec<usize> = Vec::new();
    r.push(0);
    let mut prev: usize = 0;
    let mut b: usize = 0;
    while b < target - 2
        invariant
            0 <= b <= target - 2,
            3 <= target < n,
            n == points@.len(),
            n <= MAX_PLOT_LEN,
            plot_bounded(points@),
            k == gn - 2,
            m == gt - 2,
            gn == n as int,
            gt == target as int,
            r@.len() == b + 1,
            r@[0] == 0usize,
            prev == r@[b as int],
            prev < n,
            forall|c: int|
                0 <= c < b ==> bucket_lo(gn, gt, c) <= #[trigger] r@[c + 1] < bucket_lo(
                    gn,
                    gt,
                    c + 1,
                ),
            forall|c: int|
                #![trigger r@[c + 1]]
                0 <= c < b ==> picks_largest_triangle(
                    points@,
                    gn,
                    gt,
                    c,
                    r@[c] as int,
                    r@[c + 1] as int,
                ),
        decreases target - 2 - b,
    {
        proof {
            assert((b as int) * (k as int) <= (m as int) * (k as int)) by (nonlinear_arith)
                requires
                    0 <= b as int <= m as int,
                    k as int >= 0,
            ;
            assert((b as int + 1) * (k as int) <= (m as int) * (k as int)) by (nonlinear_arith)
                requires
                    b as int + 1 <= m as int,
                    k as int >= 0,
            ;
            assert((b as int + 2) * (k as int) <= (m as int + 1) * (k as int)) by (nonlinear_arith)
                requires
                    b as int + 2 <= m as int + 1,
                    k as int >= 0,
            ;
            assert((m as int + 1) * (k as int) <= 0x4000_0000 * 0x4000_0001) by (nonlinear_arith)
                requires
                    0 <= m as int <= 0x4000_0000,
                    0 <= k as int <= 0x4000_0000,
            ;
            assert((m as int) * (k as int) <= (m as int + 1) * (k as int)) by (nonlinear_arith)
                requires
                    k as int >= 0,
            ;
            lemma_bucket_lo_step(gn, gt, b as int);
            lemma_bucket_lo_monotone(gn, gt, b as int + 1, m as int);
            lemma_bucket_lo_last(gn, gt);
        }
        let lo: usize = (1 + (b as u64) * k / m) as usize;
        let hi: usize = (1 + ((b as u64) + 1) * k / m) as usize;
        proof {
            assert(lo == bucket_lo(gn, gt, b as int));
            assert(hi == bucket_lo(gn, gt, b as int + 1));
            assert(hi <= gn - 1);
        }
        // Range whose centroid anchors the triangle: the next bucket, or
        // the final sample alone after the last interior bucket.
        let (nlo, nhi): (usize, usize) = if b + 1 < target - 2 {
            proof {
                lemma_bucket_lo_step(gn, gt, b as int + 1);
                lemma_bucket_lo_monotone(gn, gt, b as int + 2, m as int);
            }
            (hi, (1 + ((b as u64) + 2) * k / m) as usize)
        } else {
            (n - 1, n)
        };
        proof {
            assert((nlo as int, nhi as int) == next_range(gn, gt, b as int));
        }
        // The floor-divided boundaries never produce a zero-width
        // anchoring range: each interior bucket is nonempty and the final
        // anchor is the last sample alone.
        let s = sum_points(points, nlo, nhi);
        let (sx, sy, cm): (i64, i64, i64) = (s.0, s.1, (nhi - nlo) as i64);
        proof {
            lemma_sum_bounds(points@, nlo as int, nhi as int);
            assert((nhi - nlo) * (MAX_PLOT_COORD as int) <= (MAX_PLOT_LEN as int) * (
            MAX_PLOT_COORD as int)) by (nonlinear_arith)
                requires
                    0 <= nhi - nlo <= MAX_PLOT_LEN,
            ;
            assert((sx as int, sy as int, cm as int) == centroid_parts(points@, gn, gt, b as int));
        }
        let pp = points[prev];
        let mut best: usize = lo;
        let pb = points[lo];
        let mut best_area: i128 = scaled_area2(pp.0, pp.1, pb.0, pb.1, sx, sy, cm);
        proof {
            assert(best_area == candidate_area(points@, gn, gt, b as int, prev as int, lo as int));
        }
        let mut j: usize = lo + 1;
        while j < hi
            invariant
                lo < n,
                hi <= n,
                n == points@.len(),
                n <= MAX_PLOT_LEN,
                plot_bounded(points@),
                lo <= best < hi,
                lo < j <= hi,
                prev < n,
                gn == n as int,
                gt == target as int,
                3 <= target < n,
                lo == bucket_lo(gn, gt, b as int),
                hi == bucket_lo(gn, gt, b as int + 1),
                -(MAX_PLOT_LEN as int) * (MAX_PLOT_COORD as int) <= sx <= (MAX_PLOT_LEN as int) * (
                MAX_PLOT_COORD as int),
                -(MAX_PLOT_LEN as int) * (MAX_PLOT_COORD as int) <= sy <= (MAX_PLOT_LEN as int) * (
                MAX_PLOT_COORD as int),
                0 <= cm <= MAX_PLOT_LEN,
                pp == points@[prev as int],
                (sx as int, sy as int, cm as int) == centroid_parts(points@, gn, gt, b as int),
                best_area == candidate_area(points@, gn, gt, b as int, prev as int, best as int),
                forall|q: int|
                    lo <= q < j ==> #[trigger] candidate_area(points@, gn, gt, b as int, prev as int, q)
                        <= best_area,
                forall|q: int|
                    lo <= q < best ==> #[trigger] candidate_area(points@, gn, gt, b as int, prev as int, q)
                        < best_area,
            decreases hi - j,
        {
            let pj = points[j];
            let area = scaled_area2(pp.0, pp.1, pj.0, pj.1, sx, sy, cm);
            proof {
                assert(area == candidate_area(points@, gn, gt, b as int, prev as int, j as int));
            }
            if area > best_area {
                best = j;
                best_area = area;
            }
            j = j + 1;
        }
        proof {
            assert(picks_largest_triangle(points@, gn, gt, b as int, prev as int, best as int));
        }
        let ghost r_mid = r@;
        r.push(best);
        proof {
            assert forall|c: int|
                #![trigger r@[c + 1]]
                0 <= c < b + 1 implies picks_largest_triangle(
                points@,
                gn,
                gt,
                c,
                r@[c] as int,
                r@[c + 1] as int,
            ) by {
                if c < b {
                    assert(r@[c] == r_mid[c]);
                    assert(r@[c + 1] == r_mid[c + 1]);
                } else {
                    assert(r@[c] == r_mid[c]);
                    assert(r@[c] == prev);
                    assert(r@[c + 1] == best);
                }
            }
        }
        prev = best;
        b = b + 1;
    }
    proof {
        lemma_bucket_lo_last(gn, gt);
    }
    let ghost r_before = r@;
    r.push(n - 1);
    proof {
        let t = gt;
        assert forall|c: int| 0 <= c < t - 2 implies bucket_lo(gn, gt, c) <= #[trigger] r@[c + 1]
            < bucket_lo(gn, gt, c + 1) by {
            assert(r@[c + 1] == r_before[c + 1]);
        }
        assert forall|c: int|
            #![trigger r@[c + 1]]
            0 <= c < t - 2 implies picks_largest_triangle(
            points@,
            gn,
            gt,
            c,
            r@[c] as int,
            r@[c + 1] as int,
        ) by {
            assert(r@[c] == r_before[c]);
            assert(r@[c + 1] == r_before[c + 1]);
        }
        assert(r@[0] == 0usize);
        assert(r@[t - 1] == (points@.len() - 1) as usize);
        assert forall|i: int| 0 <= i < t - 1 implies #[trigger] r@[i] < r@[i + 1] by {
            if i == 0 {
                assert(bucket_lo(gn, gt, 0) == 1) by {
                    assert(0int * (gn - 2) == 0) by (nonlinear_arith);
                }
                assert(r@[0int + 1] >= bucket_lo(gn, gt, 0));
            } else if i < t - 2 {
                assert(bucket_lo(gn, gt, i - 1) <= r@[i - 1 + 1] < bucket_lo(gn, gt, i));
                assert(bucket_lo(gn, gt, i) <= r@[i + 1]);
            } else {
                assert(i == t - 2);
                lemma_bucket_lo_last(gn, gt);
                assert(bucket_lo(gn, gt, i - 1) <= r@[i - 1 + 1] < bucket_lo(gn, gt, t - 2));
            }
        }
        assert forall|i: int| 0 <= i < t implies #[trigger] r@[i] < points@.len() by {
            if 0 < i < t - 1 {
                assert(bucket_lo(gn, gt, i - 1) <= r@[i - 1 + 1] < bucket_lo(gn, gt, i));
                lemma_bucket_lo_monotone(gn, gt, i, t - 2);
                lemma_bucket_lo_last(gn, gt);
            }
        }
    }
    r
}

/// The length a downsampled series has: the original length when the
/// target triggers the no-op branch, the target otherwise.
pub open spec fn spec_downsample_len(n: int, t: int) -> int {
    if t < 3 || t >= n {
        n
    } else {
        t
    }
}

/// Downsampling is idempotent: the length of a downsampled series never
/// exceeds its target, so running the reduction again with the same
/// target always lands in the no-op branch, which by `downsample`'s
/// contract returns the series unchanged, element for element.
pub proof fn lemma_downsample_idempotent(n: int, t: int)
    ensures
        t < 3 || t >= spec_downsample_len(n, t),
        spec_downsample_len(spec_downsample_len(n, t), t) == spec_downsample_len(n, t),
{
}

/// `sel` is an index selection a downsampling of `n` samples to target
/// `t` may produce: the identity below the engagement threshold,
/// otherwise exactly `t` strictly increasing in-range positions that keep
/// both endpoints.
pub open spec fn is_downsample_selection(sel: Seq<int>, n: int, t: int) -> bool {
    &&& sel.len() == spec_downsample_len(n, t)
    &&& forall|i: int| 0 <= i < sel.len() ==> 0 <= #[trigger] sel[i] < n
    &&& forall|i: int| 0 <= i < sel.len() - 1 ==> #[trigger] sel[i] < sel[i + 1]
    &&& ((t < 3 || t >= n) ==> sel =~= Seq::new(n as nat, |i: int| i))
    &&& ((3 <= t < n) ==> sel[0] == 0 && sel[t - 1] == n - 1)
}

impl<T> crate::store::LogVec<T> {
    /// Reduces this history to at most `opt.threshold` visually
    /// representative samples.  `points` gives each sample's (x, y)
    /// plotting coordinates, used purely for the shape heuristic: the
    /// returned values are references to original samples, unmodified.
    ///
    /// A target below 3 or at least the series length returns the full
    /// series unchanged.  Otherwise exactly `opt.threshold` samples come
    /// back: the first and last original sample verbatim, and one sample
    /// out of each interior bucket, in their original order.
    #[verifier::rlimit(60)]
    pub fn downsample<'a>(
        &'a self,
        points: &Vec<(i64, i64)>,
        opt: &DownsampleOption,
    ) -> (r: Vec<&'a T>)
        requires
            points@.len() == self@.len(),
            self@.len() <= MAX_PLOT_LEN,
            plot_bounded(points@),
        ensures
            r@.len() == spec_downsample_len(self@.len() as int, opt.threshold as int),
            (opt.threshold < 3 || opt.threshold >= self@.len()) ==> forall|i: int|
                0 <= i < self@.len() ==> *(#[trigger] r@[i]) == self@[i],
            (3 <= opt.threshold < self@.len()) ==> {
                &&& *r@[0] == self@[0]
                &&& *r@[opt.threshold - 1] == self@[self@.len() - 1]
            },
            exists|sel: Seq<int>|
                {
                    &&& is_downsample_selection(
                        sel,
                        self@.len() as int,
                        opt.threshold as int,
                    )
                    &&& sel.len() == r@.len()
                    &&& (forall|i: int|
                        0 <= i < sel.len() ==> *(#[trigger] r@[i]) == self@[sel[i]])
                },
    {
        let idx = select_indices(points, opt.threshold);
        let ghost sel = Seq::<int>::new(idx@.len() as nat, |i: int| idx@[i] as int);
        let n = idx.len();
        let mut r: Vec<&T> = Vec::new();
        let mut i: usize = 0;
        proof {
            if opt.threshold < 3 || opt.threshold >= self@.len() {
                assert(idx@ =~= Seq::new(points@.len(), |i: int| i as usize));
            } else {
                assert(idx@[0] == 0usize);
                assert forall|a: int| 0 <= a < idx@.len() - 1 implies #[trigger] idx@[a]
                    < idx@[a + 1] by {}
            }
            assert forall|a: int| 0 <= a < idx@.len() implies #[trigger] idx@[a]
                < self@.len() by {}
        }
        while i < n
            invariant
                0 <= i <= n,
                n == idx@.len(),
                points@.len() == self@.len(),
                forall|a: int| 0 <= a < idx@.len() ==> #[trigger] idx@[a] < self@.len(),
                r@.len() == i,
                forall|a: int| 0 <= a < i ==> *(#[trigger] r@[a]) == self@[idx@[a] as int],
            decreases n - i,
        {
            r.push(self.get(idx[i]));
            i = i + 1;
        }
        proof {
            assert(sel.len() == r@.len());
            assert forall|a: int| 0 <= a < sel.len() implies 0 <= #[trigger] sel[a] < self@.len()
                && *r@[a] == self@[sel[a]] by {}
            if opt.threshold < 3 || opt.threshold >= self@.len() {
                assert forall|a: int| 0 <= a < sel.len() - 1 implies #[trigger] sel[a]
                    < sel[a + 1] by {}
                assert(sel =~= Seq::new(self@.len() as nat, |i: int| i));
            } else {
                assert forall|a: int| 0 <= a < sel.len() - 1 implies #[trigger] sel[a]
                    < sel[a + 1] by {
                    assert(idx@[a] < idx@[a + 1]);
                }
                assert(sel[0] == 0);
                assert(sel[opt.threshold - 1] == self@.len() - 1);
            }
            assert(is_downsample_selection(sel, self@.len() as int, opt.threshold as int));
        }
        r
    }
}

} // verus!
