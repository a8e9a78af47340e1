use cephylas::downsample::{select_indices, DownsampleOption};
use cephylas::store::LogVec;

fn ramp(n: usize) -> Vec<(i64, i64)> {
    (0..n).map(|i| (i as i64, ((i * 7) % 100) as i64)).collect()
}

#[test]
fn default_threshold_is_512() {
    let opt = DownsampleOption::default();
    assert_eq!(opt.threshold, 512);
}

#[test]
fn target_at_least_length_is_identity() {
    let points = ramp(100);
    let idx = select_indices(&points, 100);
    assert_eq!(idx.len(), 100);
    for (i, v) in idx.iter().enumerate() {
        assert_eq!(*v, i);
    }
    let idx2 = select_indices(&points, 500);
    assert_eq!(idx2.len(), 100);
}

#[test]
fn target_below_three_is_identity() {
    let points = ramp(50);
    for t in 0..3 {
        let idx = select_indices(&points, t);
        assert_eq!(idx.len(), 50);
        for (i, v) in idx.iter().enumerate() {
            assert_eq!(*v, i);
        }
    }
}

#[test]
fn reduction_keeps_first_and_last_and_count() {
    let points = ramp(100);
    let idx = select_indices(&points, 10);
    assert_eq!(idx.len(), 10);
    assert_eq!(idx[0], 0);
    assert_eq!(idx[9], 99);
    for w in idx.windows(2) {
        assert!(w[0] < w[1]);
    }
}

#[test]
fn ten_thousand_to_512_keeps_endpoints() {
    // A long series reduced for plotting returns exactly 512 points,
    // including the first and last original samples.
    let points = ramp(10000);
    let idx = select_indices(&points, 512);
    assert_eq!(idx.len(), 512);
    assert_eq!(idx[0], 0);
    assert_eq!(idx[511], 9999);
    for w in idx.windows(2) {
        assert!(w[0] < w[1]);
    }
}

#[test]
fn downsampling_is_idempotent() {
    // Reducing an already-reduced series with the same target returns it
    // unchanged, element for element.
    let mut series: LogVec<u64> = LogVec::new();
    let mut points: Vec<(i64, i64)> = Vec::new();
    for i in 0..200u64 {
        series.push(i);
        points.push((i as i64, ((i * 13) % 97) as i64));
    }
    let opt = DownsampleOption { threshold: 20 };
    let first: Vec<u64> = series.downsample(&points, &opt).into_iter().cloned().collect();
    assert_eq!(first.len(), 20);

    let mut reduced: LogVec<u64> = LogVec::new();
    let mut reduced_points: Vec<(i64, i64)> = Vec::new();
    for v in &first {
        reduced.push(*v);
        reduced_points.push((*v as i64, ((*v * 13) % 97) as i64));
    }
    let second: Vec<u64> = reduced.downsample(&reduced_points, &opt).into_iter().cloned().collect();
    assert_eq!(first, second);
}

#[test]
fn downsample_returns_original_samples() {
    let mut series: LogVec<u64> = LogVec::new();
    let mut points: Vec<(i64, i64)> = Vec::new();
    for i in 0..50u64 {
        series.push(i * 3);
        points.push((i as i64, (i % 10) as i64));
    }
    let opt = DownsampleOption { threshold: 7 };
    let picked: Vec<u64> = series.downsample(&points, &opt).into_iter().cloned().collect();
    assert_eq!(picked.len(), 7);
    assert_eq!(picked[0], 0);
    assert_eq!(picked[6], 49 * 3);
    // Every returned value is an original sample, in original order.
    let mut last = 0u64;
    for v in &picked {
        assert_eq!(*v % 3, 0);
        assert!(*v >= last);
        last = *v;
    }
}
