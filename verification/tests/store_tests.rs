use cephylas::store::{LogVec, UsageCacheMap};
use cephylas::MAX_LOG_LENGTH;

#[test]
fn log_vec_keeps_insertion_order() {
    let mut v: LogVec<u64> = LogVec::new();
    assert_eq!(v.len(), 0);
    v.push(1);
    v.push(2);
    v.push(3);
    assert_eq!(v.len(), 3);
    assert_eq!(*v.get(0), 1);
    assert_eq!(*v.get(1), 2);
    assert_eq!(*v.get(2), 3);
}

#[test]
fn log_vec_evicts_oldest_at_capacity() {
    // After N >= C inserts the buffer holds exactly the last C samples,
    // in order.
    let mut v: LogVec<usize> = LogVec::new();
    let n = MAX_LOG_LENGTH + 25;
    for i in 0..n {
        v.push(i);
    }
    assert_eq!(v.len(), MAX_LOG_LENGTH);
    assert_eq!(*v.get(0), 25);
    assert_eq!(*v.get(MAX_LOG_LENGTH - 1), n - 1);
    for k in 0..MAX_LOG_LENGTH {
        assert_eq!(*v.get(k), k + 25);
    }
}

#[test]
fn cache_map_creates_and_appends() {
    let mut m: UsageCacheMap<u64> = UsageCacheMap::new();
    assert!(m.get("web").is_none());
    m.insert("web".to_string(), 10);
    m.insert("web".to_string(), 20);
    let series = m.get("web").expect("series should exist");
    assert_eq!(series.len(), 2);
    assert_eq!(*series.get(0), 10);
    assert_eq!(*series.get(1), 20);
    assert!(m.get("db").is_none());
}

#[test]
fn cache_map_lists_names_sorted() {
    let mut m: UsageCacheMap<u64> = UsageCacheMap::new();
    m.insert("web".to_string(), 1);
    m.insert("api".to_string(), 2);
    m.insert("db".to_string(), 3);
    m.insert("api".to_string(), 4);
    let names: Vec<String> = m.container_names().into_iter().cloned().collect();
    assert_eq!(names, vec!["api".to_string(), "db".to_string(), "web".to_string()]);
}

#[test]
fn cache_map_register_creates_empty_series() {
    let mut m: UsageCacheMap<u64> = UsageCacheMap::new();
    m.register("db".to_string());
    let series = m.get("db").expect("registered container should exist");
    assert_eq!(series.len(), 0);
    // Registering again does not disturb recorded samples.
    m.insert("db".to_string(), 7);
    m.register("db".to_string());
    assert_eq!(m.get("db").unwrap().len(), 1);
}
