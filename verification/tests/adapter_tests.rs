use cephylas::adapter::{
    container_names_from_body, parse_stats_body, reshape_json, strip_slashes,
};

fn sample_stats_doc() -> &'static str {
    "{\"read\":\"2024-01-01T00:00:10.5Z\",\
      \"cpu_stats\":{\"cpu_usage\":{\"total_usage\":1200000000},\
                     \"system_cpu_usage\":10500000000,\"online_cpus\":2},\
      \"memory_stats\":{\"usage\":2048,\"stats\":{\"cache\":1024},\"limit\":4096},\
      \"networks\":{\"eth0\":{\"rx_bytes\":111,\"tx_bytes\":222}},\
      \"blkio_stats\":{\"io_service_bytes_recursive\":[\
          {\"op\":\"write\",\"value\":777},{\"op\":\"read\",\"value\":555}]}}"
}

#[test]
fn reshape_extracts_and_scales_all_counters() {
    let doc = json::parse(sample_stats_doc()).expect("well-formed document");
    let stats = reshape_json(&doc);
    // Nanoseconds scaled to milliseconds.
    assert_eq!(stats.cpu.total, Some(1200));
    assert_eq!(stats.cpu.system, Some(10500));
    assert_eq!(stats.cpu.ncpu, Some(2));
    // Cache subtracted from usage.
    assert_eq!(stats.memory.used, Some(1024));
    assert_eq!(stats.memory.available, Some(4096));
    assert_eq!(stats.net.recv, Some(111));
    assert_eq!(stats.net.send, Some(222));
    // The matching operation entry is found regardless of order.
    assert_eq!(stats.io.read, Some(555));
    assert_eq!(stats.io.write, Some(777));
    assert_eq!(stats.time, Some("2024-01-01T00:00:10.5Z".to_string()));
}

#[test]
fn reshape_leaves_missing_counters_absent() {
    let doc = json::parse("{\"memory_stats\":{\"usage\":100}}").unwrap();
    let stats = reshape_json(&doc);
    assert_eq!(stats.cpu.total, None);
    assert_eq!(stats.cpu.system, None);
    assert_eq!(stats.cpu.ncpu, None);
    // A missing cache entry counts as zero cache.
    assert_eq!(stats.memory.used, Some(100));
    assert_eq!(stats.memory.available, None);
    assert_eq!(stats.io.read, None);
    assert_eq!(stats.net.recv, None);
    assert_eq!(stats.time, None);
}

#[test]
fn parse_stats_body_rejects_malformed_json() {
    assert!(parse_stats_body("{not json").is_none());
    assert!(parse_stats_body(sample_stats_doc()).is_some());
}

#[test]
fn memory_cache_subtraction_clamps_at_zero() {
    let doc = json::parse(
        "{\"memory_stats\":{\"usage\":100,\"stats\":{\"cache\":500}}}",
    ).unwrap();
    let stats = reshape_json(&doc);
    assert_eq!(stats.memory.used, Some(0));
}

#[test]
fn strip_slashes_removes_every_slash() {
    assert_eq!(strip_slashes("/web"), "web");
    assert_eq!(strip_slashes("a/b/c"), "abc");
    assert_eq!(strip_slashes("plain"), "plain");
    assert_eq!(strip_slashes(""), "");
}

#[test]
fn container_names_read_from_listing() {
    let body = "[{\"Names\":[\"/web\"]},{\"Names\":[\"/db\"]}]";
    let names = container_names_from_body(body).expect("names should parse");
    assert_eq!(names, vec!["web".to_string(), "db".to_string()]);
}

#[test]
fn container_names_fail_when_a_name_is_missing() {
    let body = "[{\"Names\":[\"/web\"]},{\"NoNames\":true}]";
    assert!(container_names_from_body(body).is_none());
    assert!(container_names_from_body("not json").is_none());
}
