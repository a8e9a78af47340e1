use cephylas::cache::{TimedCpuUsage, TimedIoUsage, TimedNetUsage, UsageCache};
use cephylas::downsample::DownsampleOption;
use cephylas::query::{handle_request, StatusCode};

fn request(line: &str) -> Vec<u8> {
    format!("{}\r\nHost: localhost\r\n\r\n", line).into_bytes()
}

fn body_of(response: &str) -> &str {
    let sep = response.find("\r\n\r\n").expect("header separator");
    &response[sep + 4..]
}

#[test]
fn containers_listing_is_sorted() {
    let mut cache = UsageCache::new();
    cache.cpu.insert(
        "web".to_string(),
        TimedCpuUsage { time: "t".to_string(), percentage: Some(100) },
    );
    cache.cpu.insert(
        "api".to_string(),
        TimedCpuUsage { time: "t".to_string(), percentage: Some(200) },
    );
    let (status, response) = handle_request(
        &cache,
        &request("GET /containers HTTP/1.1"),
        &DownsampleOption::default(),
    );
    assert_eq!(status, StatusCode::Success);
    assert_eq!(body_of(&response), "[\"api\",\"web\"]");
    assert!(response.starts_with("HTTP/1.1 200 OK\r\n"));
}

#[test]
fn known_but_never_sampled_container_gets_empty_array() {
    // A container seen only during warm-up is known with an empty
    // history: the API answers an empty array, not "not found".
    let mut cache = UsageCache::new();
    cache.register_container("db");
    let (status, response) = handle_request(
        &cache,
        &request("GET /containers/db/cpu HTTP/1.1"),
        &DownsampleOption::default(),
    );
    assert_eq!(status, StatusCode::Success);
    assert_eq!(body_of(&response), "[]");
}

#[test]
fn unknown_container_is_not_found() {
    let mut cache = UsageCache::new();
    cache.register_container("db");
    let (status, response) = handle_request(
        &cache,
        &request("GET /containers/ghost/cpu HTTP/1.1"),
        &DownsampleOption::default(),
    );
    assert_eq!(status, StatusCode::NotFound);
    assert_eq!(response, "HTTP/1.1 404 NotFound\r\n\r\n");
}

#[test]
fn cpu_series_renders_samples() {
    let mut cache = UsageCache::new();
    cache.cpu.insert(
        "web".to_string(),
        TimedCpuUsage { time: "2024-01-01T00:00:10Z".to_string(), percentage: Some(8000) },
    );
    cache.cpu.insert(
        "web".to_string(),
        TimedCpuUsage { time: "2024-01-01T00:00:20Z".to_string(), percentage: None },
    );
    let (status, response) = handle_request(
        &cache,
        &request("GET /containers/web/cpu HTTP/1.1"),
        &DownsampleOption::default(),
    );
    assert_eq!(status, StatusCode::Success);
    let expected = "[{\"time\":\"2024-01-01T00:00:10Z\",\"percentage\":80.00},{\"time\":\"2024-01-01T00:00:20Z\",\"percentage\":null}]";
    assert_eq!(body_of(&response), expected);
}

#[test]
fn non_get_method_is_refused() {
    let cache = UsageCache::new();
    let (status, response) = handle_request(
        &cache,
        &request("POST /containers HTTP/1.1"),
        &DownsampleOption::default(),
    );
    assert_eq!(status, StatusCode::MethodNotAllowed);
    assert_eq!(response, "HTTP/1.1 405 MethodNotAllowed\r\n\r\n");
}

#[test]
fn unknown_route_is_not_found() {
    let cache = UsageCache::new();
    let (status, _) = handle_request(
        &cache,
        &request("GET /metrics HTTP/1.1"),
        &DownsampleOption::default(),
    );
    assert_eq!(status, StatusCode::NotFound);
    let (status2, _) = handle_request(
        &cache,
        &request("GET /containers/web/disk HTTP/1.1"),
        &DownsampleOption::default(),
    );
    assert_eq!(status2, StatusCode::NotFound);
    let (status3, _) = handle_request(
        &cache,
        &request("GET /containers/web/io/sideways HTTP/1.1"),
        &DownsampleOption::default(),
    );
    assert_eq!(status3, StatusCode::NotFound);
}

#[test]
fn malformed_request_line_is_a_generic_error() {
    let cache = UsageCache::new();
    let (status, response) = handle_request(
        &cache,
        b"GARBAGE\r\n\r\n",
        &DownsampleOption::default(),
    );
    assert_eq!(status, StatusCode::InternalServerError);
    assert!(response.starts_with("HTTP/1.1 500 InternalError\r\n\r\n"));
}

#[test]
fn io_and_net_routes_resolve() {
    let mut cache = UsageCache::new();
    cache.io.insert(
        "web".to_string(),
        TimedIoUsage { time: "t".to_string(), readkBps: Some(5), writekBps: Some(6) },
    );
    cache.net.insert(
        "web".to_string(),
        TimedNetUsage { time: "t".to_string(), recvkBps: Some(7), sendkBps: Some(8) },
    );
    for path in
        ["/containers/web/io/read", "/containers/web/io/write", "/containers/web/net/recv", "/containers/web/net/send"]
    {
        let (status, _) = handle_request(
            &cache,
            &request(&format!("GET {} HTTP/1.1", path)),
            &DownsampleOption::default(),
        );
        assert_eq!(status, StatusCode::Success);
    }
    // The io route knows nothing about a container only the net store has.
    cache.net.insert(
        "lonely".to_string(),
        TimedNetUsage { time: "t".to_string(), recvkBps: None, sendkBps: None },
    );
    let (status, _) = handle_request(
        &cache,
        &request("GET /containers/lonely/io/read HTTP/1.1"),
        &DownsampleOption::default(),
    );
    assert_eq!(status, StatusCode::NotFound);
}
