use cephylas::logline::{lines_to_skip, parse_usages_line};
use cephylas::usage::{
    ContainerUsage, CpuUsage, IoUsage, MemoryUsage, NetUsage, Usage, Usages,
};
use cephylas::MAX_LOG_LENGTH;

fn sample_usages() -> Usages {
    Usages {
        time: "2024-01-01T00:00:10Z".to_string(),
        millis: 10000,
        usages: vec![ContainerUsage {
            name: "web".to_string(),
            usage: Usage {
                cpu: CpuUsage {
                    percentage: Some(8000),
                    total: Some(200),
                    system: Some(500),
                    ncpu: Some(2),
                },
                memory: MemoryUsage {
                    percentage: Some(2500),
                    used: Some(1024),
                    available: Some(4096),
                },
                io: IoUsage {
                    readkB: Some(21000),
                    writekB: None,
                    readkBps: Some(2000),
                    writekBps: Some(0),
                },
                net: NetUsage {
                    recvkB: None,
                    sendkB: Some(10),
                    recvkBps: None,
                    sendkBps: Some(1),
                },
            },
        }],
    }
}

#[test]
fn daily_log_line_round_trips() {
    // A line written by this crate's renderer reads back as the same
    // tick, fixed-point percentages included.
    let u = sample_usages();
    let line = u.to_json();
    let back = parse_usages_line(&line).expect("own log line should parse");
    assert_eq!(back, u);
}

#[test]
fn percentage_with_two_decimals_reads_back_exactly() {
    let line = "{\"time\":\"t\",\"millis\":10000,\"stats\":{\"web\":{\"cpu\":{\"percentage\":80.00,\"total\":200,\"system\":500,\"ncpu\":2},\"memory\":{\"percentage\":null,\"used\":null,\"available\":null},\"io\":{\"readkB\":null,\"writekB\":null,\"readkBps\":null,\"writekBps\":null},\"net\":{\"recvkB\":null,\"sendkB\":null,\"recvkBps\":null,\"sendkBps\":null}}}}";
    let u = parse_usages_line(line).expect("line should parse");
    assert_eq!(u.usages.len(), 1);
    assert_eq!(u.usages[0].usage.cpu.percentage, Some(8000));
    assert_eq!(u.usages[0].usage.memory.percentage, None);
}

#[test]
fn whole_number_percentage_scales_to_hundredths() {
    let line = "{\"time\":\"t\",\"millis\":10000,\"stats\":{\"web\":{\"cpu\":{\"percentage\":80,\"total\":null,\"system\":null,\"ncpu\":null},\"memory\":{\"percentage\":0.5,\"used\":null,\"available\":null},\"io\":{\"readkB\":null,\"writekB\":null,\"readkBps\":null,\"writekBps\":null},\"net\":{\"recvkB\":null,\"sendkB\":null,\"recvkBps\":null,\"sendkBps\":null}}}}";
    let u = parse_usages_line(line).expect("line should parse");
    assert_eq!(u.usages[0].usage.cpu.percentage, Some(8000));
    assert_eq!(u.usages[0].usage.memory.percentage, Some(50));
}

#[test]
fn malformed_lines_are_skipped() {
    assert!(parse_usages_line("").is_none());
    assert!(parse_usages_line("{\"millis\":10}").is_none());
    assert!(parse_usages_line("{\"time\":\"t\"}").is_none());
    assert!(parse_usages_line("garbage").is_none());
}

#[test]
fn warm_start_replays_only_the_tail() {
    assert_eq!(lines_to_skip(0), 0);
    assert_eq!(lines_to_skip(MAX_LOG_LENGTH as u64), 0);
    assert_eq!(lines_to_skip(MAX_LOG_LENGTH as u64 + 12), 12);
}
