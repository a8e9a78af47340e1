use cephylas::cache::{TimedCpuUsage, TimedIoUsage, TimedMemoryUsage, TimedNetUsage};
use cephylas::jsonfmt::{data_to_json, JsonSample};
use cephylas::store::LogVec;
use cephylas::usage::{
    ContainerUsage, CpuUsage, IoUsage, MemoryUsage, NetUsage, Usage, Usages,
};

fn sample_usage() -> Usage {
    Usage {
        cpu: CpuUsage {
            percentage: Some(8000),
            total: Some(200),
            system: Some(500),
            ncpu: Some(2),
        },
        memory: MemoryUsage { percentage: None, used: Some(1024), available: None },
        io: IoUsage {
            readkB: Some(21000),
            writekB: None,
            readkBps: Some(2000),
            writekBps: Some(0),
        },
        net: NetUsage { recvkB: None, sendkB: Some(10), recvkBps: None, sendkBps: Some(1) },
    }
}

#[test]
fn fixed_point_percentage_renders_two_decimals() {
    let t = TimedCpuUsage { time: "T1".to_string(), percentage: Some(8000) };
    assert_eq!(t.to_json(), "{\"time\":\"T1\",\"percentage\":80.00}");
    let t2 = TimedCpuUsage { time: "T1".to_string(), percentage: Some(12345) };
    assert_eq!(t2.to_json(), "{\"time\":\"T1\",\"percentage\":123.45}");
    let t3 = TimedCpuUsage { time: "T1".to_string(), percentage: Some(5) };
    assert_eq!(t3.to_json(), "{\"time\":\"T1\",\"percentage\":0.05}");
}

#[test]
fn absent_values_render_as_null() {
    let t = TimedMemoryUsage { time: "T".to_string(), percentage: None };
    assert_eq!(t.to_json(), "{\"time\":\"T\",\"percentage\":null}");
    let io = TimedIoUsage { time: "T".to_string(), readkBps: None, writekBps: Some(3) };
    assert_eq!(io.to_json(), "{\"time\":\"T\",\"readkBps\":null,\"writekBps\":3}");
    let net = TimedNetUsage { time: "T".to_string(), recvkBps: Some(9), sendkBps: None };
    assert_eq!(net.to_json(), "{\"time\":\"T\",\"recvkBps\":9,\"sendkBps\":null}");
}

#[test]
fn usage_renders_all_four_kinds() {
    let u = sample_usage();
    let expected = "{\"cpu\":{\"percentage\":80.00,\"total\":200,\"system\":500,\"ncpu\":2},\"memory\":{\"percentage\":null,\"used\":1024,\"available\":null},\"io\":{\"readkB\":21000,\"writekB\":null,\"readkBps\":2000,\"writekBps\":0},\"net\":{\"recvkB\":null,\"sendkB\":10,\"recvkBps\":null,\"sendkBps\":1}}";
    assert_eq!(u.to_json(), expected);
}

#[test]
fn usages_line_has_time_millis_and_stats() {
    let u = Usages {
        time: "2024-01-01T00:00:10Z".to_string(),
        millis: 10000,
        usages: vec![ContainerUsage { name: "web".to_string(), usage: sample_usage() }],
    };
    let line = u.to_json();
    assert!(line.starts_with("{\"time\":\"2024-01-01T00:00:10Z\",\"millis\":10000,\"stats\":{\"web\":{\"cpu\":"));
    assert!(line.ends_with("}}"));
}

#[test]
fn log_vec_renders_as_array() {
    let mut v: LogVec<TimedCpuUsage> = LogVec::new();
    assert_eq!(v.to_json(), "[]");
    v.push(TimedCpuUsage { time: "a".to_string(), percentage: Some(100) });
    v.push(TimedCpuUsage { time: "b".to_string(), percentage: None });
    assert_eq!(
        v.to_json(),
        "[{\"time\":\"a\",\"percentage\":1.00},{\"time\":\"b\",\"percentage\":null}]"
    );
}

#[test]
fn data_to_json_joins_borrowed_samples() {
    let a = TimedNetUsage { time: "x".to_string(), recvkBps: Some(1), sendkBps: Some(2) };
    let b = TimedNetUsage { time: "y".to_string(), recvkBps: Some(3), sendkBps: Some(4) };
    let data = vec![&a, &b];
    assert_eq!(
        data_to_json(data),
        "[{\"time\":\"x\",\"recvkBps\":1,\"sendkBps\":2},{\"time\":\"y\",\"recvkBps\":3,\"sendkBps\":4}]"
    );
}
