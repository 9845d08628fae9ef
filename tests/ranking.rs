use sysinfo_mcp::models::{
    CpuCore, CpuInfo, MemoryInfo, ProbeReading, ProcessInfo, SystemOverview, Timestamp,
};
use sysinfo_mcp::ranking::{effective_limit, rank_processes, top_processes, RankBy};
use sysinfo_mcp::snapshot::{compose_snapshot, summarize_processes};

fn proc_(pid: u32, cpu: f32, memory: u64) -> ProcessInfo {
    ProcessInfo { pid, name: format!("p{}", pid), cpu_usage_bits: cpu.to_bits(), memory }
}

fn many(n: u32) -> Vec<ProcessInfo> {
    (0..n).map(|i| proc_(i, ((i * 7) % 13) as f32 * 1.5, ((i * 11) % 17) as u64 * 1024)).collect()
}

fn pids(v: &[ProcessInfo]) -> Vec<u32> {
    v.iter().map(|p| p.pid).collect()
}

#[test]
fn limit_defaults_and_clamps() {
    assert_eq!(effective_limit(None), 10);
    assert_eq!(effective_limit(Some(0)), 0);
    assert_eq!(effective_limit(Some(7)), 7);
    assert_eq!(effective_limit(Some(50)), 50);
    assert_eq!(effective_limit(Some(51)), 50);
    assert_eq!(effective_limit(Some(1000)), 50);
}

#[test]
fn ranks_by_cpu_descending_with_stable_ties() {
    let procs = vec![proc_(1, 5.0, 10), proc_(2, 20.0, 30), proc_(3, 5.0, 20), proc_(4, 0.0, 40), proc_(5, 20.0, 5)];
    let r = rank_processes(&procs, RankBy::Cpu);
    assert_eq!(pids(&r), vec![2, 5, 1, 3, 4]);
    let m = rank_processes(&procs, RankBy::Memory);
    assert_eq!(pids(&m), vec![4, 2, 3, 1, 5]);
}

#[test]
fn equal_keys_keep_probe_order() {
    let procs = vec![proc_(9, 1.0, 7), proc_(3, 1.0, 7), proc_(6, 1.0, 7)];
    assert_eq!(pids(&rank_processes(&procs, RankBy::Cpu)), vec![9, 3, 6]);
    assert_eq!(pids(&rank_processes(&procs, RankBy::Memory)), vec![9, 3, 6]);
}

#[test]
fn ranked_list_length_is_min_of_limit_and_count() {
    for n in [0u32, 1, 5, 10, 49, 50, 51, 80] {
        let procs = many(n);
        for l in [0usize, 1, 3, 10, 50] {
            for by in [RankBy::Cpu, RankBy::Memory] {
                let r = top_processes(&procs, by, l);
                assert_eq!(r.len(), l.min(n as usize));
                for w in r.windows(2) {
                    match by {
                        RankBy::Cpu => assert!(f32::from_bits(w[0].cpu_usage_bits) >= f32::from_bits(w[1].cpu_usage_bits)),
                        RankBy::Memory => assert!(w[0].memory >= w[1].memory),
                    }
                }
            }
        }
    }
}

#[test]
fn total_count_ignores_limit() {
    for l in [None, Some(0), Some(3), Some(1000)] {
        let s = summarize_processes(many(37), l);
        assert_eq!(s.total_count, 37);
    }
}

#[test]
fn requested_thousand_gives_at_most_fifty() {
    let s = summarize_processes(many(80), Some(1000));
    assert_eq!(s.top_cpu_processes.len(), 50);
    assert_eq!(s.top_memory_processes.len(), 50);
    assert_eq!(s.total_count, 80);
}

#[test]
fn requested_zero_gives_empty_lists() {
    let s = summarize_processes(many(12), Some(0));
    assert!(s.top_cpu_processes.is_empty());
    assert!(s.top_memory_processes.is_empty());
    assert_eq!(s.total_count, 12);
}

#[test]
fn default_limit_is_ten() {
    let s = summarize_processes(many(25), None);
    assert_eq!(s.top_cpu_processes.len(), 10);
    assert_eq!(s.top_memory_processes.len(), 10);
    let s = summarize_processes(many(4), None);
    assert_eq!(s.top_cpu_processes.len(), 4);
}

#[test]
fn empty_process_set() {
    let s = summarize_processes(Vec::new(), Some(5));
    assert_eq!(s.total_count, 0);
    assert!(s.top_cpu_processes.is_empty());
    assert!(s.top_memory_processes.is_empty());
}

#[test]
fn ranked_entries_keep_their_fields() {
    let procs = vec![proc_(1, 2.5, 100), proc_(2, 7.5, 50)];
    let s = summarize_processes(procs, Some(1));
    let c = &s.top_cpu_processes[0];
    assert_eq!((c.pid, c.name.as_str(), f32::from_bits(c.cpu_usage_bits), c.memory), (2, "p2", 7.5, 50));
    let m = &s.top_memory_processes[0];
    assert_eq!((m.pid, m.name.as_str(), m.memory), (1, "p1", 100));
}

#[test]
fn snapshot_carries_one_reading() {
    let cores: Vec<CpuCore> = (0..6)
        .map(|i| CpuCore { name: format!("cpu{}", i), usage_bits: (i as f32).to_bits(), frequency: 2400 })
        .collect();
    let reading = ProbeReading {
        overview: SystemOverview {
            name: Some("Linux".to_string()),
            kernel_version: Some("6.1".to_string()),
            os_version: None,
            host_name: Some("box".to_string()),
            uptime: 3600,
            boot_time: 1_700_000_000,
        },
        cpu: CpuInfo { global_usage_bits: 12.5f32.to_bits(), cores, physical_core_count: Some(3) },
        memory: MemoryInfo { total: 8, available: 6, used: 2, free: 5, swap_total: 4, swap_used: 1, swap_free: 3 },
        processes: many(15),
    };
    let snap = compose_snapshot(reading, Some(5), Timestamp { secs: 1_700_003_600, nanos: 42 });
    assert_eq!(snap.cpu.cores.len(), 6);
    assert_eq!(snap.cpu.cores[5].name, "cpu5");
    assert_eq!(snap.cpu.physical_core_count, Some(3));
    assert_eq!(f32::from_bits(snap.cpu.global_usage_bits), 12.5);
    assert_eq!(snap.system.host_name.as_deref(), Some("box"));
    assert_eq!(snap.system.uptime, 3600);
    assert_eq!(snap.memory.total, 8);
    assert_eq!(snap.memory.swap_free, 3);
    assert_eq!(snap.timestamp.secs, 1_700_003_600);
    assert_eq!(snap.timestamp.nanos, 42);
    assert_eq!(snap.processes.total_count, 15);
    assert_eq!(snap.processes.top_cpu_processes.len(), 5);
    assert_eq!(snap.processes.top_memory_processes.len(), 5);
}
