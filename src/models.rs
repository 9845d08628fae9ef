use vstd::prelude::*;

verus! {

/// A point in time, as seconds and nanoseconds since the Unix epoch (UTC).
pub struct Timestamp {
    pub secs: i64,
    pub nanos: u32,
}

/// Operating-system identity and uptime as reported by the probe.
pub struct SystemOverview {
    pub name: Option<String>,
    pub kernel_version: Option<String>,
    pub os_version: Option<String>,
    pub host_name: Option<String>,
    /// Seconds since boot.
    pub uptime: u64,
    /// Boot time, in seconds since the Unix epoch.
    pub boot_time: u64,
}

/// One logical CPU. `usage_bits` is the usage percentage as the bit pattern
/// of an IEEE-754 single-precision value.
pub struct CpuCore {
    pub name: String,
    pub usage_bits: u32,
    /// Frequency in MHz.
    pub frequency: u64,
}

/// CPU load. `global_usage_bits` is the overall usage percentage as the bit
/// pattern of an IEEE-754 single-precision value.
pub struct CpuInfo {
    pub global_usage_bits: u32,
    pub cores: Vec<CpuCore>,
    pub physical_core_count: Option<usize>,
}

/// RAM and swap figures, in bytes, as reported by the probe.
pub struct MemoryInfo {
    pub total: u64,
    pub available: u64,
    pub used: u64,
    pub free: u64,
    pub swap_total: u64,
    pub swap_used: u64,
    pub swap_free: u64,
}

/// One process. `cpu_usage_bits` is the usage percentage as the bit pattern of
/// an IEEE-754 single-precision value; for the non-negative values a probe
/// reports, the order of the bit patterns is the order of the percentages.
pub struct ProcessInfo {
    pub pid: u32,
    pub name: String,
    pub cpu_usage_bits: u32,
    /// Resident memory in bytes.
    pub memory: u64,
}

impl ProcessInfo {
    /// An equal, independently owned copy.
    pub fn duplicate(&self) -> (r: ProcessInfo)
        ensures
            r == *self,
    {
        ProcessInfo {
            pid: self.pid,
            name: self.name.clone(),
            cpu_usage_bits: self.cpu_usage_bits,
            memory: self.memory,
        }
    }
}

/// The process count and the two ranked, truncated process lists.
pub struct ProcessSummary {
    /// Number of processes seen by the probe, before any truncation.
    pub total_count: usize,
    /// Highest CPU usage first.
    pub top_cpu_processes: Vec<ProcessInfo>,
    /// Largest memory first.
    pub top_memory_processes: Vec<ProcessInfo>,
}

/// Everything one refresh of the probe yields, before ranking.
pub struct ProbeReading {
    pub overview: SystemOverview,
    pub cpu: CpuInfo,
    pub memory: MemoryInfo,
    /// The live process set, in the probe's enumeration order.
    pub processes: Vec<ProcessInfo>,
}

/// One complete, self-contained telemetry reading.
pub struct SystemInfo {
    pub timestamp: Timestamp,
    pub system: SystemOverview,
    pub cpu: CpuInfo,
    pub memory: MemoryInfo,
    pub processes: ProcessSummary,
}

} // verus!
