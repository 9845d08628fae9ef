use vstd::prelude::*;

use crate::models::{ProbeReading, ProcessInfo, ProcessSummary, SystemInfo, Timestamp};
use crate::ranking::{effective_limit, limit_of, top, top_processes, RankBy};

verus! {

/// The process summary of one probe reading: the full count, and both ranked
/// lists cut to the applied limit.
pub fn summarize_processes(procs: Vec<ProcessInfo>, requested: Option<usize>) -> (r: ProcessSummary)
    ensures
        r.total_count == procs@.len(),
        r.top_cpu_processes@ == top(procs@, RankBy::Cpu, limit_of(requested)),
        r.top_memory_processes@ == top(procs@, RankBy::Memory, limit_of(requested)),
{
    let limit = effective_limit(requested);
    let top_cpu_processes = top_processes(&procs, RankBy::Cpu, limit);
    let top_memory_processes = top_processes(&procs, RankBy::Memory, limit);
    ProcessSummary { total_count: procs.len(), top_cpu_processes, top_memory_processes }
}

/// A snapshot built from one probe reading: overview, CPU and memory as read,
/// and the process summary under the requested limit.
pub fn compose_snapshot(reading: ProbeReading, requested: Option<usize>, timestamp: Timestamp) -> (r: SystemInfo)
    ensures
        r.timestamp == timestamp,
        r.system == reading.overview,
        r.cpu == reading.cpu,
        r.memory == reading.memory,
        r.processes.total_count == reading.processes@.len(),
        r.processes.top_cpu_processes@ == top(reading.processes@, RankBy::Cpu, limit_of(requested)),
        r.processes.top_memory_processes@ == top(reading.processes@, RankBy::Memory, limit_of(requested)),
{
    let ProbeReading { overview, cpu, memory, processes } = reading;
    let summary = summarize_processes(processes, requested);
    SystemInfo { timestamp, system: overview, cpu, memory, processes: summary }
}

} // verus!
