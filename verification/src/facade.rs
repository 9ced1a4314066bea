//! The system facade: every reading of the machine and both mutating
//! operations (signal a process, spawn is left to the host program) pass
//! through the trusted wrappers here. Each wrapper hands back plain values;
//! what the engine does with them is verified elsewhere.
use vstd::prelude::*;

use sysinfo::{ComponentExt, CpuExt, DiskExt, NetworkExt, System, SystemExt};

verus! {

/// One hardware sensor: its label and its readings, already printed.
pub struct SensorReading {
    pub label: String,
    pub temp: String,
    pub max: String,
    pub crit: Option<String>,
}

/// One disk: identity strings and its space counters in bytes.
pub struct DiskRow {
    pub name: String,
    pub mount: String,
    pub fs: String,
    pub total: u64,
    pub avail: u64,
}

/// One logical CPU.
pub struct CpuRow {
    pub brand: String,
    pub vendor: String,
    pub name: String,
    pub freq: u64,
}

/// One network interface with its cumulative packet counters.
pub struct NetRow {
    pub name: String,
    pub tx: u64,
    pub rx: u64,
}

/// Memory counters in bytes.
pub struct MemCounters {
    pub total: u64,
    pub used: u64,
    pub free: u64,
}

/// One OS process; the percentages are already printed, and `cmdline` is
/// `Some` exactly when the process has a non-empty command line.
pub struct ProcRow {
    pub pid: u32,
    pub name: String,
    pub cpu_pct: String,
    pub mem_pct: String,
    pub cmdline: Option<String>,
}

/// Relies on sysinfo's `SystemExt::kernel_version`.
#[verifier::external_body]
pub(crate) fn kernel_version() -> (r: Option<String>) {
    System::new().kernel_version()
}

/// Relies on sysinfo's `SystemExt::os_version`.
#[verifier::external_body]
pub(crate) fn os_version() -> (r: Option<String>) {
    System::new().os_version()
}

/// Relies on sysinfo's `SystemExt::host_name`.
#[verifier::external_body]
pub(crate) fn host_name() -> (r: Option<String>) {
    System::new().host_name()
}

/// Relies on sysinfo's `SystemExt::name`.
#[verifier::external_body]
pub(crate) fn system_name() -> (r: Option<String>) {
    System::new().name()
}

/// Relies on sysinfo's `SystemExt::components`: one entry per sensor, with
/// `ComponentExt::{label, temperature, max, critical}` printed as text.
#[verifier::external_body]
pub(crate) fn sensors_snapshot() -> (r: Vec<SensorReading>) {
    let sys = System::new_all();
    let mut v: Vec<SensorReading> = Vec::new();
    for c in sys.components() {
        v.push(SensorReading {
            label: c.label().to_string(),
            temp: format!("{}", c.temperature()),
            max: format!("{}", c.max()),
            crit: c.critical().map(|x| format!("{}", x)),
        });
    }
    v
}

/// Relies on sysinfo's `SystemExt::disks` and `DiskExt`: one entry per disk,
/// with its space counters in bytes.
#[verifier::external_body]
pub(crate) fn disks_snapshot() -> (r: Vec<DiskRow>) {
    let sys = System::new_all();
    let mut v: Vec<DiskRow> = Vec::new();
    for d in sys.disks() {
        v.push(DiskRow {
            name: d.name().to_string_lossy().to_string(),
            mount: d.mount_point().to_string_lossy().to_string(),
            fs: String::from_utf8_lossy(d.file_system()).to_string(),
            total: d.total_space(),
            avail: d.available_space(),
        });
    }
    v
}

/// Relies on sysinfo's `SystemExt::cpus` and `CpuExt`.
#[verifier::external_body]
pub(crate) fn cpus_snapshot() -> (r: Vec<CpuRow>) {
    let sys = System::new_all();
    let mut v: Vec<CpuRow> = Vec::new();
    for c in sys.cpus() {
        v.push(CpuRow {
            brand: c.brand().to_string(),
            vendor: c.vendor_id().to_string(),
            name: c.name().to_string(),
            freq: c.frequency(),
        });
    }
    v
}

/// Relies on sysinfo's `SystemExt::networks` and `NetworkExt`'s cumulative
/// packet counters.
#[verifier::external_body]
pub(crate) fn networks_snapshot() -> (r: Vec<NetRow>) {
    let sys = System::new_all();
    let mut v: Vec<NetRow> = Vec::new();
    for (name, data) in sys.networks() {
        v.push(NetRow {
            name: name.clone(),
            tx: data.total_packets_transmitted(),
            rx: data.total_packets_received(),
        });
    }
    v
}

/// Relies on sysinfo's `SystemExt::{total_memory, used_memory, free_memory}`.
#[verifier::external_body]
pub(crate) fn memory_snapshot() -> (r: MemCounters) {
    let sys = System::new_all();
    MemCounters { total: sys.total_memory(), used: sys.used_memory(), free: sys.free_memory() }
}

/// Relies on psutil's `process::processes` and `Process`'s accessors: `None`
/// when the enumeration itself fails, otherwise an entry per readable
/// process, unreadable fields left empty.
#[verifier::external_body]
pub(crate) fn processes_snapshot() -> (r: Option<Vec<ProcRow>>) {
    let procs = psutil::process::processes().ok()?;
    let mut v: Vec<ProcRow> = Vec::new();
    for pr in procs {
        if let Ok(mut p) = pr {
            let cpu = p.cpu_percent().map(|x| format!("{}", x)).unwrap_or_default();
            let mem = p.memory_percent().map(|x| format!("{}", x)).unwrap_or_default();
            let name = p.name().unwrap_or_default();
            let cmdline = p.cmdline().ok().flatten();
            v.push(ProcRow { pid: p.pid(), name, cpu_pct: cpu, mem_pct: mem, cmdline });
        }
    }
    Some(v)
}

/// Relies on psutil's `Process::new`: `Some` exactly when a process with
/// that pid exists and can be read; `Process::new` stores the pid it was
/// given and `pid()` returns it, so a returned row bears the requested pid.
#[verifier::external_body]
pub fn findbypid(pid: i32) -> (r: Option<ProcRow>)
    ensures
        pid < 0 ==> r is None,
        r matches Some(p) ==> pid >= 0 && p.pid as int == pid as int,
{
    let pid_u = u32::try_from(pid).ok()?;
    let mut p = psutil::process::Process::new(pid_u).ok()?;
    let cpu = p.cpu_percent().map(|x| format!("{}", x)).unwrap_or_default();
    let mem = p.memory_percent().map(|x| format!("{}", x)).unwrap_or_default();
    let name = p.name().unwrap_or_default();
    let cmdline = p.cmdline().ok().flatten();
    Some(ProcRow { pid: p.pid(), name, cpu_pct: cpu, mem_pct: mem, cmdline })
}

/// Relies on nix's `signal::kill`, sending SIGTERM to one pid; the error
/// case carries the message of nix's `Errno`.
#[verifier::external_body]
pub(crate) fn send_sigterm(pid: i32) -> (r: Result<(), String>) {
    nix::sys::signal::kill(nix::unistd::Pid::from_raw(pid), nix::sys::signal::Signal::SIGTERM)
        .map_err(|e| format!("{}", e))
}

/// What pretty-bytes' `converter::convert` prints for `n` bytes: a function
/// of `n` alone.
pub uninterp spec fn pretty_bytes_of(n: u64) -> Seq<char>;

/// Relies on pretty-bytes' `converter::convert`: a human-readable rendering
/// of a byte count, depending on the count alone.
#[verifier::external_body]
pub(crate) fn human_bytes(n: u64) -> (r: String)
    ensures
        r@ == pretty_bytes_of(n),
{
    pretty_bytes::converter::convert(n as _)
}

} // verus!
