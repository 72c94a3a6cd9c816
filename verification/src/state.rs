//! What the monitor publishes.

use crate::text;
use vstd::prelude::*;

verus! {

/// The snapshot that is published before the first sample.
pub const WARMING_UP: &'static str = "{\"warming_up\":true}";

/// Latest snapshot (JSON) and Prometheus text are pre-rendered once per sampling tick. History is
/// a compact ring buffer serialized on demand (page loads only).
pub struct Shared {
    pub json: String,
    pub prom: String,
    pub history: Vec<HistPoint>,
}

impl Shared {
    /// What is published before the first sample.
    pub fn new() -> (r: Shared)
        ensures
            r.json@ == WARMING_UP@,
            r.prom@ == Seq::<char>::empty(),
            r.history@ == Seq::<HistPoint>::empty(),
    {
        Shared { json: WARMING_UP.to_owned(), prom: String::new(), history: Vec::new() }
    }
}

/// One sample of the history.
#[derive(Clone, Copy, PartialEq, Eq, Structural, Debug)]
pub struct HistPoint {
    pub ts: u64,
    /// Percent, as the bits of a single-precision number.
    pub cpu: u32,
    /// Percent, as the bits of a single-precision number.
    pub mem: u32,
    pub rx: u64,
    pub tx: u64,
}

#[derive(Debug)]
pub struct Connections {
    pub established: u32,
    pub time_wait: u32,
    pub listening: Vec<u16>,
}

#[derive(Debug)]
pub struct Fan {
    pub label: String,
    pub rpm: u64,
}

#[derive(Debug)]
pub struct Host {
    pub hostname: String,
    pub os: String,
    pub kernel: String,
    pub arch: String,
    pub uptime_secs: u64,
    pub cpu_count: usize,
    /// CPU brand string, e.g. "Apple M3 Pro" or "Intel(R) Xeon(R) ...".
    pub cpu_model: String,
    /// Current/nominal frequency in MHz; 0 when the platform doesn't report it.
    pub cpu_freq_mhz: u64,
}

#[derive(Debug)]
pub struct Memory {
    pub total: u64,
    pub used: u64,
    pub available: u64,
    pub swap_total: u64,
    pub swap_used: u64,
}

#[derive(Debug)]
pub struct Disk {
    pub mount: String,
    pub fs: String,
    pub total: u64,
    pub used: u64,
}

#[derive(Debug)]
pub struct DiskIo {
    pub device: String,
    pub read_bps: u64,
    pub write_bps: u64,
}

#[derive(Debug)]
pub struct Net {
    pub iface: String,
    pub rx_bps: u64,
    pub tx_bps: u64,
    pub rx_total: u64,
    pub tx_total: u64,
}

/// The containers of the engine.
#[derive(Debug)]
pub struct Docker {
    pub containers: Vec<Container>,
}

/// How much CPU time a container took between two ticks: the share of the system's time, times
/// the cores.
#[derive(Clone, Copy, PartialEq, Eq, Structural, Debug)]
pub struct CpuShare {
    /// Nanoseconds of CPU time of the container.
    pub container_ns: u64,
    /// Nanoseconds of CPU time of the whole system; not zero.
    pub system_ns: u64,
    /// The number of cores; not zero.
    pub cores: u64,
}

/// One container.
#[derive(Debug)]
pub struct Container {
    pub id: String,
    pub name: String,
    pub image: String,
    pub state: String,
    /// None where there is nothing to compare with, which counts as no time at all.
    pub cpu: Option<CpuShare>,
    pub mem_bytes: u64,
    pub mem_limit: u64,
    /// Host-side published ports (private port as fallback for host-network containers), sorted
    /// ascending; empty when none are published.
    pub ports: Vec<u16>,
}

// ---------------------------------------------------------------------------------------------
// The first snapshot
// ---------------------------------------------------------------------------------------------

/// What the wait for the first snapshot comes to.
#[derive(PartialEq, Eq, Structural, Clone, Copy, Debug)]
pub enum Wait {
    /// There is a snapshot: print it.
    Print,
    /// There is none in time.
    TimedOut,
    /// There is none yet: look again.
    Again,
}

/// What is published is not a sample yet.
pub open spec fn is_warming_up(json: Seq<char>) -> bool {
    text::occurs(json, "\"warming_up\""@)
}

/// What the wait comes to, where `json` is published and the time is up or not.
pub open spec fn wait_step(json: Seq<char>, late: bool) -> Wait {
    if !is_warming_up(json) {
        Wait::Print
    } else if late {
        Wait::TimedOut
    } else {
        Wait::Again
    }
}

/// Wait for the sampler's first real snapshot, step by step: takes in what is published and
/// whether the time is up, and says what to do.
pub fn print_first_snapshot(json: &str, late: bool) -> (r: Wait)
    ensures
        r == wait_step(json@, late),
{
    let chars = text::chars_of(json);
    if !text::contains_text(&chars, "\"warming_up\"") {
        Wait::Print
    } else if late {
        Wait::TimedOut
    } else {
        Wait::Again
    }
}

/// What is published before the first sample is never taken for one.
pub proof fn law_first_sample_is_waited_for(shared: Shared, late: bool)
    requires
        shared.json@ == WARMING_UP@,
    ensures
        wait_step(shared.json@, late) != Wait::Print,
{
    reveal_strlit("{\"warming_up\":true}");
    reveal_strlit("\"warming_up\"");
    let s = shared.json@;
    let mark = "\"warming_up\""@;
    assert(s.subrange(1, 1 + mark.len() as int) =~= mark);
    assert(text::occurs_at(s, mark, 1));
}

} // verus!
