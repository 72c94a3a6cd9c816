//! The containers and their resource use, from what the engine says of them.

use super::probe::{Probe, ProbeView};
use crate::config::args;
use crate::state::{Container, CpuShare, Docker};
use crate::text;
use vstd::hash_map::StringHashMap;
use vstd::prelude::*;

verus! {

/// The most containers that are shown.
pub const MAX_CONTAINERS: usize = 50;

/// Previous-tick CPU counters per container id: (cpu_total_ns, system_cpu_ns).
pub type PrevCpu = StringHashMap<(u64, u64)>;

/// A container, as the engine lists it.
pub struct ContainerSummary {
    pub id: String,
    pub names: Vec<String>,
    pub image: String,
    pub state: String,
    /// How it is attached to the network: `host`, `bridge`, the name of a network.
    pub network_mode: String,
    pub ports: Vec<PortMapping>,
}

/// A port of a container.
#[derive(Clone, Copy, PartialEq, Eq, Structural, Debug)]
pub struct PortMapping {
    pub public_port: Option<u16>,
    pub private_port: Option<u16>,
}

/// The resource use of a container, as the engine reports it.
#[derive(Clone, Copy, PartialEq, Eq, Structural, Debug)]
pub struct Stats {
    pub cpu_stats: CpuStats,
    pub memory_stats: MemoryStats,
}

#[derive(Clone, Copy, PartialEq, Eq, Structural, Debug)]
pub struct CpuStats {
    pub cpu_usage: CpuUsage,
    pub system_cpu_usage: u64,
    pub online_cpus: u64,
}

#[derive(Clone, Copy, PartialEq, Eq, Structural, Debug)]
pub struct CpuUsage {
    pub total_usage: u64,
}

#[derive(Clone, Copy, PartialEq, Eq, Structural, Debug)]
pub struct MemoryStats {
    pub usage: u64,
    pub limit: u64,
    pub stats: MemStatsInner,
}

#[derive(Clone, Copy, PartialEq, Eq, Structural, Debug)]
pub struct MemStatsInner {
    pub inactive_file: u64,
    pub cache: u64,
}

// ---------------------------------------------------------------------------------------------
// Ports
// ---------------------------------------------------------------------------------------------

/// The container shares the network of the host.
pub open spec fn on_host_network(s: ContainerSummary) -> bool {
    s.network_mode@ == "host"@
}

/// The port of the host: the published one, or else the private one of a container on the network
/// of the host.
pub open spec fn host_port_of(m: PortMapping, host_network: bool) -> Option<u16> {
    match m.public_port {
        Some(p) => Some(p),
        None => if host_network {
            m.private_port
        } else {
            None
        },
    }
}

impl PortMapping {
    /// The host-reachable port: the published one, or the private port for host-network
    /// containers (no explicit mapping but the service listens on the host itself).
    pub fn host_port(&self, host_network: bool) -> (r: Option<u16>)
        ensures
            r == host_port_of(*self, host_network),
    {
        match self.public_port {
            Some(p) => Some(p),
            None => if host_network {
                self.private_port
            } else {
                None
            },
        }
    }
}

/// Each element is below those behind it.
pub open spec fn increasing(s: Seq<u16>) -> bool {
    forall|i: int, j: int| 0 <= i < j < s.len() ==> s[i] < s[j]
}

/// One of the mappings reaches port `p` of the host.
pub open spec fn reaches(ports: Seq<PortMapping>, host_network: bool, p: u16) -> bool {
    exists|i: int|
        0 <= i < ports.len() && host_port_of(#[trigger] ports[i], host_network) == Some(p)
}

/// `list` holds the ports of the host that the mappings reach, ascending, each once.
pub open spec fn is_port_list(
    list: Seq<u16>,
    ports: Seq<PortMapping>,
    host_network: bool,
) -> bool {
    &&& increasing(list)
    &&& forall|p: u16| #[trigger] list.contains(p) <==> reaches(ports, host_network, p)
}

/// Puts a port into an ascending list, unless it is there.
fn insert_port(list: &mut Vec<u16>, p: u16)
    requires
        increasing(old(list)@),
    ensures
        increasing(final(list)@),
        forall|q: u16| #[trigger] final(list)@.contains(q) <==> q == p || old(list)@.contains(q),
{
    let n: usize = list.len();
    let mut i: usize = 0;
    while i < n && list[i] < p
        invariant
            n == list@.len(),
            i <= n,
            list@ == old(list)@,
            forall|j: int| 0 <= j < i ==> list@[j] < p,
        decreases n - i,
    {
        i = i + 1;
    }
    if i < n && list[i] == p {
        return;
    }
    let ghost before = list@;
    list.insert(i, p);
    proof {
        let after = list@;
        assert(after =~= before.insert(i as int, p));
        assert forall|q: u16| #[trigger] after.contains(q) <==> q == p || before.contains(q) by {
            if before.contains(q) {
                let k = choose|k: int| 0 <= k < before.len() && before[k] == q;
                if k < i {
                    assert(after[k] == q);
                } else {
                    assert(after[k + 1] == q);
                }
            }
            if q == p {
                assert(after[i as int] == q);
            }
            if after.contains(q) && q != p {
                let k = choose|k: int| 0 <= k < after.len() && after[k] == q;
                if k < i {
                    assert(before[k] == q);
                } else {
                    assert(before[k - 1] == q);
                }
            }
        }
    }
}

/// The ports of the host that the mappings reach, ascending, each once.
fn port_list(ports: &Vec<PortMapping>, host_network: bool) -> (r: Vec<u16>)
    ensures
        is_port_list(r@, ports@, host_network),
{
    let mut list: Vec<u16> = Vec::new();
    let n: usize = ports.len();
    let mut i: usize = 0;
    while i < n
        invariant
            n == ports@.len(),
            i <= n,
            is_port_list(list@, ports@.take(i as int), host_network),
        decreases n - i,
    {
        let ghost done = ports@.take(i as int);
        let ghost next = ports@.take(i + 1);
        let ghost before = list@;
        assert(next =~= done.push(ports@[i as int]));
        let port = ports[i].host_port(host_network);
        if let Some(p) = port {
            insert_port(&mut list, p);
        }
        proof {
            assert forall|q: u16| #[trigger] list@.contains(q) <==> reaches(
                next,
                host_network,
                q,
            ) by {
                assert(before.contains(q) <==> reaches(done, host_network, q));
                if reaches(done, host_network, q) {
                    let k = choose|k: int|
                        0 <= k < done.len() && host_port_of(#[trigger] done[k], host_network)
                            == Some(q);
                    assert(next[k] == done[k]);
                }
                if port == Some(q) {
                    assert(host_port_of(next[i as int], host_network) == Some(q));
                }
                if reaches(next, host_network, q) && port != Some(q) {
                    let k = choose|k: int|
                        0 <= k < next.len() && host_port_of(#[trigger] next[k], host_network)
                            == Some(q);
                    assert(done[k] == next[k]);
                }
            }
        }
        i = i + 1;
    }
    assert(ports@.take(i as int) =~= ports@);
    list
}

/// There is one such list.
pub proof fn law_port_list_is_determined(
    a: Seq<u16>,
    b: Seq<u16>,
    ports: Seq<PortMapping>,
    host_network: bool,
)
    requires
        is_port_list(a, ports, host_network),
        is_port_list(b, ports, host_network),
    ensures
        a == b,
{
    lemma_increasing_lists_agree(a, b);
}

/// Of a container that has a network of its own exactly the published ports are listed: none where
/// none is published.
pub proof fn law_only_published_ports_are_listed(list: Seq<u16>, ports: Seq<PortMapping>)
    requires
        is_port_list(list, ports, false),
    ensures
        forall|p: u16| #[trigger]
            list.contains(p) <==> exists|i: int|
                0 <= i < ports.len() && (#[trigger] ports[i]).public_port == Some(p),
        (forall|i: int| 0 <= i < ports.len() ==> (#[trigger] ports[i]).public_port is None)
            ==> list.len() == 0,
{
    assert forall|p: u16| #[trigger] list.contains(p) <==> exists|i: int|
        0 <= i < ports.len() && (#[trigger] ports[i]).public_port == Some(p) by {
        assert(list.contains(p) <==> reaches(ports, false, p));
        if reaches(ports, false, p) {
            let i = choose|i: int|
                0 <= i < ports.len() && host_port_of(#[trigger] ports[i], false) == Some(p);
            assert(ports[i].public_port == Some(p));
        }
        if exists|i: int| 0 <= i < ports.len() && (#[trigger] ports[i]).public_port == Some(p) {
            let i = choose|i: int|
                0 <= i < ports.len() && (#[trigger] ports[i]).public_port == Some(p);
            assert(host_port_of(ports[i], false) == Some(p));
        }
    }
    if list.len() > 0 {
        assert(list.contains(list[0]));
    }
}

/// Two ascending lists of the same elements are the same list.
proof fn lemma_increasing_lists_agree(a: Seq<u16>, b: Seq<u16>)
    requires
        increasing(a),
        increasing(b),
        forall|p: u16| #[trigger] a.contains(p) <==> b.contains(p),
    ensures
        a == b,
    decreases a.len(),
{
    if a.len() == 0 {
        if b.len() > 0 {
            assert(b.contains(b[0]));
            assert(a.contains(b[0]));
        }
        assert(a =~= b);
    } else {
        assert(a.contains(a.last()));
        assert(b.contains(a.last()));
        assert(b.contains(b.last()));
        assert(a.contains(b.last()));
        let x = a.drop_last();
        let y = b.drop_last();
        assert(a.last() == b.last());
        assert forall|p: u16| #[trigger] x.contains(p) <==> y.contains(p) by {
            if x.contains(p) {
                let k = choose|k: int| 0 <= k < x.len() && x[k] == p;
                assert(a[k] == p);
                assert(a.contains(p));
                assert(p < b.last());
                let m = choose|m: int| 0 <= m < b.len() && b[m] == p;
                assert(y[m] == p);
            }
            if y.contains(p) {
                let k = choose|k: int| 0 <= k < y.len() && y[k] == p;
                assert(b[k] == p);
                assert(b.contains(p));
                assert(a.contains(p));
                assert(p < a.last());
                let m = choose|m: int| 0 <= m < a.len() && a[m] == p;
                assert(x[m] == p);
            }
        }
        lemma_increasing_lists_agree(x, y);
        assert(a =~= x.push(a.last()));
        assert(b =~= y.push(b.last()));
    }
}

// ---------------------------------------------------------------------------------------------
// Names
// ---------------------------------------------------------------------------------------------

/// `s` without the slashes at its start.
pub open spec fn without_slashes(s: Seq<char>) -> Seq<char>
    decreases s.len(),
{
    if s.len() > 0 && s[0] == '/' {
        without_slashes(s.drop_first())
    } else {
        s
    }
}

/// The first twelve characters of an id.
pub open spec fn short_id(id: Seq<char>) -> Seq<char> {
    if id.len() <= 12 {
        id
    } else {
        id.take(12)
    }
}

/// What a container is called: its first name without the slashes at its start, or its short id
/// where it has no name.
pub open spec fn display_name(s: ContainerSummary) -> Seq<char> {
    if s.names@.len() > 0 {
        without_slashes(s.names@[0]@)
    } else {
        short_id(s.id@)
    }
}

fn strip_slashes(s: &str) -> (r: String)
    ensures
        r@ == without_slashes(s@),
{
    let chars = text::chars_of(s);
    let n: usize = chars.len();
    let mut i: usize = 0;
    assert(s@.skip(0) =~= s@);
    while i < n && chars[i] == '/'
        invariant
            chars@ == s@,
            n == s@.len(),
            i <= n,
            without_slashes(s@) == without_slashes(s@.skip(i as int)),
        decreases n - i,
    {
        assert(s@.skip(i as int).drop_first() =~= s@.skip(i + 1));
        i = i + 1;
    }
    assert(s@.skip(i as int) =~= s@.subrange(i as int, n as int));
    s.substring_char(i, n).to_owned()
}

fn shorten_id(id: &str) -> (r: String)
    ensures
        r@ == short_id(id@),
{
    if id.unicode_len() <= 12 {
        id.to_owned()
    } else {
        assert(id@.subrange(0, 12) =~= id@.take(12));
        id.substring_char(0, 12).to_owned()
    }
}

// ---------------------------------------------------------------------------------------------
// Resource use
// ---------------------------------------------------------------------------------------------

/// `a - b`, and zero where that is below zero.
pub open spec fn monus(a: u64, b: u64) -> u64 {
    if a >= b {
        (a - b) as u64
    } else {
        0
    }
}

/// The counters that the next tick is compared with.
pub open spec fn counters(st: Stats) -> (u64, u64) {
    (st.cpu_stats.cpu_usage.total_usage, st.cpu_stats.system_cpu_usage)
}

/// The CPU time between two ticks; none where the system's clock did not move.
pub open spec fn cpu_share(st: Stats, before: (u64, u64)) -> Option<CpuShare> {
    let container_ns = monus(counters(st).0, before.0);
    let system_ns = monus(counters(st).1, before.1);
    let cores: u64 = if st.cpu_stats.online_cpus == 0 {
        1
    } else {
        st.cpu_stats.online_cpus
    };
    if system_ns > 0 {
        Some(CpuShare { container_ns, system_ns, cores })
    } else {
        None
    }
}

/// The page cache, which does not count as used: `inactive_file` where it is reported (cgroup
/// v2), and otherwise `cache` (v1).
pub open spec fn reclaimable(m: MemoryStats) -> u64 {
    if m.stats.inactive_file > 0 {
        m.stats.inactive_file
    } else {
        m.stats.cache
    }
}

/// `c` is the container that the engine lists as `s`, whose resource use it reports as `reading`,
/// and whose counters at the tick before were `before`.
pub open spec fn is_container(
    c: Container,
    s: ContainerSummary,
    reading: Option<Stats>,
    before: Option<(u64, u64)>,
) -> bool {
    &&& c.id@ == short_id(s.id@)
    &&& c.name@ == display_name(s)
    &&& c.image@ == s.image@
    &&& c.state@ == s.state@
    &&& is_port_list(c.ports@, s.ports@, on_host_network(s))
    &&& match reading {
        Some(st) => {
            &&& c.cpu == match before {
                Some(b) => cpu_share(st, b),
                None => None,
            }
            &&& c.mem_bytes == monus(st.memory_stats.usage, reclaimable(st.memory_stats))
            &&& c.mem_limit == st.memory_stats.limit
        },
        None => c.cpu is None && c.mem_bytes == 0 && c.mem_limit == 0,
    }
}

fn saturating_minus(a: u64, b: u64) -> (r: u64)
    ensures
        r == monus(a, b),
{
    if a >= b {
        a - b
    } else {
        0
    }
}

fn share_of(st: &Stats, before: (u64, u64)) -> (r: Option<CpuShare>)
    ensures
        r == cpu_share(*st, before),
{
    let container_ns: u64 = saturating_minus(st.cpu_stats.cpu_usage.total_usage, before.0);
    let system_ns: u64 = saturating_minus(st.cpu_stats.system_cpu_usage, before.1);
    if system_ns == 0 {
        return None;
    }
    let cores: u64 = if st.cpu_stats.online_cpus == 0 {
        1
    } else {
        st.cpu_stats.online_cpus
    };
    Some(CpuShare { container_ns, system_ns, cores })
}

/// One container, from what the engine lists and reports of it.
fn container_of(
    s: &ContainerSummary,
    reading: Option<Stats>,
    before: Option<(u64, u64)>,
) -> (r: Container)
    ensures
        is_container(r, *s, reading, before),
{
    let name = if s.names.len() > 0 {
        strip_slashes(s.names[0].as_str())
    } else {
        shorten_id(s.id.as_str())
    };
    let mut c = Container {
        id: shorten_id(s.id.as_str()),
        name,
        image: s.image.clone(),
        state: s.state.clone(),
        cpu: None,
        mem_bytes: 0,
        mem_limit: 0,
        ports: port_list(&s.ports, text::same_text(s.network_mode.as_str(), "host")),
    };
    if let Some(st) = reading {
        if let Some(b) = before {
            c.cpu = share_of(&st, b);
        }
        let m = st.memory_stats;
        // cgroup v2 reports inactive_file; v1 reports cache. Subtract whichever is present so
        // page cache doesn't count as "used".
        let cached: u64 = if m.stats.inactive_file > 0 {
            m.stats.inactive_file
        } else {
            m.stats.cache
        };
        c.mem_bytes = saturating_minus(m.usage, cached);
        c.mem_limit = m.limit;
    }
    c
}

// ---------------------------------------------------------------------------------------------
// The whole list
// ---------------------------------------------------------------------------------------------

/// How many of the listed containers are shown.
pub open spec fn shown(summaries: Seq<ContainerSummary>) -> int {
    if summaries.len() <= MAX_CONTAINERS {
        summaries.len() as int
    } else {
        MAX_CONTAINERS as int
    }
}

/// The container runs.
pub open spec fn running(s: ContainerSummary) -> bool {
    s.state@ == "running"@
}

/// The request for the resource use of a container.
pub open spec fn stats_path(id: Seq<char>) -> Seq<char> {
    "/containers/"@ + id + "/stats?stream=false&one-shot=true"@
}

/// What the engine reported of container `i`; nothing counts of one that does not run.
pub open spec fn reading(
    summaries: Seq<ContainerSummary>,
    stats: Seq<Option<Stats>>,
    i: int,
) -> Option<Stats> {
    if running(summaries[i]) && i < stats.len() {
        stats[i]
    } else {
        None
    }
}

/// The counters at the tick before.
pub open spec fn counters_before(prev: Map<Seq<char>, (u64, u64)>, id: Seq<char>) -> Option<
    (u64, u64),
> {
    if prev.contains_key(id) {
        Some(prev[id])
    } else {
        None
    }
}

/// The counters of this tick, of the first `n` containers: those of which something was reported.
pub open spec fn counters_after(
    summaries: Seq<ContainerSummary>,
    stats: Seq<Option<Stats>>,
    n: int,
) -> Map<Seq<char>, (u64, u64)>
    decreases n,
{
    if n <= 0 {
        Map::empty()
    } else {
        match reading(summaries, stats, n - 1) {
            Some(st) => counters_after(summaries, stats, n - 1).insert(
                summaries[n - 1].id@,
                counters(st),
            ),
            None => counters_after(summaries, stats, n - 1),
        }
    }
}

fn is_running(s: &ContainerSummary) -> (r: bool)
    ensures
        r == running(*s),
{
    text::same_text(s.state.as_str(), "running")
}

/// The requests to make for the resource use of the containers that are shown: one for each that
/// runs.
pub fn stats_requests(summaries: &Vec<ContainerSummary>) -> (r: Vec<Option<String>>)
    ensures
        r@.len() == shown(summaries@),
        forall|i: int|
            0 <= i < shown(summaries@) ==> args::opt(#[trigger] r@[i]) == if running(
                summaries@[i],
            ) {
                Some(stats_path(summaries@[i].id@))
            } else {
                None
            },
{
    let mut out: Vec<Option<String>> = Vec::new();
    let mut i: usize = 0;
    while i < summaries.len() && i < MAX_CONTAINERS
        invariant
            i <= shown(summaries@),
            out@.len() == i,
            forall|j: int|
                0 <= j < i ==> args::opt(#[trigger] out@[j]) == if running(summaries@[j]) {
                    Some(stats_path(summaries@[j].id@))
                } else {
                    None
                },
        decreases summaries@.len() - i,
    {
        if is_running(&summaries[i]) {
            let mut path = "/containers/".to_owned();
            path.append(summaries[i].id.as_str());
            path.append("/stats?stream=false&one-shot=true");
            out.push(Some(path));
        } else {
            out.push(None);
        }
        i = i + 1;
    }
    out
}

/// The containers that are shown, from what the engine lists and what it reports of each of the
/// first of them. `prev_cpu` is replaced with this tick's counters for next-tick deltas.
pub fn collect_from(
    summaries: &Vec<ContainerSummary>,
    stats: &Vec<Option<Stats>>,
    prev_cpu: &mut PrevCpu,
) -> (r: Docker)
    ensures
        r.containers@.len() == shown(summaries@),
        forall|i: int|
            0 <= i < shown(summaries@) ==> is_container(
                #[trigger] r.containers@[i],
                summaries@[i],
                reading(summaries@, stats@, i),
                counters_before(old(prev_cpu)@, summaries@[i].id@),
            ),
        final(prev_cpu)@ == counters_after(summaries@, stats@, shown(summaries@)),
{
    let mut next_cpu: PrevCpu = StringHashMap::new();
    let mut containers: Vec<Container> = Vec::new();
    let mut i: usize = 0;
    while i < summaries.len() && i < MAX_CONTAINERS
        invariant
            i <= shown(summaries@),
            containers@.len() == i,
            prev_cpu@ == old(prev_cpu)@,
            next_cpu@ == counters_after(summaries@, stats@, i as int),
            forall|j: int|
                0 <= j < i ==> is_container(
                    #[trigger] containers@[j],
                    summaries@[j],
                    reading(summaries@, stats@, j),
                    counters_before(prev_cpu@, summaries@[j].id@),
                ),
        decreases summaries@.len() - i,
    {
        let s = &summaries[i];
        let reported: Option<Stats> = if is_running(s) && i < stats.len() {
            stats[i]
        } else {
            None
        };
        let before: Option<(u64, u64)> = match prev_cpu.get(s.id.as_str()) {
            Some(b) => Some(*b),
            None => None,
        };
        containers.push(container_of(s, reported, before));
        if let Some(st) = reported {
            next_cpu.insert(
                s.id.clone(),
                (st.cpu_stats.cpu_usage.total_usage, st.cpu_stats.system_cpu_usage),
            );
        }
        i = i + 1;
    }
    *prev_cpu = next_cpu;
    Docker { containers }
}

// ---------------------------------------------------------------------------------------------
// One tick
// ---------------------------------------------------------------------------------------------

/// What the engine said at one tick.
pub struct Listing {
    pub summaries: Vec<ContainerSummary>,
    /// What it reported of each of the first of them.
    pub stats: Vec<Option<Stats>>,
}

/// Why there is no engine to speak to.
pub open spec fn probe_hint(p: ProbeView) -> Option<Seq<char>> {
    match p {
        ProbeView::Found(_) => None,
        ProbeView::PermissionDenied(path) => Some(
            path + " found but permission denied \u{2014} add this user to the docker group"@,
        ),
        ProbeView::NotFound => Some("no Docker/Podman socket found"@),
    }
}

/// Why an engine that is there gave nothing.
pub open spec fn api_hint() -> Seq<char> {
    "engine API error \u{2014} see server log"@
}

/// Why an engine that is there gave nothing.
pub(crate) fn api_error() -> (r: String)
    ensures
        r@ == api_hint(),
{
    "engine API error \u{2014} see server log".to_owned()
}

/// Why there is no engine to speak to.
pub(crate) fn hint_for(p: &Probe) -> (r: Option<String>)
    ensures
        args::opt(r) == probe_hint(p@),
{
    match p {
        Probe::Found(_) => None,
        Probe::PermissionDenied(path) => {
            let mut hint = path.clone();
            hint.append(
                " found but permission denied \u{2014} add this user to the docker group",
            );
            Some(hint)
        },
        Probe::NotFound => Some("no Docker/Podman socket found".to_owned()),
    }
}

/// Collect container stats, from where the engine was found and what it said there. On failure
/// returns (None, hint) where the hint tells the dashboard why the panel is empty - the panel
/// stays visible so users can self-diagnose instead of wondering where it went. `prev_cpu` is
/// replaced with this tick's counters for next-tick deltas.
pub fn collect(prev_cpu: &mut PrevCpu, probe: &Probe, said: &Option<Listing>) -> (r: (
    Option<Docker>,
    Option<String>,
))
    ensures
        r.0 is Some <==> probe is Found && said is Some,
        r.0 matches Some(docker) ==> {
            let summaries = (said->0).summaries@;
            let stats = (said->0).stats@;
            &&& docker.containers@.len() == shown(summaries)
            &&& forall|i: int|
                0 <= i < shown(summaries) ==> is_container(
                    #[trigger] docker.containers@[i],
                    summaries[i],
                    reading(summaries, stats, i),
                    counters_before(old(prev_cpu)@, summaries[i].id@),
                )
            &&& final(prev_cpu)@ == counters_after(summaries, stats, shown(summaries))
            &&& r.1 is None
        },
        r.0 is None ==> {
            &&& final(prev_cpu)@ == old(prev_cpu)@
            &&& args::opt(r.1) == match probe_hint(probe@) {
                Some(hint) => Some(hint),
                None => Some(api_hint()),
            }
        },
{
    let hint = hint_for(probe);
    if hint.is_some() {
        return (None, hint);
    }
    match said {
        Some(listing) => {
            let docker = collect_from(&listing.summaries, &listing.stats, prev_cpu);
            (Some(docker), None)
        },
        None => (None, Some(api_error())),
    }
}

// ---------------------------------------------------------------------------------------------
// Laws
// ---------------------------------------------------------------------------------------------

/// What was reported of a container at one tick is what the next tick is compared with, unless a
/// container behind it has the same id and was reported too.
pub proof fn law_next_tick_is_compared_with_this_one(
    summaries: Seq<ContainerSummary>,
    stats: Seq<Option<Stats>>,
    i: int,
    n: int,
)
    requires
        0 <= i < n <= summaries.len(),
        reading(summaries, stats, i) is Some,
        forall|j: int|
            i < j < n && (#[trigger] summaries[j]).id@ == summaries[i].id@ ==> reading(
                summaries,
                stats,
                j,
            ) is None,
    ensures
        counters_before(counters_after(summaries, stats, n), summaries[i].id@) == Some(
            counters(reading(summaries, stats, i)->0),
        ),
    decreases n,
{
    if n - 1 > i {
        law_next_tick_is_compared_with_this_one(summaries, stats, i, n - 1);
        let last = summaries[n - 1];
        assert(last.id@ == summaries[i].id@ ==> reading(summaries, stats, n - 1) is None);
    }
}

/// A container of which nothing was reported at one tick has nothing to be compared with at the
/// next: its counters are forgotten.
pub proof fn law_unreported_containers_are_forgotten(
    summaries: Seq<ContainerSummary>,
    stats: Seq<Option<Stats>>,
    id: Seq<char>,
    n: int,
)
    requires
        0 <= n <= summaries.len(),
        forall|j: int|
            0 <= j < n && (#[trigger] summaries[j]).id@ == id ==> reading(summaries, stats, j)
                is None,
    ensures
        counters_before(counters_after(summaries, stats, n), id) is None,
    decreases n,
{
    if n > 0 {
        law_unreported_containers_are_forgotten(summaries, stats, id, n - 1);
        let last = summaries[n - 1];
        assert(last.id@ == id ==> reading(summaries, stats, n - 1) is None);
    }
}

/// A share of CPU time can be divided out: neither the system's time nor the number of cores is
/// zero. And no container uses more memory than the engine reports of it.
pub proof fn law_resource_use_is_sound(
    c: Container,
    s: ContainerSummary,
    reported: Option<Stats>,
    before: Option<(u64, u64)>,
)
    requires
        is_container(c, s, reported, before),
    ensures
        c.cpu matches Some(share) ==> share.system_ns > 0 && share.cores > 0,
        reported matches Some(st) ==> c.mem_bytes <= st.memory_stats.usage,
        c.id@.len() <= 12,
{
}

} // verus!
