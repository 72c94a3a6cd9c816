//! Laws of the containers and their resource use.

use crate::config::args;
use crate::engine::probe::Probe;
use crate::engine::stats;
use crate::engine::stats::{ContainerSummary, Listing, PortMapping, PrevCpu, Stats};
use crate::state::{Container, CpuShare, Docker};
use vstd::prelude::*;

verus! {

/// The container is listed as running, and the engine reported on it.
pub open spec fn reported(
    summaries: Seq<ContainerSummary>,
    readings: Seq<Option<Stats>>,
    i: int,
) -> bool {
    &&& 0 <= i < summaries.len()
    &&& i < 50
    &&& summaries[i].state@ == "running"@
    &&& i < readings.len()
    &&& readings[i] is Some
}

/// One container is shown for each that is listed, in order, up to fifty. Id, image and state are
/// those that are listed, the id cut after twelve characters.
pub proof fn law_listed_containers_are_shown(
    summaries: &Vec<ContainerSummary>,
    readings: &Vec<Option<Stats>>,
    prev: &mut PrevCpu,
    r: Docker,
    i: int,
)
    requires
        call_ensures(stats::collect_from, (summaries, readings, prev), r),
    ensures
        summaries@.len() <= 50 ==> r.containers@.len() == summaries@.len(),
        summaries@.len() > 50 ==> r.containers@.len() == 50,
        0 <= i < r.containers@.len() ==> {
            let c = r.containers@[i];
            let s = summaries@[i];
            &&& c.image@ == s.image@
            &&& c.state@ == s.state@
            &&& c.id@.len() <= 12
            &&& s.id@.len() > 12 ==> c.id@.len() == 12
            &&& s.id@.len() <= 12 ==> c.id@.len() == s.id@.len()
            &&& forall|k: int| 0 <= k < c.id@.len() ==> #[trigger] c.id@[k] == s.id@[k]
            &&& s.names@.len() == 0 ==> c.name@ == c.id@
        },
{
    if 0 <= i < r.containers@.len() {
        let c = r.containers@[i];
    }
}

proof fn lemma_slashes(slashes: Seq<char>, name: Seq<char>)
    requires
        forall|k: int| 0 <= k < slashes.len() ==> #[trigger] slashes[k] == '/',
        name.len() > 0 ==> name[0] != '/',
    ensures
        stats::without_slashes(slashes + name) == name,
    decreases slashes.len(),
{
    let all = slashes + name;
    if slashes.len() == 0 {
        assert(all =~= name);
    } else {
        assert(all[0] == slashes[0]);
        assert(all.drop_first() =~= slashes.drop_first() + name);
        assert forall|k: int| 0 <= k < slashes.drop_first().len() implies
            #[trigger] slashes.drop_first()[k] == '/' by {
            assert(slashes.drop_first()[k] == slashes[k + 1]);
        }
        lemma_slashes(slashes.drop_first(), name);
    }
}

/// A container is called by the first of its names, without the slashes before it.
pub proof fn law_first_name_is_shown(
    summaries: &Vec<ContainerSummary>,
    readings: &Vec<Option<Stats>>,
    prev: &mut PrevCpu,
    r: Docker,
    i: int,
    slashes: Seq<char>,
    name: Seq<char>,
)
    requires
        call_ensures(stats::collect_from, (summaries, readings, prev), r),
        0 <= i < r.containers@.len(),
        summaries@[i].names@.len() > 0,
        summaries@[i].names@[0]@ == slashes + name,
        forall|k: int| 0 <= k < slashes.len() ==> #[trigger] slashes[k] == '/',
        name.len() > 0 ==> name[0] != '/',
    ensures
        r.containers@[i].name@ == name,
{
    let c = r.containers@[i];
    lemma_slashes(slashes, name);
}

/// The mapping is one to port `p` of the host: it publishes the port, or it publishes none and
/// its container is on the network of the host.
pub open spec fn maps_to(m: PortMapping, mode: Seq<char>, p: u16) -> bool {
    m.public_port == Some(p) || (m.public_port is None && mode == "host"@ && m.private_port == Some(
        p,
    ))
}

/// The ports of a container ascend, and they are those of the host that its mappings go to: all of
/// them and no others.
pub proof fn law_ports(
    summaries: &Vec<ContainerSummary>,
    readings: &Vec<Option<Stats>>,
    prev: &mut PrevCpu,
    r: Docker,
    i: int,
    p: u16,
)
    requires
        call_ensures(stats::collect_from, (summaries, readings, prev), r),
        0 <= i < r.containers@.len(),
    ensures
        forall|a: int, b: int|
            0 <= a < b < r.containers@[i].ports@.len() ==> r.containers@[i].ports@[a]
                < r.containers@[i].ports@[b],
        r.containers@[i].ports@.contains(p) <==> exists|k: int|
            0 <= k < summaries@[i].ports@.len() && maps_to(
                #[trigger] summaries@[i].ports@[k],
                summaries@[i].network_mode@,
                p,
            ),
{
    let c = r.containers@[i];
    let s = summaries@[i];
    let host = stats::on_host_network(s);
    assert(c.ports@.contains(p) <==> stats::reaches(s.ports@, host, p));
    assert forall|k: int| 0 <= k < s.ports@.len() implies (maps_to(
        #[trigger] s.ports@[k],
        s.network_mode@,
        p,
    ) <==> stats::host_port_of(s.ports@[k], host) == Some(p)) by {}
    if stats::reaches(s.ports@, host, p) {
        let k = choose|k: int|
            0 <= k < s.ports@.len() && stats::host_port_of(#[trigger] s.ports@[k], host) == Some(p);
        assert(maps_to(s.ports@[k], s.network_mode@, p));
    }
}

/// The port of the host that a mapping goes to.
pub proof fn law_host_port(m: &PortMapping, host_network: bool, r: Option<u16>)
    requires
        call_ensures(PortMapping::host_port, (m, host_network), r),
    ensures
        m.public_port is Some ==> r == m.public_port,
        m.public_port is None && host_network ==> r == m.private_port,
        m.public_port is None && !host_network ==> r is None,
{
}

/// The share of CPU time of a container that runs is what its counter grew by since the tick
/// before, out of what the system's grew by, on as many cores as are online and one at least. There
/// is a share exactly where there are counters to compare with and the system's grew.
pub proof fn law_cpu_share(
    summaries: &Vec<ContainerSummary>,
    readings: &Vec<Option<Stats>>,
    prev: &mut PrevCpu,
    r: Docker,
    i: int,
)
    requires
        call_ensures(stats::collect_from, (summaries, readings, prev), r),
        0 <= i < r.containers@.len(),
    ensures
        ({
            let share = r.containers@[i].cpu;
            let id = summaries@[i].id@;
            let before = old(prev)@[id];
            let now = (readings@[i]->0).cpu_stats;
            &&& share is Some <==> reported(summaries@, readings@, i) && old(prev)@.contains_key(id)
                && now.system_cpu_usage > before.1
            &&& share matches Some(x) ==> {
                &&& x.system_ns == now.system_cpu_usage - before.1
                &&& now.cpu_usage.total_usage >= before.0 ==> x.container_ns
                    == now.cpu_usage.total_usage - before.0
                &&& now.cpu_usage.total_usage < before.0 ==> x.container_ns == 0
                &&& now.online_cpus > 0 ==> x.cores == now.online_cpus
                &&& now.online_cpus == 0 ==> x.cores == 1
            }
        }),
{
    let c = r.containers@[i];
}

/// The memory of a container that runs is what is used of it without the page cache, and never
/// less than nothing; of any other container it is zero.
pub proof fn law_memory(
    summaries: &Vec<ContainerSummary>,
    readings: &Vec<Option<Stats>>,
    prev: &mut PrevCpu,
    r: Docker,
    i: int,
)
    requires
        call_ensures(stats::collect_from, (summaries, readings, prev), r),
        0 <= i < r.containers@.len(),
    ensures
        ({
            let c = r.containers@[i];
            let m = (readings@[i]->0).memory_stats;
            let cached = if m.stats.inactive_file > 0 {
                m.stats.inactive_file
            } else {
                m.stats.cache
            };
            &&& !reported(summaries@, readings@, i) ==> c.mem_bytes == 0 && c.mem_limit == 0
            &&& reported(summaries@, readings@, i) ==> {
                &&& c.mem_limit == m.limit
                &&& m.usage >= cached ==> c.mem_bytes == m.usage - cached
                &&& m.usage < cached ==> c.mem_bytes == 0
            }
        }),
{
    let c = r.containers@[i];
}

proof fn lemma_counters(
    summaries: Seq<ContainerSummary>,
    readings: Seq<Option<Stats>>,
    id: Seq<char>,
    n: int,
)
    requires
        0 <= n <= summaries.len(),
        n <= 50,
    ensures
        stats::counters_after(summaries, readings, n).contains_key(id) <==> exists|k: int|
            0 <= k < n && reported(summaries, readings, k) && (#[trigger] summaries[k]).id@ == id,
    decreases n,
{
    if n > 0 {
        lemma_counters(summaries, readings, id, n - 1);
        let last = summaries[n - 1];
        assert(stats::reading(summaries, readings, n - 1) is Some <==> reported(
            summaries,
            readings,
            n - 1,
        ));
        let now = stats::counters_after(summaries, readings, n).contains_key(id);
        if now {
            if last.id@ == id && reported(summaries, readings, n - 1) {
            } else {
                let k = choose|k: int|
                    0 <= k < n - 1 && reported(summaries, readings, k) && (
                    #[trigger] summaries[k]).id@ == id;
                assert(0 <= k < n);
            }
        }
        if exists|k: int|
            0 <= k < n && reported(summaries, readings, k) && (#[trigger] summaries[k]).id@ == id {
            let k = choose|k: int|
                0 <= k < n && reported(summaries, readings, k) && (#[trigger] summaries[k]).id@
                    == id;
            if k < n - 1 {
                assert(0 <= k < n - 1);
            }
        }
    }
}

/// What is kept for the next tick are the counters of the containers that were reported on, and
/// nothing else: those of the last where several have one id.
pub proof fn law_counters_are_kept(
    summaries: &Vec<ContainerSummary>,
    readings: &Vec<Option<Stats>>,
    prev: &mut PrevCpu,
    r: Docker,
    id: Seq<char>,
    i: int,
)
    requires
        call_ensures(stats::collect_from, (summaries, readings, prev), r),
    ensures
        final(prev)@.contains_key(id) <==> exists|k: int|
            0 <= k < 50 && reported(summaries@, readings@, k) && (#[trigger] summaries@[k]).id@
                == id,
        reported(summaries@, readings@, i) && summaries@[i].id@ == id && (forall|k: int|
            i < k < 50 && reported(summaries@, readings@, k) ==> (#[trigger] summaries@[k]).id@
                != id) ==> final(prev)@[id] == (
            (readings@[i]->0).cpu_stats.cpu_usage.total_usage,
            (readings@[i]->0).cpu_stats.system_cpu_usage,
        ),
{
    let n: int = if summaries@.len() <= 50 {
        summaries@.len() as int
    } else {
        50
    };
    lemma_counters(summaries@, readings@, id, n);
    let kept = final(prev)@;
    assert(kept == stats::counters_after(summaries@, readings@, n));
    if exists|k: int|
        0 <= k < 50 && reported(summaries@, readings@, k) && (#[trigger] summaries@[k]).id@ == id {
        let k = choose|k: int|
            0 <= k < 50 && reported(summaries@, readings@, k) && (#[trigger] summaries@[k]).id@
                == id;
        assert(0 <= k < n);
    }
    if reported(summaries@, readings@, i) && summaries@[i].id@ == id && (forall|k: int|
        i < k < 50 && reported(summaries@, readings@, k) ==> (#[trigger] summaries@[k]).id@ != id) {
        assert forall|j: int|
            i < j < n && (#[trigger] summaries@[j]).id@ == summaries@[i].id@ implies stats::reading(
            summaries@,
            readings@,
            j,
        ) is None by {
            assert(!reported(summaries@, readings@, j));
        }
        stats::law_next_tick_is_compared_with_this_one(summaries@, readings@, i, n);
    }
}

/// The resource use is asked for of each container that is shown and runs, by its whole id, and of
/// no other.
pub proof fn law_running_containers_are_asked_about(
    summaries: &Vec<ContainerSummary>,
    r: Vec<Option<String>>,
    i: int,
)
    requires
        call_ensures(stats::stats_requests, (summaries,), r),
    ensures
        summaries@.len() <= 50 ==> r@.len() == summaries@.len(),
        summaries@.len() > 50 ==> r@.len() == 50,
        0 <= i < r@.len() ==> {
            &&& r@[i] is Some <==> summaries@[i].state@ == "running"@
            &&& r@[i] is Some ==> r@[i]->0@ == "/containers/"@ + summaries@[i].id@
                + "/stats?stream=false&one-shot=true"@
        },
{
    if 0 <= i < r@.len() {
        let path = args::opt(r@[i]);
    }
}

/// Where there is no panel, there is a hint that says why, and the counters stay; where there is a
/// panel, there is no hint.
pub proof fn law_panel_or_hint(
    prev: &mut PrevCpu,
    probe: &Probe,
    said: &Option<Listing>,
    r: (Option<Docker>, Option<String>),
)
    requires
        call_ensures(stats::collect, (prev, probe, said), r),
    ensures
        r.0 is Some <==> probe is Found && said is Some,
        r.1 is Some <==> r.0 is None,
        r.0 is None ==> final(prev)@ == old(prev)@,
        *probe matches Probe::PermissionDenied(p) ==> r.1->0@ == p@
            + " found but permission denied \u{2014} add this user to the docker group"@,
        probe is NotFound ==> r.1->0@ == "no Docker/Podman socket found"@,
        probe is Found && said is None ==> r.1->0@ == "engine API error \u{2014} see server log"@,
{
    let hint = args::opt(r.1);
    let found = probe@;
}

/// The two are the same container.
pub open spec fn same_container(a: Container, b: Container) -> bool {
    &&& a.id@ == b.id@
    &&& a.name@ == b.name@
    &&& a.image@ == b.image@
    &&& a.state@ == b.state@
    &&& a.cpu == b.cpu
    &&& a.mem_bytes == b.mem_bytes
    &&& a.mem_limit == b.mem_limit
    &&& a.ports@ == b.ports@
}

/// The panel shows what the listing comes to: a tick is the same whether it is taken from the
/// listing or from the engine that gave it.
pub proof fn law_panel_shows_the_listing(
    prev: &mut PrevCpu,
    probe: &Probe,
    said: &Option<Listing>,
    r: (Option<Docker>, Option<String>),
    again: &mut PrevCpu,
    summaries: &Vec<ContainerSummary>,
    readings: &Vec<Option<Stats>>,
    listed: Docker,
    i: int,
)
    requires
        call_ensures(stats::collect, (prev, probe, said), r),
        call_ensures(stats::collect_from, (summaries, readings, again), listed),
        probe is Found,
        *said is Some,
        (*said)->0.summaries == *summaries,
        (*said)->0.stats == *readings,
        old(prev)@ == old(again)@,
    ensures
        r.0 is Some,
        (r.0->0).containers@.len() == listed.containers@.len(),
        0 <= i < listed.containers@.len() ==> same_container(
            (r.0->0).containers@[i],
            listed.containers@[i],
        ),
        final(prev)@ == final(again)@,
{
    if 0 <= i < listed.containers@.len() {
        let a = (r.0->0).containers@[i];
        let b = listed.containers@[i];
        let s = summaries@[i];
        stats::law_port_list_is_determined(
            a.ports@,
            b.ports@,
            s.ports@,
            stats::on_host_network(s),
        );
    }
}

} // verus!
