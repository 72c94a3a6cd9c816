use watchlite::engine::probe::Probe;
use watchlite::engine::stats::{
    collect, collect_from, stats_requests, ContainerSummary, CpuStats, CpuUsage, Listing,
    MemStatsInner, MemoryStats, PortMapping, PrevCpu, Stats,
};
use watchlite::state::{print_first_snapshot, CpuShare, Shared, Wait};

fn summary(id: &str, names: &[&str], state: &str) -> ContainerSummary {
    ContainerSummary {
        id: id.to_string(),
        names: names.iter().map(|s| s.to_string()).collect(),
        image: "img".to_string(),
        state: state.to_string(),
        network_mode: "bridge".to_string(),
        ports: Vec::new(),
    }
}

fn stats(total: u64, system: u64, cpus: u64) -> Stats {
    Stats {
        cpu_stats: CpuStats {
            cpu_usage: CpuUsage { total_usage: total },
            system_cpu_usage: system,
            online_cpus: cpus,
        },
        memory_stats: MemoryStats {
            usage: 1000,
            limit: 4000,
            stats: MemStatsInner { inactive_file: 0, cache: 0 },
        },
    }
}

fn port(public_port: Option<u16>, private_port: Option<u16>) -> PortMapping {
    PortMapping { public_port, private_port }
}

fn listed_ports(network_mode: &str, ports: Vec<PortMapping>) -> Vec<u16> {
    let mut s = summary("abc", &[], "paused");
    s.network_mode = network_mode.to_string();
    s.ports = ports;
    let mut d = collect_from(&vec![s], &vec![None], &mut PrevCpu::new());
    d.containers.remove(0).ports
}

#[test]
fn host_port_prefers_the_published_one() {
    for host_network in [false, true] {
        assert_eq!(port(Some(1), Some(2)).host_port(host_network), Some(1));
        assert_eq!(port(Some(1), None).host_port(host_network), Some(1));
        assert_eq!(port(None, None).host_port(host_network), None);
    }
    assert_eq!(port(None, Some(2)).host_port(true), Some(2));
    assert_eq!(port(None, Some(2)).host_port(false), None);
}

#[test]
fn ports_are_sorted_and_distinct() {
    let ports = vec![
        port(Some(8080), Some(80)),
        port(None, Some(443)),
        port(None, None),
        port(Some(443), None),
        port(Some(22), Some(22)),
        port(Some(8080), Some(80)),
        port(None, Some(9000)),
    ];
    assert_eq!(listed_ports("host", ports.clone()), vec![22, 443, 8080, 9000]);
    assert_eq!(listed_ports("bridge", ports), vec![22, 443, 8080]);
}

#[test]
fn private_ports_count_on_the_host_network_only() {
    assert_eq!(listed_ports("host", vec![port(None, Some(80))]), vec![80]);
    for mode in ["bridge", "default", "none", "", "Host", "host2", "container:host"] {
        assert_eq!(listed_ports(mode, vec![port(None, Some(80))]), Vec::<u16>::new());
    }
}

#[test]
fn names_and_ids() {
    let list = vec![
        summary("0123456789abcdef", &["//web", "/other"], "exited"),
        summary("0123456789abcdef", &[], "exited"),
        summary("short", &["/"], "created"),
    ];
    let d = collect_from(&list, &Vec::new(), &mut PrevCpu::new());
    assert_eq!(d.containers[0].name, "web");
    assert_eq!(d.containers[0].id, "0123456789ab");
    assert_eq!(d.containers[0].image, "img");
    assert_eq!(d.containers[1].name, "0123456789ab");
    assert_eq!(d.containers[2].name, "");
    assert_eq!(d.containers[2].id, "short");
    assert_eq!(d.containers[2].state, "created");
}

#[test]
fn only_running_containers_are_asked_about() {
    let list = vec![summary("a", &[], "running"), summary("b", &[], "exited")];
    assert_eq!(
        stats_requests(&list),
        vec![Some("/containers/a/stats?stream=false&one-shot=true".to_string()), None]
    );
    let many: Vec<ContainerSummary> =
        (0..60).map(|i| summary(&format!("c{}", i), &[], "running")).collect();
    assert_eq!(stats_requests(&many).len(), 50);
    assert_eq!(collect_from(&many, &Vec::new(), &mut PrevCpu::new()).containers.len(), 50);
}

#[test]
fn cpu_is_compared_with_the_tick_before() {
    let list = vec![summary("a", &[], "running")];
    let mut prev = PrevCpu::new();
    let d = collect_from(&list, &vec![Some(stats(100, 1000, 4))], &mut prev);
    assert_eq!(d.containers[0].cpu, None);
    let d = collect_from(&list, &vec![Some(stats(150, 1200, 4))], &mut prev);
    assert_eq!(
        d.containers[0].cpu,
        Some(CpuShare { container_ns: 50, system_ns: 200, cores: 4 })
    );
    // the clock stands still
    let d = collect_from(&list, &vec![Some(stats(160, 1200, 4))], &mut prev);
    assert_eq!(d.containers[0].cpu, None);
    // the counters start over, and no core is reported
    let d = collect_from(&list, &vec![Some(stats(10, 1300, 0))], &mut prev);
    assert_eq!(
        d.containers[0].cpu,
        Some(CpuShare { container_ns: 0, system_ns: 100, cores: 1 })
    );
    // a tick without a report forgets the container
    collect_from(&list, &vec![None], &mut prev);
    let d = collect_from(&list, &vec![Some(stats(20, 1400, 1))], &mut prev);
    assert_eq!(d.containers[0].cpu, None);
}

#[test]
fn reports_on_stopped_containers_do_not_count() {
    let list = vec![summary("a", &[], "exited")];
    let mut prev = PrevCpu::new();
    let d = collect_from(&list, &vec![Some(stats(1, 2, 3))], &mut prev);
    assert_eq!(d.containers[0].mem_bytes, 0);
    assert_eq!(d.containers[0].mem_limit, 0);
    assert!(prev.is_empty());
}

#[test]
fn page_cache_is_not_used_memory() {
    let list = vec![summary("a", &[], "running")];
    let used = |inactive_file: u64, cache: u64| {
        let mut st = stats(1, 1, 1);
        st.memory_stats.stats = MemStatsInner { inactive_file, cache };
        let d = collect_from(&list, &vec![Some(st)], &mut PrevCpu::new());
        assert_eq!(d.containers[0].mem_limit, 4000);
        d.containers[0].mem_bytes
    };
    assert_eq!(used(0, 0), 1000);
    assert_eq!(used(300, 100), 700);
    assert_eq!(used(0, 100), 900);
    assert_eq!(used(2000, 0), 0);
}

#[test]
fn panel_or_hint() {
    let mut prev = PrevCpu::new();
    prev.insert("a".to_string(), (1, 1));
    let (d, hint) = collect(&mut prev, &Probe::NotFound, &None);
    assert!(d.is_none());
    assert_eq!(hint.as_deref(), Some("no Docker/Podman socket found"));
    let (d, hint) = collect(&mut prev, &Probe::PermissionDenied("/s".to_string()), &None);
    assert!(d.is_none());
    assert_eq!(
        hint.as_deref(),
        Some("/s found but permission denied \u{2014} add this user to the docker group")
    );
    let (d, hint) = collect(&mut prev, &Probe::Found("/s".to_string()), &None);
    assert!(d.is_none());
    assert_eq!(hint.as_deref(), Some("engine API error \u{2014} see server log"));
    assert_eq!(prev.get("a"), Some(&(1, 1)));
    let said = Some(Listing {
        summaries: vec![summary("a", &["/x"], "running")],
        stats: vec![Some(stats(11, 21, 2))],
    });
    let (d, hint) = collect(&mut prev, &Probe::Found("/s".to_string()), &said);
    assert_eq!(hint, None);
    let d = d.unwrap();
    assert_eq!(d.containers[0].name, "x");
    assert_eq!(
        d.containers[0].cpu,
        Some(CpuShare { container_ns: 10, system_ns: 20, cores: 2 })
    );
    assert_eq!(prev.get("a"), Some(&(11, 21)));
}

#[test]
fn first_sample_is_waited_for() {
    let shared = Shared::new();
    assert_eq!(shared.json, "{\"warming_up\":true}");
    assert_eq!(shared.prom, "");
    assert!(shared.history.is_empty());
    assert_eq!(print_first_snapshot(&shared.json, false), Wait::Again);
    assert_eq!(print_first_snapshot(&shared.json, true), Wait::TimedOut);
    assert_eq!(print_first_snapshot("{\"ts\":1}", false), Wait::Print);
    assert_eq!(print_first_snapshot("{\"ts\":1}", true), Wait::Print);
    assert_eq!(print_first_snapshot("warming_up", false), Wait::Print);
}
