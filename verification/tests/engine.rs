use watchlite::engine::gc::{
    gc_pass, norm, orphan_ids, referenced_ids, GcAction, GcEvent, GcState, Phase, MAX_GC_PASSES,
};
use watchlite::engine::probe::{resolve_socket, socket_candidates, Attempt, Probe, Search};
use watchlite::engine::schedule::{
    gc_loop, sleep_interruptible, LoopAction, LoopEvent, SleepStep,
};

fn strings(list: &[&str]) -> Vec<String> {
    list.iter().map(|s| s.to_string()).collect()
}

#[test]
fn norm_strips_sha256_prefix() {
    assert_eq!(norm("sha256:abc123"), "abc123");
    assert_eq!(norm("abc123"), "abc123");
}

#[test]
fn norm_strips_one_whole_prefix() {
    assert_eq!(norm("sha256:"), "");
    assert_eq!(norm("sha256"), "sha256");
    assert_eq!(norm("sha256:sha256:a"), "sha256:a");
    assert_eq!(norm("\u{e9}"), "\u{e9}");
    assert_eq!(norm(""), "");
}

#[test]
fn orphan_ids_excludes_referenced_images() {
    let images = vec![
        "sha256:aaa".to_string(),
        "sha256:bbb".to_string(),
        "sha256:ccc".to_string(),
    ];
    // bbb has no container (running or stopped) referencing it
    let referenced = referenced_ids(&strings(&["aaa", "ccc"]));
    assert_eq!(
        orphan_ids(&images, &referenced),
        vec!["sha256:bbb".to_string()]
    );
}

#[test]
fn orphan_ids_empty_when_all_referenced() {
    let images = vec!["sha256:aaa".to_string(), "sha256:bbb".to_string()];
    let referenced = referenced_ids(&strings(&["aaa", "bbb"]));
    assert!(orphan_ids(&images, &referenced).is_empty());
}

#[test]
fn prefix_does_not_matter_on_either_side() {
    let referenced = referenced_ids(&strings(&["sha256:aaa", "bbb"]));
    assert_eq!(
        orphan_ids(&strings(&["aaa", "sha256:bbb", "c", "sha256:d", "c"]), &referenced),
        strings(&["c", "sha256:d", "c"])
    );
}

#[test]
fn gc_needs_an_engine() {
    let mut state = GcState::new();
    assert_eq!(state.phase(), Phase::Probe);
    assert_eq!(
        gc_pass(&mut state, GcEvent::Probed(Probe::NotFound)),
        GcAction::Done { removed: 0, hint: Some("no Docker/Podman socket found".to_string()) }
    );
    assert_eq!(state.phase(), Phase::Over);
    let mut state = GcState::new();
    assert_eq!(
        gc_pass(&mut state, GcEvent::Probed(Probe::PermissionDenied("/s".to_string()))),
        GcAction::Done {
            removed: 0,
            hint: Some(
                "/s found but permission denied \u{2014} add this user to the docker group"
                    .to_string()
            )
        }
    );
    let mut state = GcState::new();
    gc_pass(&mut state, GcEvent::Probed(Probe::Found("/s".to_string())));
    assert_eq!(
        gc_pass(&mut state, GcEvent::Containers(None)),
        GcAction::Done {
            removed: 0,
            hint: Some("engine API error \u{2014} see server log".to_string())
        }
    );
}

fn after_containers(used: &[&str]) -> GcState {
    let mut state = GcState::new();
    let a = gc_pass(&mut state, GcEvent::Probed(Probe::Found("/s".to_string())));
    assert_eq!(a, GcAction::ListContainers);
    assert_eq!(a.request(), Some(("GET", "/containers/json?all=true".to_string())));
    let a = gc_pass(&mut state, GcEvent::Containers(Some(strings(used))));
    assert_eq!(a, GcAction::ListImages);
    assert_eq!(a.request(), Some(("GET", "/images/json".to_string())));
    state
}

#[test]
fn gc_removes_orphans_until_nothing_goes() {
    let mut s = after_containers(&["sha256:used"]);
    let a = gc_pass(&mut s, GcEvent::Images(Some(strings(&["used", "x", "y"]))));
    assert_eq!(a, GcAction::Delete("x".to_string()));
    assert_eq!(a.request(), Some(("DELETE", "/images/x".to_string())));
    assert_eq!(s.phase(), Phase::Removal);
    assert_eq!(gc_pass(&mut s, GcEvent::Deleted(true)), GcAction::Delete("y".to_string()));
    assert_eq!(gc_pass(&mut s, GcEvent::Deleted(false)), GcAction::ListImages);
    let a = gc_pass(&mut s, GcEvent::Images(Some(strings(&["used", "y"]))));
    assert_eq!(a, GcAction::Delete("y".to_string()));
    let a = gc_pass(&mut s, GcEvent::Deleted(false));
    assert_eq!(a, GcAction::Done { removed: 1, hint: None });
    assert_eq!(a.request(), None);
}

#[test]
fn gc_ends_without_orphans() {
    let mut s = after_containers(&["a"]);
    assert_eq!(
        gc_pass(&mut s, GcEvent::Images(Some(strings(&["sha256:a"])))),
        GcAction::Done { removed: 0, hint: None }
    );
}

#[test]
fn gc_without_any_images_says_why() {
    let mut s = after_containers(&["a"]);
    assert_eq!(
        gc_pass(&mut s, GcEvent::Images(None)),
        GcAction::Done {
            removed: 0,
            hint: Some("engine API error \u{2014} see server log".to_string())
        }
    );
    // a later list that fails ends a pass that did take place
    let mut s = after_containers(&["a"]);
    gc_pass(&mut s, GcEvent::Images(Some(strings(&["x"]))));
    assert_eq!(gc_pass(&mut s, GcEvent::Deleted(true)), GcAction::ListImages);
    assert_eq!(
        gc_pass(&mut s, GcEvent::Images(None)),
        GcAction::Done { removed: 1, hint: None }
    );
}

#[test]
fn gc_awaits_one_event() {
    let s = GcState::new();
    assert!(s.awaits(&GcEvent::Probed(Probe::NotFound)));
    assert!(!s.awaits(&GcEvent::Containers(None)));
    let mut s = after_containers(&["a"]);
    assert!(s.awaits(&GcEvent::Images(None)));
    assert!(!s.awaits(&GcEvent::Probed(Probe::NotFound)));
    assert!(!s.awaits(&GcEvent::Deleted(true)));
    gc_pass(&mut s, GcEvent::Images(Some(strings(&["x"]))));
    assert!(s.awaits(&GcEvent::Deleted(true)));
    gc_pass(&mut s, GcEvent::Deleted(false));
    assert!(!s.awaits(&GcEvent::Images(None)));
}

#[test]
fn gc_scans_are_bounded() {
    let mut s = after_containers(&[]);
    let mut scans = 1;
    loop {
        let a = gc_pass(&mut s, GcEvent::Images(Some(strings(&["x"]))));
        assert_eq!(a, GcAction::Delete("x".to_string()));
        match gc_pass(&mut s, GcEvent::Deleted(true)) {
            GcAction::ListImages => scans += 1,
            GcAction::Done { removed, hint } => {
                assert_eq!(removed, 16);
                assert_eq!(hint, None);
                break;
            }
            other => panic!("{:?}", other),
        }
    }
    assert_eq!(scans, MAX_GC_PASSES);
}

#[test]
fn sockets_to_try() {
    let none: Option<String> = None;
    assert_eq!(
        socket_candidates(&none, &none),
        strings(&["/var/run/docker.sock", "/run/podman/podman.sock"])
    );
    assert_eq!(
        socket_candidates(&none, &Some(String::new())),
        strings(&["/var/run/docker.sock", "/run/podman/podman.sock"])
    );
    assert_eq!(
        socket_candidates(&none, &Some("/run/user/1000".to_string())),
        strings(&[
            "/var/run/docker.sock",
            "/run/podman/podman.sock",
            "/run/user/1000/podman/podman.sock"
        ])
    );
    assert_eq!(
        socket_candidates(&Some("/x".to_string()), &Some("/run/user/1000".to_string())),
        strings(&["/x"])
    );
}

#[test]
fn first_accepting_socket_wins() {
    let sockets = strings(&["a", "b", "c"]);
    assert_eq!(resolve_socket(&sockets, &vec![]), Search::Try("a".to_string()));
    assert_eq!(
        resolve_socket(&sockets, &vec![Attempt::Denied]),
        Search::Try("b".to_string())
    );
    assert_eq!(
        resolve_socket(&sockets, &vec![Attempt::Denied, Attempt::Connected]),
        Search::Done(Probe::Found("b".to_string()))
    );
    assert_eq!(
        resolve_socket(&sockets, &vec![Attempt::Denied, Attempt::Denied, Attempt::Failed]),
        Search::Done(Probe::PermissionDenied("b".to_string()))
    );
    assert_eq!(
        resolve_socket(&sockets, &vec![Attempt::Failed, Attempt::Failed, Attempt::Failed]),
        Search::Done(Probe::NotFound)
    );
    assert_eq!(resolve_socket(&vec![], &vec![]), Search::Done(Probe::NotFound));
}

#[test]
fn loop_warms_up_and_goes_on() {
    let asleep = |ms: u64| LoopAction::Sleep { note: None, ms };
    assert_eq!(gc_loop(60_000, LoopEvent::Started), asleep(30_000));
    assert_eq!(gc_loop(10_000, LoopEvent::Started), asleep(10_000));
    assert_eq!(gc_loop(60_000, LoopEvent::Slept(true)), LoopAction::Pass);
    assert_eq!(gc_loop(60_000, LoopEvent::Slept(false)), LoopAction::Exit);
    assert_eq!(gc_loop(60_000, LoopEvent::Passed { removed: 0, hint: None }), asleep(60_000));
    assert_eq!(
        gc_loop(60_000, LoopEvent::Passed { removed: 12, hint: None }),
        LoopAction::Sleep {
            note: Some("docker image gc: removed 12 unused image(s)".to_string()),
            ms: 60_000
        }
    );
    assert_eq!(
        gc_loop(60_000, LoopEvent::Passed { removed: 0, hint: Some("why".to_string()) }),
        LoopAction::Sleep { note: Some("docker image gc: paused (why)".to_string()), ms: 60_000 }
    );
}

#[test]
fn sleep_lasts_as_long_as_asked() {
    let mut remaining = 1_200u64;
    let mut slept = 0;
    let mut naps = Vec::new();
    loop {
        match sleep_interruptible(&mut remaining, false) {
            SleepStep::Nap(ms) => {
                slept += ms;
                naps.push(ms);
            }
            SleepStep::Finished(ok) => {
                assert!(ok);
                break;
            }
        }
    }
    assert_eq!(slept, 1_200);
    assert_eq!(naps, vec![500, 500, 200]);
}

#[test]
fn shutdown_cuts_a_sleep_short() {
    let mut remaining = 1_200u64;
    assert_eq!(sleep_interruptible(&mut remaining, true), SleepStep::Finished(false));
    assert_eq!(remaining, 1_200);
    let mut over = 0u64;
    assert_eq!(sleep_interruptible(&mut over, true), SleepStep::Finished(false));
    assert_eq!(sleep_interruptible(&mut over, false), SleepStep::Finished(true));
}
