use xcp_orchestrator::error::OrchestratorError;
use xcp_orchestrator::iso_agent::{
    begin_build, build_status, can_decide_bump, component_watch_step, conclude_components, decide_bump,
    decide_xoa_proxy_bump, decide_xolite_bump, iso_watch_step, latest_release_matches,
    needs_release_check, parse_force_flags, plan_iso, report_iso, BumpDecision, Component,
    ComponentBuilds, ComponentRun, ComponentsVerdict, ForceFlags, IsoAgentVersionState, IsoEvent,
    IsoPlan, IsoWatch, Upstream, WatchStep,
};
use xcp_orchestrator::status::{AgentStatus, WorkflowStatus};
use xcp_orchestrator::version_state::{ComponentVersionState, VersionState};

fn args(list: &[&str]) -> Vec<String> {
    list.iter().map(|a| a.to_string()).collect()
}

#[test]
fn force_flags_add_up() {
    let flags = |list: &[&str]| parse_force_flags(&args(list)).unwrap();
    assert_eq!(flags(&[]), ForceFlags::default());
    assert_eq!(flags(&["--force"]), ForceFlags { xolite: true, xoa_proxy: true, iso: true });
    assert_eq!(
        flags(&["--force-iso", "--force-xolite"]),
        ForceFlags { xolite: true, xoa_proxy: false, iso: true }
    );
    assert_eq!(
        flags(&["--force-xoa-proxy"]),
        ForceFlags { xolite: false, xoa_proxy: true, iso: false }
    );
    assert_eq!(
        parse_force_flags(&args(&["--force", "-x", "-y"])).unwrap_err().message(),
        "Invalid argument: -x (usage: iso-agent [--force] [--force-xolite] [--force-xoa-proxy] [--force-iso])"
    );
}

fn state(version: &str, counter: u32, tag: &str, sha: &str) -> ComponentVersionState {
    ComponentVersionState {
        upstream_version: version.to_string(),
        ce_counter: counter,
        last_tag: tag.to_string(),
        last_built_sha: sha.to_string(),
    }
}

fn upstream(version: &str, sha: &str) -> Upstream {
    Upstream { version: version.to_string(), head_sha: sha.to_string() }
}

fn latest(tag: &str, sha: &str) -> Option<(String, String)> {
    Some((tag.to_string(), sha.to_string()))
}

#[test]
fn unchanged_components_are_not_built() {
    let mut s = state("0.23.0", 2, "v0.23.0-ce2", "abc");
    let up = upstream("0.23.0", "abc");
    assert!(!needs_release_check(&s, &up, false));
    assert!(matches!(decide_xolite_bump(&mut s, &up, false, None), BumpDecision::NoChange));
    // Forced, the same state asks for the next patch.
    assert!(!needs_release_check(&s, &up, true));
    assert!(matches!(
        decide_xolite_bump(&mut s, &up, true, latest("v0.23.0-ce2", "abc")),
        BumpDecision::PatchBump { upstream_version, next_counter: 3 } if upstream_version == "0.23.0"
    ));
    assert_eq!(s.last_tag, "v0.23.0-ce2");
}

#[test]
fn changed_components_are_built() {
    let mut s = state("0.23.0", 2, "v0.23.0-ce2", "abc");
    assert!(needs_release_check(&s, &upstream("0.23.0", "def"), false));
    assert!(matches!(
        decide_xolite_bump(&mut s, &upstream("0.23.0", "def"), false, None),
        BumpDecision::PatchBump { next_counter: 3, .. }
    ));
    assert!(matches!(
        decide_xolite_bump(&mut s, &upstream("0.24.0", "abc"), false, latest("v0.23.0-ce2", "abc")),
        BumpDecision::UpstreamBump { upstream_version } if upstream_version == "0.24.0"
    ));
    let mut p = state("0.1.1", 0, "v0.1.1", "abc");
    assert!(matches!(
        decide_xoa_proxy_bump(&mut p, &upstream("0.1.1", "def"), false, None),
        BumpDecision::PatchBump { next_counter: 1, .. }
    ));
}

#[test]
fn a_lost_state_heals_from_the_latest_release() {
    let mut s = ComponentVersionState::default();
    let up = upstream("0.23.0", "abc");
    assert!(needs_release_check(&s, &up, false));
    assert!(matches!(
        decide_xolite_bump(&mut s, &up, false, latest("v0.23.0-ce5", "abc")),
        BumpDecision::NoChange
    ));
    assert_eq!(s.upstream_version, "0.23.0");
    assert_eq!(s.ce_counter, 5);
    assert_eq!(s.last_tag, "v0.23.0-ce5");
    assert_eq!(s.last_built_sha, "abc");
    // From then on the state is enough.
    assert!(!needs_release_check(&s, &up, false));

    let mut p = ComponentVersionState::default();
    assert!(matches!(
        decide_xoa_proxy_bump(&mut p, &upstream("0.1.1", "abc"), false, latest("v0.1.1.3", "abc")),
        BumpDecision::NoChange
    ));
    assert_eq!(p.ce_counter, 3);
}

#[test]
fn releases_that_do_not_cover_are_ignored() {
    let up = upstream("0.23.0", "abc");
    for (tag, sha) in [
        ("v0.23.0-ce5", "def"),
        ("v0.22.0-ce5", "abc"),
        ("0.23.0", "abc"),
        ("v0.23.0", "abc"),
    ] {
        let mut s = ComponentVersionState::default();
        assert!(!latest_release_matches(Component::XoLite, &up, &mut s, latest(tag, sha)));
        assert_eq!(s.last_tag, "");
    }
    let mut s = ComponentVersionState::default();
    assert!(!latest_release_matches(Component::XoLite, &up, &mut s, None));
}

#[test]
fn builds_begin_with_a_tag() {
    let mut s = state("0.22.0", 7, "v0.22.0-ce7", "abc");
    assert_eq!(begin_build(Component::XoLite, &mut s, BumpDecision::NoChange), None);
    assert_eq!(s.ce_counter, 7);
    let bump = |v: &str| BumpDecision::UpstreamBump { upstream_version: v.to_string() };
    let patch = |v: &str, n| BumpDecision::PatchBump {
        upstream_version: v.to_string(),
        next_counter: n,
    };
    assert_eq!(
        begin_build(Component::XoLite, &mut s, bump("0.23.0")).as_deref(),
        Some("v0.23.0-ce1")
    );
    assert_eq!((s.upstream_version.as_str(), s.ce_counter), ("0.23.0", 1));
    assert_eq!(
        begin_build(Component::XoLite, &mut s, patch("0.23.0", 2)).as_deref(),
        Some("v0.23.0-ce2")
    );
    assert_eq!((s.last_tag.as_str(), s.ce_counter), ("v0.22.0-ce7", 2));
    let mut p = ComponentVersionState::default();
    assert_eq!(begin_build(Component::XoaProxy, &mut p, bump("0.1.1")).as_deref(), Some("v0.1.1"));
    assert_eq!(p.ce_counter, 1);
    assert_eq!(
        begin_build(Component::XoaProxy, &mut p, patch("0.1.1", 2)).as_deref(),
        Some("v0.1.1.2")
    );
}

fn builds() -> ComponentBuilds {
    ComponentBuilds::new(
        ComponentRun::running("abc", "v0.23.0-ce1", 1, "https://x"),
        ComponentRun::running("def", "v0.1.1", 2, "https://y"),
    )
}

fn down() -> Result<String, OrchestratorError> {
    Err(OrchestratorError::GitHubApi("1".to_string(), "down".to_string()))
}

fn ended(conclusion: &str) -> Result<String, OrchestratorError> {
    Ok(conclusion.to_string())
}

fn status() -> AgentStatus {
    AgentStatus::new("initialization", WorkflowStatus::InProgress)
}

#[test]
fn conclusions_map_to_statuses() {
    assert!(build_status("success") == WorkflowStatus::Success);
    assert!(build_status("failure") == WorkflowStatus::Failure);
    assert!(build_status("timed_out") == WorkflowStatus::Timeout);
    assert!(build_status("cancelled") == WorkflowStatus::Aborted);
    assert!(build_status("In Progress") == WorkflowStatus::InProgress);
    assert!(build_status("unknown") == WorkflowStatus::InProgress);
}

#[test]
fn watches_wait_and_time_out() {
    assert_eq!(component_watch_step(0), WatchStep::LookAfter(20));
    assert_eq!(component_watch_step(7_200_000_000_000), WatchStep::LookAfter(20));
    assert_eq!(component_watch_step(7_200_000_000_001), WatchStep::TimedOut);
    assert_eq!(iso_watch_step(7_200_000_000_000), WatchStep::LookAfter(30));
    assert_eq!(iso_watch_step(u128::MAX), WatchStep::TimedOut);
}

#[test]
fn five_failed_polls_in_a_row_end_the_watch() {
    let mut b = builds();
    for _ in 0..4 {
        assert!(b.polled(Component::XoLite, down()).is_ok());
    }
    // A poll that succeeds starts the count anew.
    assert!(b.polled(Component::XoaProxy, ended("In Progress")).is_ok());
    assert_eq!(b.poll_failures, 0);
    for i in 0..4 {
        let component = if i % 2 == 0 { Component::XoLite } else { Component::XoaProxy };
        assert!(b.polled(component, down()).is_ok());
    }
    assert_eq!(
        b.polled(Component::XoLite, down()).unwrap_err().message(),
        "GitHub API error (1): down"
    );
    assert!(b.in_progress());
}

#[test]
fn builds_are_polled_while_they_run() {
    let mut b = builds();
    assert_eq!(b.due(Component::XoLite), Some(1));
    assert_eq!(b.due(Component::XoaProxy), Some(2));
    b.polled(Component::XoLite, ended("success")).unwrap();
    assert_eq!(b.due(Component::XoLite), None);
    assert!(b.in_progress());
    b.polled(Component::XoaProxy, ended("cancelled")).unwrap();
    assert!(!b.in_progress());
    assert!(!b.went_wrong());
    let idle = ComponentBuilds::new(ComponentRun::idle("abc"), ComponentRun::idle("def"));
    assert_eq!(idle.due(Component::XoLite), None);
    assert!(idle.nothing_built() && !idle.in_progress());
}

#[test]
fn reports_of_the_watch() {
    let mut s = status();
    let mut b = builds();
    b.report_start(&mut s);
    assert_eq!(s.phase, "monitoring");
    assert!(s.status == WorkflowStatus::InProgress);
    assert_eq!(s.component("xolite-ce").unwrap().url, "https://x");
    b.polled(Component::XoLite, ended("success")).unwrap();
    b.polled(Component::XoaProxy, ended("failure")).unwrap();
    b.report_poll(&mut s);
    assert!(s.status == WorkflowStatus::Failure);
    assert!(s.component("xolite-ce").unwrap().status == WorkflowStatus::Success);
    assert_eq!(s.component("xoa-proxy").unwrap().url, "https://y");
    assert!(b.went_wrong());
    b.report_failure(&mut s);
    assert_eq!(s.phase, "failed");
    assert_eq!(s.url, "https://y");
    assert_eq!(s.detail, "Component build failed or timed out; ISO build aborted");

    let mut s = status();
    ComponentBuilds::new(ComponentRun::idle("a"), ComponentRun::idle("b")).report_start(&mut s);
    assert!(s.status == WorkflowStatus::Skipped);
}

#[test]
fn a_watch_that_takes_too_long_times_the_builds_out() {
    let mut s = status();
    let mut b = builds();
    b.polled(Component::XoLite, ended("success")).unwrap();
    b.time_out(&mut s);
    assert!(b.xolite.status == WorkflowStatus::Success);
    assert!(b.xoa_proxy.status == WorkflowStatus::Timeout);
    assert!(s.status == WorkflowStatus::Timeout);
    assert_eq!(s.detail, "Component monitoring timed out");
    assert!(b.went_wrong());
    b.report_failure(&mut s);
    assert_eq!(s.url, "");
}

#[test]
fn only_successful_builds_are_remembered() {
    let mut versions = IsoAgentVersionState::default();
    let mut b = builds();
    b.polled(Component::XoLite, ended("success")).unwrap();
    b.polled(Component::XoaProxy, ended("cancelled")).unwrap();
    b.record(&mut versions);
    assert_eq!(versions.xolite_ce.last_tag, "v0.23.0-ce1");
    assert_eq!(versions.xolite_ce.last_built_sha, "abc");
    assert_eq!(versions.xoa_proxy.last_tag, "");
    assert_eq!(versions.xoa_proxy.last_built_sha, "");
}

#[test]
fn a_recorded_build_is_not_repeated() {
    let mut s = ComponentVersionState::default();
    let up = upstream("0.23.0", "abc");
    let decision = decide_xolite_bump(&mut s, &up, false, None);
    let tag = begin_build(Component::XoLite, &mut s, decision).unwrap();
    let mut versions = IsoAgentVersionState::default();
    versions.xolite_ce = s;
    let mut b = ComponentBuilds::new(
        ComponentRun::running("abc", &tag, 1, "https://x"),
        ComponentRun::idle("def"),
    );
    b.polled(Component::XoLite, ended("success")).unwrap();
    b.record(&mut versions);
    assert!(matches!(
        decide_xolite_bump(&mut versions.xolite_ce, &up, false, None),
        BumpDecision::NoChange
    ));
}

#[test]
fn isos_are_built_when_something_moved() {
    let mut versions = IsoAgentVersionState::default();
    versions.xolite_ce = state("0.23.0", 1, "v0.23.0-ce1", "abc");
    versions.xoa_proxy = state("0.1.1", 0, "v0.1.1", "def");
    assert!(versions.needs_iso_build(false));
    assert!(versions.can_count_iso());
    assert_eq!(versions.next_iso_counter(), 1);
    assert_eq!(versions.next_iso_tag(), "v8.3-ce1");
    versions.record_iso("v8.3-ce1", 1);
    assert!(!versions.needs_iso_build(false));
    assert!(versions.needs_iso_build(true));
    assert_eq!(versions.next_iso_tag(), "v8.3-ce2");
    let entry = versions.release_entry("v8.3-ce1");
    assert_eq!(entry.xolite_version, "v0.23.0-ce1");
    assert_eq!(entry.xolite_upstream, "0.23.0");
    assert_eq!(entry.xoa_proxy_version, "v0.1.1");
    versions.xoa_proxy.last_tag = "v0.1.1.1".to_string();
    assert!(versions.needs_iso_build(false));
    versions.iso.ce_counter = u32::MAX;
    assert!(!versions.can_count_iso());
    versions.iso.xcpng_version = "8.2".to_string();
    assert!(versions.can_count_iso());
    assert_eq!(versions.next_iso_counter(), 1);
}

#[test]
fn a_lost_iso_state_is_seeded() {
    let idle = ComponentBuilds::new(ComponentRun::idle("a"), ComponentRun::idle("b"));
    let mut versions = IsoAgentVersionState::default();
    versions.xolite_ce.last_tag = "v0.23.0-ce1".to_string();
    assert!(versions.wants_iso_seed(&idle));
    assert!(!versions.wants_iso_seed(&builds()));
    assert!(!versions.seed_iso("nightly"));
    assert!(versions.seed_iso("v8.3-ce4"));
    assert_eq!(versions.iso.ce_counter, 4);
    assert_eq!(versions.iso.last_xolite_tag, "v0.23.0-ce1");
    assert!(!versions.needs_iso_build(false));
    assert!(!versions.wants_iso_seed(&idle));
}

#[test]
fn reports_of_the_iso() {
    let mut s = status();
    report_iso(&mut s, &IsoEvent::Starting { tag: "v8.3-ce4".to_string() });
    assert_eq!((s.phase.as_str(), s.detail.as_str()), ("iso_build", "Building ISO with tag v8.3-ce4"));
    report_iso(
        &mut s,
        &IsoEvent::Running { tag: "v8.3-ce4".to_string(), url: "https://i".to_string() },
    );
    assert_eq!(s.url, "https://i");
    assert_eq!(s.detail, "ISO build running: v8.3-ce4");
    report_iso(&mut s, &IsoEvent::Polled { status: WorkflowStatus::Success });
    assert!(s.component("iso").unwrap().status == WorkflowStatus::Success);
    assert_eq!(s.component("iso").unwrap().url, "https://i");
    report_iso(&mut s, &IsoEvent::Built { tag: "v8.3-ce4".to_string() });
    assert_eq!(
        (s.phase.as_str(), s.detail.as_str()),
        ("completed", "ISO build successful: v8.3-ce4")
    );
    assert!(s.status == WorkflowStatus::Success);

    report_iso(&mut s, &IsoEvent::TimedOut);
    assert!(s.status == WorkflowStatus::Timeout);
    assert_eq!(s.detail, "ISO build monitoring timed out");
    report_iso(&mut s, &IsoEvent::Ended { status: WorkflowStatus::Timeout });
    assert_eq!((s.phase.as_str(), s.detail.as_str()), ("failed", "ISO build ended with: Timeout"));

    let mut s = status();
    report_iso(
        &mut s,
        &IsoEvent::NotStarted { error: OrchestratorError::TagCreation("no".to_string()) },
    );
    assert_eq!(s.detail, "Failed to start ISO build: Tag creation failed: no");
    assert!(s.component("iso").unwrap().status == WorkflowStatus::Failure);
    let mut s = status();
    report_iso(&mut s, &IsoEvent::Skipped);
    assert_eq!((s.phase.as_str(), s.detail.as_str()), ("completed", "No component changes"));
    assert!(s.status == WorkflowStatus::Skipped);
}

#[test]
fn the_iso_watch_counts_failures() {
    let mut watch = IsoWatch::new();
    for _ in 0..4 {
        assert!(watch.polled(down()).unwrap().is_none());
    }
    assert!(watch.polled(ended("In Progress")).unwrap().unwrap() == WorkflowStatus::InProgress);
    for _ in 0..4 {
        assert!(watch.polled(down()).unwrap().is_none());
    }
    assert!(watch.polled(down()).is_err());
}

#[test]
fn version_states_start_empty() {
    let versions = VersionState::default();
    assert_eq!(versions.xolite_ce.ce_counter, 0);
    assert_eq!(versions.iso.last_tag, "");
    assert_eq!(versions.xoa_hl.last_built_sha, "");
    let mut one = versions.clone();
    one.iso.last_tag = "v8.3-ce1".to_string();
    assert_eq!(one.clone().iso.last_tag, "v8.3-ce1");
}

#[test]
fn tags_are_read_by_component() {
    assert_eq!(Component::XoLite.parse_tag("v0.23.0-ce2"), Some(("0.23.0".to_string(), 2)));
    assert_eq!(Component::XoaProxy.parse_tag("v0.23.0-ce2"), None);
    assert_eq!(Component::XoaProxy.parse_tag("v0.1.1.3"), Some(("0.1.1".to_string(), 3)));
}

#[test]
fn a_forced_component_is_always_built() {
    let mut s = state("0.1.1", 3, "v0.1.1.3", "abc");
    let up = upstream("0.1.1", "abc");
    let decision = decide_bump(Component::XoaProxy, &mut s, &up, true, latest("v0.1.1.3", "abc"));
    assert_eq!(begin_build(Component::XoaProxy, &mut s, decision).as_deref(), Some("v0.1.1.4"));
    let mut s = state("0.1.0", 3, "v0.1.0.3", "abc");
    let decision = decide_bump(Component::XoaProxy, &mut s, &up, true, None);
    assert_eq!(begin_build(Component::XoaProxy, &mut s, decision).as_deref(), Some("v0.1.1"));
    assert_eq!(s.ce_counter, 1);
}

fn built_once() -> IsoAgentVersionState {
    let mut versions = IsoAgentVersionState::default();
    versions.xolite_ce = state("0.23.0", 2, "v0.23.0-ce2", "abc");
    versions.xoa_proxy = state("0.1.1", 1, "v0.1.1", "def");
    versions.record_iso("v8.3-ce4", 4);
    versions
}

#[test]
fn an_idle_run_builds_no_iso() {
    let mut versions = built_once();
    let mut report = AgentStatus::new("monitoring", WorkflowStatus::Skipped);
    let builds = ComponentBuilds::new(ComponentRun::idle("abc"), ComponentRun::idle("def"));
    let verdict = conclude_components(&builds, &mut versions, &mut report);
    assert_eq!(verdict, ComponentsVerdict::Recorded { wants_iso_seed: false });
    assert_eq!(report.phase, "monitoring");
    assert!(matches!(plan_iso(&versions, false, &mut report), IsoPlan::Skip));
    assert_eq!(report.phase, "completed");
    assert_eq!(report.detail, "No component changes");
    assert!(report.status == WorkflowStatus::Skipped);
    // Forced, the next one is built all the same.
    match plan_iso(&versions, true, &mut report) {
        IsoPlan::Build { tag, counter } => {
            assert_eq!((tag.as_str(), counter), ("v8.3-ce5", 5));
        }
        IsoPlan::Skip => panic!("a forced ISO is built"),
    }
    assert_eq!(report.phase, "iso_build");
    assert_eq!(report.detail, "Building ISO with tag v8.3-ce5");
}

#[test]
fn a_new_component_calls_for_an_iso() {
    let mut versions = built_once();
    let mut report = AgentStatus::new("monitoring", WorkflowStatus::InProgress);
    let run = ComponentRun::running("fff", "v0.1.2", 7, "https://r/7");
    let mut builds = ComponentBuilds::new(ComponentRun::idle("abc"), run);
    builds.polled(Component::XoaProxy, Ok("success".to_string())).unwrap();
    let verdict = conclude_components(&builds, &mut versions, &mut report);
    assert_eq!(verdict, ComponentsVerdict::Recorded { wants_iso_seed: false });
    assert_eq!(versions.xoa_proxy.last_tag, "v0.1.2");
    assert_eq!(versions.xoa_proxy.last_built_sha, "fff");
    assert_eq!(versions.xolite_ce.last_tag, "v0.23.0-ce2");
    assert!(matches!(plan_iso(&versions, false, &mut report), IsoPlan::Build { counter: 5, .. }));
}

#[test]
fn a_failed_component_ends_the_run() {
    let mut versions = built_once();
    let mut report = AgentStatus::new("monitoring", WorkflowStatus::InProgress);
    let run = ComponentRun::running("fff", "v0.1.2", 7, "https://r/7");
    let mut builds = ComponentBuilds::new(ComponentRun::idle("abc"), run);
    builds.polled(Component::XoaProxy, Ok("failure".to_string())).unwrap();
    let verdict = conclude_components(&builds, &mut versions, &mut report);
    assert_eq!(verdict, ComponentsVerdict::Failed);
    assert_eq!(versions.xoa_proxy.last_tag, "v0.1.1");
    assert_eq!(report.phase, "failed");
    assert_eq!(report.url, "https://r/7");
}

#[test]
fn a_lost_state_is_seeded_from_the_latest_iso() {
    let mut versions = built_once();
    versions.iso = IsoAgentVersionState::default().iso;
    let mut report = AgentStatus::new("monitoring", WorkflowStatus::Skipped);
    let builds = ComponentBuilds::new(ComponentRun::idle("abc"), ComponentRun::idle("def"));
    let verdict = conclude_components(&builds, &mut versions, &mut report);
    assert_eq!(verdict, ComponentsVerdict::Recorded { wants_iso_seed: true });
    assert!(versions.seed_iso("v8.3-ce9"));
    assert!(matches!(plan_iso(&versions, false, &mut report), IsoPlan::Skip));
    assert!(matches!(plan_iso(&versions, true, &mut report), IsoPlan::Build { counter: 10, .. }));
}

#[test]
fn no_report_names_a_component_twice() {
    let mut report = AgentStatus::new("monitoring", WorkflowStatus::InProgress);
    let run = ComponentRun::running("fff", "v0.1.2", 7, "https://r/7");
    let builds = ComponentBuilds::new(ComponentRun::idle("abc"), run);
    builds.report_start(&mut report);
    builds.report_poll(&mut report);
    let running = IsoEvent::Running { tag: "v8.3-ce5".to_string(), url: "https://r/8".to_string() };
    report_iso(&mut report, &running);
    report_iso(&mut report, &IsoEvent::Polled { status: WorkflowStatus::Success });
    let names: Vec<&str> = report.components.iter().map(|c| c.name.as_str()).collect();
    assert_eq!(names, ["xolite-ce", "xoa-proxy", "iso"]);
    assert_eq!(report.component("iso").unwrap().url, "https://r/8");
}

#[test]
fn a_full_counter_stops_only_the_next_patch() {
    let full = state("0.23.0", u32::MAX, "v0.23.0-ce4294967295", "abc");
    let can = |up: &Upstream, force: bool, latest: Option<(String, String)>| {
        can_decide_bump(Component::XoLite, &full, up, force, &latest)
    };
    // A new commit, and a build that is forced, raise the counter.
    assert!(!can(&upstream("0.23.0", "def"), false, None));
    assert!(!can(&upstream("0.23.0", "def"), false, latest("v0.23.0-ce2", "abc")));
    assert!(!can(&upstream("0.23.0", "abc"), true, None));
    assert!(!can(&upstream("0.23.0", "def"), true, latest("v0.23.0-ce2", "def")));
    // Nothing changed, a release covers the commit, or the version is new.
    assert!(can(&upstream("0.23.0", "abc"), false, None));
    assert!(can(&upstream("0.23.0", "def"), false, latest("v0.23.0-ce2", "def")));
    assert!(can(&upstream("0.24.0", "def"), false, None));
    assert!(can(&upstream("0.24.0", "abc"), true, None));
    // Below the limit there is room.
    let room = state("0.23.0", u32::MAX - 1, "v0.23.0-ce4294967294", "abc");
    assert!(can_decide_bump(Component::XoLite, &room, &upstream("0.23.0", "def"), false, &None));
}
