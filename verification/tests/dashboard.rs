use xcp_orchestrator::api::{agents, trigger_path, unit_for_agent, TRIGGER_ROUTE};
use xcp_orchestrator::clock::Timestamp;
use xcp_orchestrator::dashboard::{write_buttons, BUTTON_SCRIPT, DASHBOARD_HEAD};
use xcp_orchestrator::iso_agent::Component;
use xcp_orchestrator::orchestrator::{
    badge_class, component_or_agent, failure_lines, hint, history_item, render_dashboard_html,
    render_dashboard_with_times, update_history, RunHistoryItem, FAILURE_HINT,
};
use xcp_orchestrator::pipeline;
use xcp_orchestrator::pipeline::PipelineState;
use xcp_orchestrator::status::{get_badge_class, AgentStatus, PipelineStatus, WorkflowStatus};

fn sample_item() -> RunHistoryItem {
    RunHistoryItem {
        xolite_status: "Success".to_string(),
        xolite_url: "https://github.com/Vagrantin/xolite-ce/actions/runs/1".to_string(),
        xoa_proxy_status: "Failure".to_string(),
        xoa_proxy_url: "https://github.com/Vagrantin/xoa-proxy/actions/runs/2".to_string(),
        iso_status: "In Progress".to_string(),
        xoa_hl_status: "Success".to_string(),
        xoa_hl_url: "https://github.com/Vagrantin/xoa-hl/actions/runs/3".to_string(),
        xoa_image_status: "Success".to_string(),
        xoa_image_url: "https://github.com/Vagrantin/xoa-hl/releases/tag/v1".to_string(),
        llm_hint: Some("check the spec file".to_string()),
        ..Default::default()
    }
}

#[test]
fn dashboard_renders_all_component_rows_with_links() {
    let html = render_dashboard_html(&[sample_item()]);
    for label in ["Xolite-ce", "XOA-Proxy", "ISO Matrix", "XOA-HL", "XOA Image"] {
        assert!(html.contains(label), "missing row {}", label);
    }
    assert!(html.contains(r#"href="https://github.com/Vagrantin/xolite-ce/actions/runs/1""#));
    assert!(html.contains(r#"href="https://github.com/Vagrantin/xoa-hl/releases/tag/v1""#));
    assert!(html.contains(r#"class="badge success">Success"#));
    assert!(html.contains(r#"class="badge failure">Failure"#));
    assert!(html.contains(r#"class="badge progress">In Progress"#));
    assert!(html.contains("check the spec file"));
}

#[test]
fn badge_classes_map_display_strings() {
    assert_eq!(badge_class("Success"), "success");
    assert_eq!(badge_class("Failure"), "failure");
    assert_eq!(badge_class("Timeout"), "failure");
    assert_eq!(badge_class("Aborted"), "failure");
    assert_eq!(badge_class("Skipped"), "progress");
    assert_eq!(badge_class("In Progress"), "progress");
}

#[test]
fn badges_of_words_and_statuses_agree() {
    for status in [
        WorkflowStatus::Skipped,
        WorkflowStatus::InProgress,
        WorkflowStatus::Success,
        WorkflowStatus::Failure,
        WorkflowStatus::Timeout,
        WorkflowStatus::Aborted,
    ] {
        assert_eq!(badge_class(&status.label()), get_badge_class(&status));
    }
}

#[test]
fn the_page_is_exact() {
    let mut old = RunHistoryItem::default();
    old.iso_status = "odd".to_string();
    let html = render_dashboard_with_times(
        &[sample_item(), old],
        &vec!["now".to_string(), "then".to_string()],
    );
    let row = |label: &str, class: &str, status: &str, url: &str| {
        format!(
            r#"<p><b>{}:</b> <span class="badge {}">{}</span> | <a href="{}" target="_blank">Logs</a></p>"#,
            label, class, status, url
        )
    };
    let mut expected = format!("{}{}", DASHBOARD_HEAD, write_buttons());
    expected.push_str(r#"<div class="card"><h3>Latest Execution Run (now)</h3>"#);
    expected.push_str(&row(
        "Xolite-ce",
        "success",
        "Success",
        "https://github.com/Vagrantin/xolite-ce/actions/runs/1",
    ));
    expected.push_str(&row(
        "XOA-Proxy",
        "failure",
        "Failure",
        "https://github.com/Vagrantin/xoa-proxy/actions/runs/2",
    ));
    expected.push_str(&row("ISO Matrix", "progress", "In Progress", "#"));
    expected.push_str(&row(
        "XOA-HL",
        "success",
        "Success",
        "https://github.com/Vagrantin/xoa-hl/actions/runs/3",
    ));
    expected.push_str(&row(
        "XOA Image",
        "success",
        "Success",
        "https://github.com/Vagrantin/xoa-hl/releases/tag/v1",
    ));
    expected.push_str("<h4>\u{1f916} Qwen-Coder Diagnostic Remediation Analysis:</h4><pre>check the spec file</pre></div>");
    expected.push_str(r#"<div class="card"><h3>Historical Archive (then)</h3>"#);
    for label in ["Xolite-ce", "XOA-Proxy"] {
        expected.push_str(&row(label, "progress", "Skipped", "#"));
    }
    expected.push_str(&row("ISO Matrix", "progress", "odd", "#"));
    for label in ["XOA-HL", "XOA Image"] {
        expected.push_str(&row(label, "progress", "Skipped", "#"));
    }
    expected.push_str("</div></body></html>");
    assert_eq!(html, expected);
}

#[test]
fn moments_are_shown_in_local_time() {
    let mut item = RunHistoryItem::default();
    item.timestamp = Timestamp { secs: 1_784_000_000, nanos: 5 };
    let shown = chrono::DateTime::from_timestamp(1_784_000_000, 5)
        .unwrap()
        .with_timezone(&chrono::Local)
        .format("%Y-%m-%d %H:%M:%S")
        .to_string();
    let html = render_dashboard_html(&[item]);
    assert!(html.contains(&format!("<h3>Latest Execution Run ({})</h3>", shown)));
    assert!(html.starts_with(DASHBOARD_HEAD));
    assert_eq!(
        render_dashboard_html(&[]),
        format!("{}{}</body></html>", DASHBOARD_HEAD, write_buttons())
    );
    assert_eq!(pipeline::render_dashboard(&[]), format!("{}</body></html>", DASHBOARD_HEAD));
}

#[test]
fn history_keeps_fifteen_runs_newest_first() {
    let mut history: Vec<u32> = Vec::new();
    for run in 0..20u32 {
        update_history(&mut history, run);
        assert_eq!(history[0], run);
        assert_eq!(history.len(), (run as usize + 1).min(15));
    }
    assert_eq!(history, (5..20u32).rev().collect::<Vec<_>>());
}

fn agent(status: WorkflowStatus) -> AgentStatus {
    let mut agent = AgentStatus::new("monitoring", status);
    agent.detail = "why".to_string();
    agent
}

#[test]
fn components_fall_back_to_their_agent() {
    let mut a = agent(WorkflowStatus::Failure);
    assert_eq!(component_or_agent(&a, "iso"), ("Failure".to_string(), "#".to_string()));
    a.url = "https://agent".to_string();
    assert_eq!(
        component_or_agent(&a, "iso"),
        ("Failure".to_string(), "https://agent".to_string())
    );
    a.set_component("iso", WorkflowStatus::Success, "");
    assert_eq!(component_or_agent(&a, "iso"), ("Success".to_string(), "#".to_string()));
    a.set_component("iso", WorkflowStatus::Success, "https://iso");
    assert_eq!(
        component_or_agent(&a, "iso"),
        ("Success".to_string(), "https://iso".to_string())
    );
}

#[test]
fn history_items_gather_both_agents() {
    let mut pipeline = PipelineStatus::new();
    let mut iso = agent(WorkflowStatus::Failure);
    iso.set_component("xolite-ce", WorkflowStatus::Success, "https://x");
    iso.set_component("xoa-proxy", WorkflowStatus::Timeout, "https://p");
    pipeline.iso_agent = Some(iso);
    pipeline.update_overall();
    let item = history_item(&pipeline);
    assert_eq!((item.xolite_status.as_str(), item.xolite_url.as_str()), ("Success", "https://x"));
    assert_eq!((item.xoa_proxy_status.as_str(), item.xoa_proxy_url.as_str()), ("Timeout", "https://p"));
    assert_eq!((item.iso_status.as_str(), item.iso_url.as_str()), ("Failure", "#"));
    assert_eq!((item.xoa_hl_status.as_str(), item.xoa_hl_url.as_str()), ("Skipped", "#"));
    assert_eq!(item.llm_hint.as_deref(), Some(FAILURE_HINT));

    let mut xoa = agent(WorkflowStatus::Success);
    xoa.set_component("xoa-image", WorkflowStatus::Success, "https://i");
    let mut pipeline = PipelineStatus::new();
    pipeline.xoa_vm_agent = Some(xoa);
    pipeline.update_overall();
    let item = history_item(&pipeline);
    assert_eq!(item.xoa_hl_status, "Success");
    assert_eq!(item.xoa_image_url, "https://i");
    assert_eq!(item.xolite_status, "Skipped");
    assert_eq!(item.llm_hint, None);
    assert_eq!(hint(&WorkflowStatus::Timeout), None);
}

#[test]
fn failures_are_put_in_words() {
    let mut a = agent(WorkflowStatus::Timeout);
    a.set_component("xolite-ce", WorkflowStatus::Success, "");
    a.set_component("xoa-proxy", WorkflowStatus::Failure, "");
    a.set_component("iso", WorkflowStatus::Aborted, "https://i");
    assert_eq!(
        failure_lines("iso-agent", &a),
        vec![
            "iso-agent Timeout in phase 'monitoring': why \u{2014} logs: n/a",
            "  component xoa-proxy: Failure \u{2014} logs: n/a",
            "  component iso: Aborted \u{2014} logs: https://i",
        ]
    );
    a.status = WorkflowStatus::InProgress;
    assert!(failure_lines("iso-agent", &a).is_empty());
}

// ── The single-run pipeline ────────────────────────────────────────────────

#[test]
fn upstream_versions_are_ordered_by_number() {
    let refs = |list: &[&str]| list.iter().map(|r| r.to_string()).collect::<Vec<String>>();
    assert_eq!(
        pipeline::latest_upstream_xolite_tag(&refs(&[
            "refs/tags/xo-lite-v0.9.0",
            "refs/tags/xo-lite-v0.10.0",
            "refs/tags/xo-server-v9.9.9",
            "refs/tags/xo-lite-v0.10",
            "refs/heads/xo-lite-v99",
        ])),
        Ok("0.10.0".to_string())
    );
    // What is not a number is passed over; of equals the last one counts.
    assert_eq!(
        pipeline::latest_upstream_xolite_tag(&refs(&[
            "refs/tags/xo-lite-v1.2",
            "refs/tags/xo-lite-v1.beta.2",
            "refs/tags/xo-lite-vrc",
        ])),
        Ok("1.beta.2".to_string())
    );
    assert_eq!(
        pipeline::latest_upstream_xolite_tag(&refs(&["refs/tags/v1"])),
        Err("No xo-lite-v* tags found upstream".to_string())
    );
}

#[test]
fn pipeline_replies() {
    assert_eq!(
        pipeline::parse_github_response(200, "{}".to_string(), "c"),
        Ok("{}".to_string())
    );
    assert_eq!(
        pipeline::parse_github_response(404, "gone".to_string(), "c"),
        Err("GitHub API error (404 Not Found) during c: gone".to_string())
    );
    assert_eq!(
        pipeline::json_error("c", 200, "bad", &"x".repeat(600)),
        format!(
            "Failed to parse JSON during c (status 200 OK): bad\nBody (first 500 chars): {}",
            "x".repeat(500)
        )
    );
    assert_eq!(pipeline::tag_push_result("r", "v1", 201, ""), Ok(()));
    assert_eq!(
        pipeline::tag_push_result("r", "v1", 422, "taken"),
        Err("Failed to create tag v1 on r: taken".to_string())
    );
    assert_eq!(pipeline::dispatch_result("r", 204), Ok(()));
    assert_eq!(
        pipeline::dispatch_result("r", 404),
        Err("Dispatch rejection for repo: r. Code: 404 Not Found".to_string())
    );
    assert_eq!(pipeline::dispatch_search_step("r", 44), Ok(4));
    assert_eq!(
        pipeline::dispatch_search_step("r", 45),
        Err("Timeout waiting for run matching dispatch trigger in repo r".to_string())
    );
    assert_eq!(
        pipeline::dispatched_runs_url("r"),
        "https://api.github.com/repos/Vagrantin/r/actions/runs?event=workflow_dispatch&per_page=5"
    );
    assert_eq!(
        pipeline::latest_tag_url("r"),
        "https://api.github.com/repos/Vagrantin/r/tags?per_page=1"
    );
    assert_eq!(
        pipeline::latest_repo_tag("r", &vec!["v2".to_string(), "v1".to_string()]),
        Ok("v2".to_string())
    );
    assert_eq!(pipeline::latest_repo_tag("r", &vec![]), Err("No tags found on r".to_string()));
}

#[test]
fn pipeline_states() {
    let mut state = PipelineState::new();
    assert!(!state.in_progress());
    state.start(Component::XoaProxy, 2, "https://p");
    assert!(state.in_progress());
    assert_eq!(state.due(Component::XoLite), None);
    assert_eq!(state.due(Component::XoaProxy), Some(2));
    state.start(Component::XoLite, 1, "https://x");
    state.polled(Component::XoaProxy, "failure".to_string());
    assert_eq!(state.failed_component(), Some((Component::XoaProxy, 2)));
    state.polled(Component::XoLite, "failure".to_string());
    assert_eq!(state.failed_component(), Some((Component::XoLite, 1)));
    assert!(!state.in_progress());
    state.abort("advice".to_string());
    let item = pipeline::history_item(state);
    assert_eq!(item.iso_status, "Aborted");
    assert_eq!(item.xolite_url, "https://x");
    assert_eq!(item.llm_hint.as_deref(), Some("advice"));

    let mut state = PipelineState::new();
    assert_eq!(state.failed_component(), None);
    state.start_iso(3, "https://i");
    assert!(state.iso_polled("In Progress".to_string()));
    assert!(!state.iso_succeeded());
    assert!(!state.iso_polled("failure".to_string()));
    assert!(!state.iso_succeeded());
    assert!(!state.iso_polled("success".to_string()));
    assert!(state.iso_succeeded());
    assert_eq!((state.iso_id, state.iso_status.as_str()), (Some(3), "success"));
    state.skip_iso();
    assert_eq!(state.iso_status, "Skipped");
    assert!(!state.iso_succeeded());
}

#[test]
fn pipeline_versions() {
    let mut versions = pipeline::VersionState::default();
    assert!(!versions.record_xolite("failure", &Some("v1-ce1".to_string()), "abc"));
    assert!(!versions.record_xolite("success", &None, "abc"));
    assert_eq!(versions.xolite_ce.last_tag, "");
    assert!(versions.record_xolite("success", &Some("v1-ce1".to_string()), "abc"));
    assert_eq!(versions.xolite_ce.last_built_sha, "abc");
    assert!(versions.needs_iso_build("v1-ce1", "v0.1.1"));
    assert_eq!(versions.next_iso(), (1, "v8.3-ce1".to_string()));
    versions.xolite_ce.upstream_version = "1".to_string();
    let entry = versions.record_iso("v8.3-ce1", 1, "v1-ce1", "v0.1.1");
    assert_eq!(entry.iso_tag, "v8.3-ce1");
    assert_eq!(entry.xolite_upstream, "1");
    assert!(!versions.needs_iso_build("v1-ce1", "v0.1.1"));
    assert!(versions.needs_iso_build("v1-ce2", "v0.1.1"));
    assert!(versions.can_count_iso());
    assert_eq!(versions.next_iso(), (2, "v8.3-ce2".to_string()));
}

#[test]
fn pipeline_pages() {
    assert_eq!(pipeline::get_badge_class("success"), "success");
    assert_eq!(pipeline::get_badge_class("failure"), "failure");
    assert_eq!(pipeline::get_badge_class("In Progress"), "progress");
    assert_eq!(pipeline::get_badge_class("cancelled"), "progress");
    let mut state = PipelineState::new();
    state.start(Component::XoaProxy, 2, "https://p");
    state.polled(Component::XoaProxy, "success".to_string());
    let item = pipeline::history_item(state);
    let html = pipeline::render_dashboard_with_times(&[item], &vec!["now".to_string()]);
    let expected = format!(
        "{}{}\n        {}\n        {}\n        {}</div></body></html>",
        DASHBOARD_HEAD,
        r#"<div class="card"><h3>Latest Execution Run (now)</h3>"#,
        r##"<p><b>Xolite-ce:</b> <span class="badge progress">Skipped</span> | <a href="#" target="_blank">Logs</a></p>"##,
        r#"<p><b>XOA-Proxy:</b> <span class="badge success">success</span> | <a href="https://p" target="_blank">Logs</a></p>"#,
        r##"<p><b>ISO Matrix:</b> <span class="badge progress">Skipped</span> | <a href="#" target="_blank">Logs</a></p>"##,
    );
    assert_eq!(html, expected);
    let item = pipeline::history_item(PipelineState::new());
    let shown = chrono::DateTime::from_timestamp(item.timestamp.secs, item.timestamp.nanos)
        .unwrap()
        .with_timezone(&chrono::Local)
        .format("%Y-%m-%d %H:%M:%S")
        .to_string();
    assert!(pipeline::render_dashboard(&[item]).contains(&shown));
}

#[test]
fn diagnoses_are_asked_for() {
    let request = xcp_orchestrator::ollama::diagnosis_request("boom");
    assert_eq!(request.model, "qwen3-coder:30b");
    assert!(!request.stream);
    assert_eq!(
        request.prompt,
        "You are an expert XCP-ng software integration engineer. Analyze the following failed build logs.\nPinpoint the exact reason for failure (e.g., missing dependencies, network drops, compilation error).\nProvide highly concise, actionable hints to remediate the setup.\n\n### BUILD LOG EXCERPT:\nboom\n\n### REMEDIATION HINT:"
    );
    let answer = xcp_orchestrator::ollama::OllamaResponse { response: "fix it".to_string() };
    assert_eq!(xcp_orchestrator::ollama::diagnosis(Ok(answer)).unwrap(), "fix it");
    assert_eq!(
        xcp_orchestrator::ollama::diagnosis(Err("down".to_string())).unwrap_err().message(),
        "Ollama error: down"
    );
}

fn shown_here(secs: i64) -> String {
    chrono::DateTime::from_timestamp(secs, 0)
        .unwrap()
        .with_timezone(&chrono::Local)
        .format("%Y-%m-%d %H:%M:%S")
        .to_string()
}

#[test]
fn every_card_shows_its_own_moment() {
    let moments = [1_784_000_000i64, 1_768_000_000, -86_400];
    let runs: Vec<RunHistoryItem> = moments
        .iter()
        .map(|&secs| RunHistoryItem { timestamp: Timestamp { secs, nanos: 0 }, ..sample_item() })
        .collect();
    let html = render_dashboard_html(&runs);
    let at: Vec<usize> = moments.iter().map(|&s| html.find(&shown_here(s)).unwrap()).collect();
    assert!(at[0] < at[1] && at[1] < at[2]);
    let runs: Vec<pipeline::RunHistoryItem> = moments
        .iter()
        .map(|&secs| {
            let mut item = pipeline::history_item(PipelineState::new());
            item.timestamp = Timestamp { secs, nanos: 0 };
            item
        })
        .collect();
    let html = pipeline::render_dashboard(&runs);
    let at: Vec<usize> = moments.iter().map(|&s| html.find(&shown_here(s)).unwrap()).collect();
    assert!(at[0] < at[1] && at[1] < at[2]);
}

#[test]
fn every_agent_can_be_run_now() {
    let page = render_dashboard_html(&[sample_item()]);
    assert_eq!(agents(), vec!["orchestrator", "iso-agent", "xoa-vm-agent"]);
    for agent in agents() {
        assert!(unit_for_agent(&agent).is_some());
        assert!(page.contains(&format!(
            "<button onclick=\"runNow('/api/trigger/{}')\">Run now: {}</button>",
            agent, agent
        )));
    }
    assert_eq!(page.matches("<button ").count(), 3);
    // The buttons ask where the endpoint answers, with the token they keep.
    assert_eq!(trigger_path(":agent"), TRIGGER_ROUTE);
    assert!(page.contains(BUTTON_SCRIPT));
    for part in ["localStorage", "prompt(", "\"POST\"", "\"Bearer \" + token"] {
        assert!(BUTTON_SCRIPT.contains(part));
    }
    assert!(unit_for_agent("pipeline").is_none());
}
