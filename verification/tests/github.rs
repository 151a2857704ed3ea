use xcp_orchestrator::clock::Timestamp;
use xcp_orchestrator::error::OrchestratorError;
use xcp_orchestrator::github;
use xcp_orchestrator::github::{RunSearch, SearchStep, TagPush, TagPushStep, TagTarget};
use xcp_orchestrator::types::{GHJob, GHJobsResponse, GHRun, GHRunsResponse, RefObject};

#[test]
fn headers_carry_the_token() {
    let headers = github::github_headers("ghp_x").unwrap();
    assert_eq!(
        headers,
        vec![
            ("Authorization".to_string(), "Bearer ghp_x".to_string()),
            ("User-Agent".to_string(), "XCP-Orchestrator-Rust-Agent".to_string()),
            ("Accept".to_string(), "application/vnd.github+json".to_string()),
        ]
    );
    for good in ["", "a\tb", "\u{e9}", " "] {
        assert!(github::github_headers(good).is_ok(), "{:?}", good);
    }
    for bad in ["a\n", "\u{7f}", "\0"] {
        assert_eq!(
            github::github_headers(bad).unwrap_err().message(),
            "GitHub API error (header creation): failed to parse header value"
        );
    }
}

#[test]
fn replies_are_bodies_or_errors() {
    for status in [200u16, 201, 204, 299] {
        assert_eq!(
            github::parse_github_response(status, "{}".to_string(), "what").unwrap(),
            "{}"
        );
    }
    for (status, shown) in [
        (404u16, "404 Not Found"),
        (500, "500 Internal Server Error"),
        (199, "199 <unknown status code>"),
        (300, "300 Multiple Choices"),
        (999, "999 <unknown status code>"),
    ] {
        assert_eq!(
            github::parse_github_response(status, "oops".to_string(), "what")
                .unwrap_err()
                .message(),
            format!("GitHub API error (what (status {})): oops", shown)
        );
    }
}

#[test]
fn what_is_not_found_is_none() {
    assert!(github::parse_optional_response(404, "x".to_string(), "c").unwrap().is_none());
    assert_eq!(
        github::parse_optional_response(200, "x".to_string(), "c").unwrap().as_deref(),
        Some("x")
    );
    assert!(github::parse_optional_response(403, "x".to_string(), "c").is_err());
}

#[test]
fn addresses() {
    assert_eq!(
        github::head_url("xolite-ce"),
        "https://api.github.com/repos/Vagrantin/xolite-ce/commits/main"
    );
    assert_eq!(github::head_context("xoa-hl"), "fetch_repo_head_sha for xoa-hl");
    assert_eq!(github::refs_url("r"), "https://api.github.com/repos/Vagrantin/r/git/refs");
    assert_eq!(
        github::latest_release_url("r"),
        "https://api.github.com/repos/Vagrantin/r/releases/latest"
    );
    assert_eq!(github::latest_release_context("r"), "fetch_latest_release_ref for r");
    assert_eq!(
        github::tag_ref_url("r", "v1"),
        "https://api.github.com/repos/Vagrantin/r/git/ref/tags/v1"
    );
    assert_eq!(github::tag_ref_context("r", "v1"), "fetch_tag_commit_sha for v1 on r");
    assert_eq!(
        github::tag_object_url("r", "abc"),
        "https://api.github.com/repos/Vagrantin/r/git/tags/abc"
    );
    assert_eq!(github::tag_object_context("r", "v1"), "dereference annotated tag v1 on r");
    assert_eq!(
        github::releases_url("r", 30),
        "https://api.github.com/repos/Vagrantin/r/releases?per_page=30"
    );
    assert_eq!(github::releases_context("r"), "fetch_releases for r");
    assert_eq!(
        github::run_url("r", 12),
        "https://api.github.com/repos/Vagrantin/r/actions/runs/12"
    );
    assert_eq!(
        github::jobs_url("r", 12),
        "https://api.github.com/repos/Vagrantin/r/actions/runs/12/jobs"
    );
    assert_eq!(
        github::job_logs_url("r", 7),
        "https://api.github.com/repos/Vagrantin/r/actions/jobs/7/logs"
    );
    assert_eq!(
        github::dispatch_url("r", "w.yml"),
        "https://api.github.com/repos/Vagrantin/r/actions/workflows/w.yml/dispatches"
    );
}

#[test]
fn annotated_tags_need_another_look() {
    let object = |kind: &str| RefObject { sha: "abc".to_string(), object_type: kind.to_string() };
    assert!(matches!(github::tag_target(&object("commit")), TagTarget::Commit(sha) if sha == "abc"));
    assert!(matches!(github::tag_target(&object("tag")), TagTarget::Annotated(sha) if sha == "abc"));
}

const TAKEN: &str = "{\"message\":\"Reference already exists\"}";

#[test]
fn a_free_tag_is_pushed_at_once() {
    let mut push = TagPush::new("xolite-ce", "v0.23.0-ce1", "abc");
    assert_eq!(push.reference(), "refs/tags/v0.23.0-ce1");
    assert!(matches!(push.step(201, ""), TagPushStep::Pushed(tag) if tag == "v0.23.0-ce1"));
}

#[test]
fn taken_tags_are_counted_up() {
    let mut push = TagPush::new("xoa-proxy", "v0.1.1", "abc");
    assert!(matches!(push.step(422, TAKEN), TagPushStep::Retry));
    assert_eq!(push.tag, "v0.1.1.1");
    assert!(matches!(push.step(422, TAKEN), TagPushStep::Retry));
    assert_eq!(push.reference(), "refs/tags/v0.1.1.2");
    assert_eq!(push.attempt, 2);
    assert!(matches!(push.step(200, TAKEN), TagPushStep::Pushed(tag) if tag == "v0.1.1.2"));
}

#[test]
fn tags_are_given_up_after_the_last_attempt() {
    let mut push = TagPush::new("xolite-ce", "v1-ce1", "abc");
    for attempt in 1..=98u32 {
        assert!(matches!(push.step(422, TAKEN), TagPushStep::Retry));
        assert_eq!(push.attempt, attempt);
        assert_eq!(push.tag, format!("v1-ce{}", attempt + 1));
    }
    match push.step(422, TAKEN) {
        TagPushStep::Failed(e) => assert_eq!(
            e.message(),
            "Tag creation failed: Failed to create tag on xolite-ce: tried v1-ce1 through v1-ce99 (all exist), giving up"
        ),
        other => panic!("{:?}", other),
    }
}

#[test]
fn tags_without_a_scheme_fail_on_collision() {
    let mut push = TagPush::new("r", "release-foo", "abc");
    match push.step(422, TAKEN) {
        TagPushStep::Failed(e) => assert_eq!(
            e.message(),
            "Tag creation failed: Tag release-foo already exists and no increment strategy applies to it"
        ),
        other => panic!("{:?}", other),
    }
}

#[test]
fn other_refusals_of_a_tag_fail() {
    for (status, body) in [(422u16, "Object does not exist"), (500, TAKEN)] {
        let mut push = TagPush::new("r", "v1-ce1", "abc");
        match push.step(status, body) {
            TagPushStep::Failed(e) => assert_eq!(
                e.message(),
                format!(
                    "GitHub API error (create_and_push_tag for r): Failed to create tag v1-ce1: {}",
                    body
                )
            ),
            other => panic!("{:?}", other),
        }
    }
    let push = TagPush::new("r", "v1-ce4294967295", "abc");
    assert!(!push.can_count_up());
    assert!(TagPush::new("r", "v1-ce4294967294", "abc").can_count_up());
    assert!(TagPush::new("r", "odd", "abc").can_count_up());
    assert_eq!(push.unsent("no route").message(), "GitHub API error (v1-ce4294967295): no route");
}

fn at(secs: i64) -> Timestamp {
    Timestamp { secs, nanos: 0 }
}

fn run(id: u64, secs: i64, branch: Option<&str>) -> GHRun {
    GHRun {
        id,
        html_url: format!("https://runs/{}", id),
        status: "queued".to_string(),
        conclusion: None,
        created_at: at(secs),
        head_branch: branch.map(String::from),
    }
}

#[test]
fn tag_runs_are_found_by_branch_or_moment() {
    let search = RunSearch::for_tag_push("xolite-ce", "v1-ce1", at(1000));
    assert!(search.can_search());
    let runs = |runs| GHRunsResponse { workflow_runs: runs };
    assert_eq!(
        search.find(&runs(vec![run(1, 2000, Some("main")), run(2, 10, Some("v1-ce1"))])),
        Some((2, "https://runs/2".to_string()))
    );
    assert_eq!(
        search.find(&runs(vec![run(1, 994, None), run(2, 995, None), run(3, 2000, None)])),
        Some((2, "https://runs/2".to_string()))
    );
    assert_eq!(search.find(&runs(vec![run(1, 2000, Some("main"))])), None);
    assert_eq!(search.find(&runs(vec![])), None);
}

#[test]
fn dispatched_runs_are_found_by_moment() {
    let search = RunSearch::for_dispatch("xoa-hl", at(1000));
    let runs = |runs| GHRunsResponse { workflow_runs: runs };
    assert_eq!(
        search.find(&runs(vec![run(1, 994, Some("main")), run(2, 995, Some("main"))])),
        Some((2, "https://runs/2".to_string()))
    );
    assert_eq!(search.find(&runs(vec![run(1, 994, None)])), None);
}

#[test]
fn searches_ask_wait_and_give_up() {
    let tag = RunSearch::for_tag_push("xolite-ce", "v1-ce1", at(1000));
    assert_eq!(
        tag.url(),
        "https://api.github.com/repos/Vagrantin/xolite-ce/actions/runs?event=push&per_page=5"
    );
    assert_eq!(tag.context(), "locate_tag_triggered_run for v1-ce1 on xolite-ce");
    assert!(matches!(tag.next(179), SearchStep::LookAfter(6)));
    match tag.next(180) {
        SearchStep::GiveUp(e) => assert_eq!(
            e.message(),
            "Workflow run not found: Timeout waiting for tag-push run matching v1-ce1 in repo xolite-ce"
        ),
        other => panic!("{:?}", other),
    }
    assert_eq!(tag.unsent("down").message(), "GitHub API error (v1-ce1): down");

    let dispatch = RunSearch::for_dispatch("xoa-hl", at(1000));
    assert_eq!(
        dispatch.url(),
        "https://api.github.com/repos/Vagrantin/xoa-hl/actions/runs?event=workflow_dispatch&per_page=10"
    );
    assert_eq!(dispatch.context(), "locate_dispatch_triggered_run for xoa-hl");
    assert!(matches!(dispatch.next(0), SearchStep::LookAfter(6)));
    match dispatch.next(u64::MAX) {
        SearchStep::GiveUp(e) => assert_eq!(
            e.message(),
            "Workflow run not found: Timeout waiting for workflow_dispatch-triggered run in repo xoa-hl"
        ),
        other => panic!("{:?}", other),
    }
    assert_eq!(dispatch.unsent("down").message(), "GitHub API error (xoa-hl): down");
    assert!(!RunSearch::for_dispatch("r", at(-8334601228800)).can_search());
    assert!(RunSearch::for_dispatch("r", at(-8334601228795)).can_search());
}

#[test]
fn conclusions_of_runs() {
    let mut r = run(1, 0, None);
    assert_eq!(github::run_conclusion(&r), "In Progress");
    r.conclusion = Some("success".to_string());
    assert_eq!(github::run_conclusion(&r), "In Progress");
    r.status = "completed".to_string();
    assert_eq!(github::run_conclusion(&r), "success");
    r.conclusion = None;
    assert_eq!(github::run_conclusion(&r), "unknown");
}

#[test]
fn failed_jobs_and_their_logs() {
    let job = |id, conclusion: Option<&str>| GHJob { id, conclusion: conclusion.map(String::from) };
    let jobs = GHJobsResponse {
        jobs: vec![job(1, None), job(2, Some("success")), job(3, Some("failure")), job(4, Some("failure"))],
    };
    assert_eq!(github::failed_job(&jobs), Some(3));
    assert_eq!(github::failed_job(&GHJobsResponse { jobs: vec![] }), None);
    assert_eq!(github::NO_FAILED_JOB, "Could not resolve failed job log metrics.");

    assert_eq!(github::log_tail(""), "");
    assert_eq!(github::log_tail("a\r\nb\n"), "a\nb");
    let log: Vec<String> = (0..300).map(|i| format!("line {}", i)).collect();
    assert_eq!(github::log_tail(&log.join("\n")), log[50..].join("\n"));
    assert_eq!(github::log_tail(&log[..250].join("\n")), log[..250].join("\n"));
}

#[test]
fn dispatches_succeed_with_no_content_only() {
    assert!(github::dispatch_result("xoa-hl", 204, "").is_ok());
    assert_eq!(
        github::dispatch_result("xoa-hl", 200, "odd").unwrap_err().message(),
        "GitHub API error (dispatch_workflow for xoa-hl): workflow_dispatch returned 200 OK \u{2014} odd"
    );
    assert_eq!(
        github::dispatch_reply(404, "gone"),
        Err("workflow_dispatch returned 404 Not Found \u{2014} gone".to_string())
    );
    assert!(matches!(
        github::dispatch_result("r", 500, ""),
        Err(OrchestratorError::GitHubApi(_, _))
    ));
}
