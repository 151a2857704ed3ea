use xcp_orchestrator::build_config::BuildConfig;
use xcp_orchestrator::clock::Timestamp;
use xcp_orchestrator::error::OrchestratorError;
use xcp_orchestrator::status::{AgentStatus, WorkflowStatus};
use xcp_orchestrator::tags::{image_tag, short_sha};
use xcp_orchestrator::types::{ReleaseAsset, ReleaseInfo};
use xcp_orchestrator::xoa_agent;
use xcp_orchestrator::xoa_agent::{
    Finding, GitStep, ListStyle, PackerAction, PackerEvent, PackerWatch, Phase, Prerequisite,
    Published, Readiness, ReleaseReply,
    Stage, WaitStep, WorkflowWait, XoaEvent, XoaHlVersionState,
};

const SHA: &str = "cb65556aabbccdd";

fn release(tag: &str, assets: &[&str]) -> ReleaseInfo {
    ReleaseInfo {
        tag_name: tag.to_string(),
        html_url: format!("https://r/{}", tag),
        assets: assets
            .iter()
            .map(|n| ReleaseAsset {
                name: n.to_string(),
                browser_download_url: format!("https://d/{}", n),
            })
            .collect(),
    }
}

#[test]
fn only_a_published_image_counts_as_up_to_date() {
    let mut state = XoaHlVersionState::default();
    assert!(!state.is_up_to_date(SHA));
    assert!(!state.is_up_to_date(""));
    state.last_built_sha = SHA.to_string();
    state.last_tag = "v5.113.2_e281c536".to_string();
    assert!(!state.is_up_to_date(SHA));
    state.last_tag = "xoa-image-20260713-cb65556".to_string();
    assert!(state.is_up_to_date(SHA));
    assert!(!state.is_up_to_date("other"));
}

#[test]
fn a_published_image_is_remembered() {
    let mut state = XoaHlVersionState::default();
    let before = chrono::Utc::now().timestamp();
    state.record(SHA, &image_tag("20260713", SHA));
    assert!(state.is_up_to_date(SHA));
    assert!(state.last_built_at.unwrap().secs >= before);
}

#[test]
fn published_releases_are_told_apart() {
    let short = short_sha(SHA);
    let image = release("xoa-image-20260713-cb65556", &["xoa.xva.gz"]);
    let other_image = release("xoa-image-20260701-090ce7e", &["xoa.xva.gz"]);
    let failed_image = release("xoa-image-20260713-cb65556", &[]);
    let package = release("v5.113.2_e281c536", &["xoa.rpm"]);
    let find = |releases: Vec<ReleaseInfo>| xoa_agent::find_published(&releases, &short);
    assert!(matches!(
        find(vec![package, other_image, image]),
        Published::Image { tag, url } if tag == "xoa-image-20260713-cb65556"
            && url == "https://r/xoa-image-20260713-cb65556"
    ));
    assert!(matches!(
        find(vec![failed_image, release("v1", &[]), release("v2", &[])]),
        Published::Package { tag, url } if tag == "v1" && url == "https://r/v1"
    ));
    assert!(matches!(find(vec![release("xoa-image-x", &[])]), Published::Nothing));
    assert!(matches!(find(vec![]), Published::Nothing));
    assert!(xoa_agent::is_package_current(&Some(SHA.to_string()), SHA));
    assert!(!xoa_agent::is_package_current(&Some("x".to_string()), SHA));
    assert!(!xoa_agent::is_package_current(&None, SHA));
}

fn reported(events: Vec<XoaEvent>) -> AgentStatus {
    let mut status = AgentStatus::new("initialization", WorkflowStatus::InProgress);
    for event in events {
        xoa_agent::report(&mut status, &event);
    }
    status
}

#[test]
fn skipped_runs_are_reported() {
    let s = reported(vec![
        XoaEvent::Entered { phase: Phase::CheckRebuild },
        XoaEvent::Unchanged { head_sha: SHA.to_string() },
    ]);
    assert_eq!(s.phase, "phase_1_check_rebuild");
    assert!(s.status == WorkflowStatus::Skipped);
    assert_eq!(s.detail, "No changes (SHA: cb65556)");

    let s = reported(vec![XoaEvent::AlreadyPublished {
        tag: "xoa-image-1".to_string(),
        url: "https://i".to_string(),
        short_sha: "cb65556".to_string(),
    }]);
    assert_eq!(s.detail, "Image xoa-image-1 already published (SHA: cb65556)");
    assert!(s.component("xoa-hl").unwrap().status == WorkflowStatus::Skipped);
    assert_eq!(s.component("xoa-image").unwrap().url, "https://i");

    let s = reported(vec![XoaEvent::PackageCurrent { url: "https://p".to_string() }]);
    assert_eq!(s.component("xoa-hl").unwrap().url, "https://p");
    assert!(s.status == WorkflowStatus::InProgress);
}

#[test]
fn workflows_are_reported() {
    let url = || "https://w".to_string();
    let s = reported(vec![
        XoaEvent::Entered { phase: Phase::TriggerWorkflow },
    ]);
    assert_eq!(s.phase, "phase_2_trigger_workflow");
    assert_eq!(s.detail, "Dispatching xoa-hl GitHub Actions workflow");
    let s = reported(vec![XoaEvent::WorkflowRunning { url: url() }]);
    assert_eq!((s.url.as_str(), s.detail.as_str()), ("https://w", "Waiting for workflow: https://w"));
    assert!(s.component("xoa-hl").unwrap().status == WorkflowStatus::InProgress);
    let s = reported(vec![XoaEvent::WorkflowSucceeded { url: url() }]);
    assert!(s.component("xoa-hl").unwrap().status == WorkflowStatus::Success);
    let s = reported(vec![XoaEvent::WorkflowFailed { message: "no".to_string(), url: url() }]);
    assert_eq!(s.detail, "Workflow failed: no");
    assert!(s.status == WorkflowStatus::Failure);
    let s = reported(vec![XoaEvent::DispatchFailed { message: "no".to_string() }]);
    assert_eq!(s.detail, "Workflow dispatch failed: no");
    assert_eq!(s.component("xoa-hl").unwrap().url, "");
}

#[test]
fn failures_and_uploads_are_reported() {
    for (stage, start) in [
        (Stage::Prerequisites, "Prerequisite check failed: "),
        (Stage::Sync, "Repository sync failed: "),
        (Stage::Config, "Build config invalid: "),
        (Stage::Values, "Value resolution failed: "),
        (Stage::Files, "Build file generation failed: "),
        (Stage::Packer, "Packer error: "),
        (Stage::Xva, "XVA not found: "),
    ] {
        let s = reported(vec![XoaEvent::StageFailed { stage, message: "why".to_string() }]);
        assert_eq!(s.detail, format!("{}why", start));
        assert!(s.status == WorkflowStatus::Failure);
        assert!(s.components.is_empty());
    }
    for (phase, name) in [
        (Phase::ValidatePrerequisites, "phase_3_validate_prerequisites"),
        (Phase::SyncRepo, "phase_4_sync_repo"),
        (Phase::ResolveValues, "phase_5_resolve_values"),
        (Phase::GenerateFiles, "phase_6_generate_files"),
        (Phase::RunPacker, "phase_7_run_packer"),
        (Phase::LocateXva, "phase_8_locate_xva"),
        (Phase::UploadAsset, "phase_9_upload_asset"),
        (Phase::PersistState, "phase_10_persist_state"),
    ] {
        assert_eq!(reported(vec![XoaEvent::Entered { phase }]).phase, name);
    }
    assert_eq!(
        reported(vec![XoaEvent::Entered { phase: Phase::RunPacker }]).detail,
        "Running packer validate + build"
    );
    let s = reported(vec![XoaEvent::ReleaseFailed { message: "no".to_string() }]);
    assert_eq!(s.detail, "Release creation failed: no");
    assert!(s.component("xoa-image").unwrap().status == WorkflowStatus::Failure);
    let s = reported(vec![
        XoaEvent::Uploading { url: "https://i".to_string() },
        XoaEvent::UploadFailed { message: "no".to_string(), url: "https://i".to_string() },
    ]);
    assert_eq!(s.detail, "Asset upload failed: no");
    assert_eq!(s.component("xoa-image").unwrap().url, "https://i");
    let mut s = reported(vec![XoaEvent::Uploaded { url: "https://i".to_string() }]);
    assert!(s.component("xoa-image").unwrap().status == WorkflowStatus::Success);
    xoa_agent::report_finished(&mut s, "xoa-image-1", "/out/x.xva");
    assert_eq!(s.phase, "phase_11_finalize");
    assert!(s.status == WorkflowStatus::Success);
    assert_eq!(s.detail, "Build complete. Tag: xoa-image-1. XVA: /out/x.xva");
}

fn down() -> Result<String, OrchestratorError> {
    Err(OrchestratorError::Timeout("x".to_string()))
}

#[test]
fn workflows_are_waited_for() {
    assert_eq!(
        xoa_agent::workflow_url(),
        "https://api.github.com/repos/Vagrantin/xoa-hl/actions/workflows/build-xoa.yml/dispatches"
    );
    let mut wait = WorkflowWait::new("https://w", 3600);
    assert_eq!(wait.next_look(3_600_000_000_000), Ok(30));
    assert_eq!(
        wait.next_look(3_600_000_000_001),
        Err("Timed out after 3600s waiting for xoa-hl workflow (https://w)".to_string())
    );
    assert!(matches!(wait.polled(Ok("In Progress".to_string())), WaitStep::Continue));
    for _ in 0..4 {
        assert!(matches!(wait.polled(down()), WaitStep::Continue));
    }
    assert!(matches!(wait.polled(Ok("In Progress".to_string())), WaitStep::Continue));
    assert_eq!(wait.poll_failures, 0);
    assert!(matches!(wait.polled(Ok("success".to_string())), WaitStep::Succeeded));
    assert!(matches!(wait.polled(Ok("Success".to_string())), WaitStep::Succeeded));
    assert!(matches!(
        wait.polled(Ok("failure".to_string())),
        WaitStep::Failed { message, cause: None }
            if message == "xoa-hl workflow ended with 'failure' (https://w)"
    ));
    for _ in 0..4 {
        assert!(matches!(wait.polled(down()), WaitStep::Continue));
    }
    assert!(matches!(
        wait.polled(down()),
        WaitStep::Failed { message, cause: Some(OrchestratorError::Timeout(m)) }
            if message == "Failed to query workflow conclusion" && m == "x"
    ));
}

#[test]
fn durations_are_written_in_seconds() {
    for secs in [0u64, 1, 60, 3600, u64::MAX] {
        assert_eq!(
            WorkflowWait::new("https://w", secs).next_look(u128::MAX),
            Err(format!(
                "Timed out after {:?} waiting for xoa-hl workflow (https://w)",
                std::time::Duration::from_secs(secs)
            ))
        );
    }
    assert_eq!(
        WorkflowWait::new("https://w", 0).next_look(1),
        Err("Timed out after 0ns waiting for xoa-hl workflow (https://w)".to_string())
    );
    assert_eq!(WorkflowWait::new("https://w", 0).next_look(0), Ok(30));
}

#[test]
fn prerequisites_are_checked() {
    assert_eq!(xoa_agent::check_packer_version(true, b"noise"), Ok(()));
    assert_eq!(
        xoa_agent::check_packer_version(false, b"bad \xff"),
        Err("Packer version check failed: bad \u{fffd}".to_string())
    );
    assert_eq!(xoa_agent::check_plugins(b"github.com/ddelnano/xenserver v1\n"), Ok(()));
    assert_eq!(
        xoa_agent::check_plugins(b""),
        Err("XCP-ng Packer plugin not installed.\nRun: packer plugins install github.com/ddelnano/xenserver".to_string())
    );
    assert!(xoa_agent::check_plugin_list("xen server").is_err());
}

fn df(available: &str) -> Vec<u8> {
    format!(
        "Filesystem 1K-blocks Used Available Use% Mounted on\n/dev/sda1 1000 10 {} 1% /\n",
        available
    )
    .into_bytes()
}

#[test]
fn disk_space_is_checked() {
    assert_eq!(xoa_agent::check_disk(&df("104857600")), Some(Ok(())));
    assert_eq!(
        xoa_agent::check_disk(&df("104857599")),
        Some(Err("Insufficient disk space \u{2014} required 100GB, have 99GB".to_string()))
    );
    assert_eq!(
        xoa_agent::check_disk(&df("-")),
        Some(Err("Insufficient disk space \u{2014} required 100GB, have 0GB".to_string()))
    );
    // What df does not say is not held against the machine.
    assert_eq!(xoa_agent::check_disk(b""), Some(Ok(())));
    assert_eq!(xoa_agent::check_disk(b"one line"), Some(Ok(())));
    assert_eq!(xoa_agent::check_disk(b"head\na b c\n"), Some(Ok(())));
    assert_eq!(xoa_agent::check_disk(&df("18446744073709551615")), None);
    assert_eq!(xoa_agent::check_disk(&df("18014398509481983")), Some(Ok(())));
    assert!(xoa_agent::check_disk_report("h\na b c 5\n").is_err());
}

#[test]
fn ports_are_checked() {
    assert_eq!(
        xoa_agent::required_ports(),
        vec![8000, 8001, 8002, 8003, 8004, 8005, 8006, 8007, 8008, 8009, 9000]
    );
    assert_eq!(xoa_agent::check_ports(&vec![]), Ok(()));
    assert_eq!(
        xoa_agent::check_ports(&vec![8000, 9000]),
        Err("Required ports already in use: [8000, 9000]\nPacker needs these free for its kickstart HTTP server.".to_string())
    );
}

#[test]
fn scripts_are_brought_up_to_date() {
    assert_eq!(GitStep::first(false), GitStep::Clone);
    assert_eq!(GitStep::Clone.next(true, Some(0)), Ok(None));
    assert_eq!(GitStep::first(true), GitStep::Fetch);
    assert_eq!(GitStep::Fetch.next(true, Some(0)), Ok(Some(GitStep::Reset)));
    assert_eq!(GitStep::Reset.next(true, Some(0)), Ok(None));
    for step in [GitStep::Clone, GitStep::Fetch, GitStep::Reset] {
        let ended = step.next(false, Some(1));
        assert_eq!(ended, Err(format!("git {} exited with Some(1)", step.command())));
    }
    assert_eq!(
        GitStep::Clone.args(),
        vec![
            "clone",
            "https://github.com/Vagrantin/build-xoa-hl",
            "/var/lib/xcp-hl-orchestrator/repos/build-xoa-hl"
        ]
    );
    assert_eq!(GitStep::Fetch.args(), vec!["fetch"]);
    assert_eq!(GitStep::Reset.args(), vec!["reset", "--hard", "origin/main"]);
    assert!(!GitStep::Clone.runs_in_repo());
    assert!(GitStep::Reset.runs_in_repo());
    assert_eq!(GitStep::Fetch.not_run(), "git fetch failed");
    assert_eq!(GitStep::Clone.result(true, Some(0)), Ok(()));
    assert_eq!(
        GitStep::Clone.result(false, Some(128)),
        Err(format!("git clone exited with {:?}", Some(128)))
    );
    assert_eq!(
        GitStep::Reset.result(false, Some(-1)),
        Err("git reset exited with Some(-1)".to_string())
    );
    assert_eq!(
        GitStep::Fetch.result(false, None),
        Err("git fetch exited with None".to_string())
    );
    assert_eq!(xoa_agent::build_scripts().len(), 4);
    assert_eq!(xoa_agent::build_scripts()[3], "systemd/xoa-credentials.service");
}

#[test]
fn passwords_are_trimmed() {
    let mut config = BuildConfig::default();
    xoa_agent::set_passwords(&mut config, " pw\n", "root\n");
    assert_eq!(config.xcpng_password, "pw");
    assert_eq!(config.almalinux_root_password, "root");
}

#[test]
fn checksums_are_found() {
    let iso = "AlmaLinux-9-latest-x86_64-minimal.iso";
    let hash = "0123456789abcdefABCDEF0123456789abcdef0123456789abcdef0123456789";
    assert_eq!(hash.len(), 64);
    let bsd = format!("# {}: 1 bytes\nSHA256 (other.iso) = {}\nSHA256 ({}) = {}\n", iso, "f".repeat(64), iso, hash);
    assert_eq!(
        xoa_agent::checksum_from_list(ListStyle::Bsd, &bsd),
        Some(format!("sha256:{}", hash))
    );
    let gnu = format!("{}  other.iso\n{}  {}\n", "f".repeat(64), hash, iso);
    assert_eq!(
        xoa_agent::checksum_from_list(ListStyle::Gnu, &gnu),
        Some(format!("sha256:{}", hash))
    );
    assert_eq!(xoa_agent::checksum_from_list(ListStyle::Bsd, &gnu), None);
    assert_eq!(xoa_agent::checksum_from_list(ListStyle::Gnu, &bsd), None);
    let short = format!("SHA256 ({}) = {}\n", iso, &hash[1..]);
    assert_eq!(xoa_agent::checksum_from_list(ListStyle::Bsd, &short), None);
    let not_hex = format!("SHA256 ({}) = {}\n", iso, "g".repeat(64));
    assert_eq!(xoa_agent::checksum_from_list(ListStyle::Bsd, &not_hex), None);

    let found = Ok(format!("sha256:{}", hash));
    assert_eq!(xoa_agent::resolve_checksum(&Some(bsd.clone()), &None), found);
    assert_eq!(xoa_agent::resolve_checksum(&Some(short), &Some(gnu.clone())), found);
    assert_eq!(xoa_agent::resolve_checksum(&None, &Some(gnu)), found);
    assert_eq!(
        xoa_agent::resolve_checksum(&None, &Some(bsd)),
        Err("Could not resolve AlmaLinux ISO checksum from official sources".to_string())
    );
}

#[test]
fn the_newest_package_is_found() {
    assert_eq!(
        xoa_agent::resolve_rpm_url(&vec![
            release("xoa-image-1", &["xoa.xva.gz"]),
            release("v2", &["notes.txt", "b.rpm", "c.rpm"]),
            release("v1", &["a.rpm"]),
        ]),
        Ok("https://d/b.rpm".to_string())
    );
    assert_eq!(
        xoa_agent::resolve_rpm_url(&vec![release("v1", &["a.rpm.sig"]), release("v0", &[])]),
        Err("No RPM asset found in recent xoa-hl releases".to_string())
    );
    assert!(xoa_agent::resolve_rpm_url(&vec![]).is_err());
}

#[test]
fn packer_is_watched() {
    let exited = |success, code| PackerEvent::Exited { success, code };
    let mut watch = PackerWatch::Building;
    assert_eq!(watch.patience(), 3600);
    assert!(matches!(watch.step(exited(true, Some(0))), PackerAction::Succeed));
    assert!(matches!(
        watch.step(exited(false, Some(1))),
        PackerAction::Fail(m) if m == "Packer build failed (exit code: Some(1))"
    ));
    assert!(matches!(
        watch.step(PackerEvent::WaitFailed { message: "io".to_string() }),
        PackerAction::Fail(m) if m == "Packer process error: io"
    ));
    assert!(matches!(watch.step(PackerEvent::TimedOut), PackerAction::Terminate));
    assert_eq!(watch, PackerWatch::Terminating);
    assert_eq!(watch.patience(), 30);
    assert!(matches!(
        watch.step(exited(true, Some(0))),
        PackerAction::Fail(m) if m == "Packer build timed out after 3600s"
    ));
    assert!(matches!(
        watch.step(PackerEvent::TimedOut),
        PackerAction::KillAndFail(m) if m == "Packer build timed out after 3600s"
    ));
    assert_eq!(xoa_agent::check_packer_template(true, b""), Ok(()));
    assert_eq!(xoa_agent::after_validate(true, b"ignored"), Ok(PackerWatch::Building));
    assert_eq!(
        xoa_agent::after_validate(false, b"bad json"),
        Err("Packer validate failed:\nbad json".to_string())
    );
    assert_eq!(
        xoa_agent::check_packer_template(false, b"bad json"),
        Err("Packer validate failed:\nbad json".to_string())
    );
}

#[test]
fn the_newest_image_is_published() {
    let t = |secs, nanos| Some(Timestamp { secs, nanos });
    assert_eq!(xoa_agent::newest_xva(&vec![t(5, 0)]), Ok(0));
    assert_eq!(xoa_agent::newest_xva(&vec![t(5, 0), t(6, 0), t(5, 9)]), Ok(1));
    // Of two that are equally new, the first counts.
    assert_eq!(xoa_agent::newest_xva(&vec![None, t(6, 1), t(6, 1), t(6, 0)]), Ok(1));
    assert_eq!(xoa_agent::newest_xva(&vec![None, None]), Ok(0));
    assert_eq!(
        xoa_agent::newest_xva(&vec![]),
        Err("No .xva or .xva.gz file found in /var/lib/xcp-hl-orchestrator/output/xoa-hl".to_string())
    );
}

#[test]
fn releases_are_made() {
    assert_eq!(
        xoa_agent::release_by_tag_url("t"),
        "https://api.github.com/repos/Vagrantin/xoa-hl/releases/tags/t"
    );
    assert_eq!(
        xoa_agent::new_release_url(),
        "https://api.github.com/repos/Vagrantin/xoa-hl/releases"
    );
    assert_eq!(xoa_agent::image_name("t"), "XOA HomeLab Edition - t");
    let request = xoa_agent::release_request("t", "n", "abc");
    assert_eq!(request.tag_name, "t");
    assert_eq!(request.name, "n");
    assert_eq!(request.target_commitish, "abc");
    assert_eq!(request.body, "XOA HomeLab Edition VM image\nSource commit: abc");
    assert!(!request.draft && !request.prerelease);
    let (upload, page) = xoa_agent::release_urls(&ReleaseReply {
        upload_url: "https://uploads/1/assets{?name,label}".to_string(),
        html_url: "https://page".to_string(),
    });
    assert_eq!((upload.as_str(), page.as_str()), ("https://uploads/1/assets", "https://page"));
    assert_eq!(xoa_agent::asset_url(&upload, "x.xva"), "https://uploads/1/assets?name=x.xva");
    assert_eq!(xoa_agent::check_release_reply(201, ""), Ok(()));
    assert_eq!(
        xoa_agent::check_release_reply(422, "exists"),
        Err("GitHub Release creation failed (422 Unprocessable Entity): exists".to_string())
    );
    assert_eq!(
        xoa_agent::check_upload_reply(500, "x"),
        Err("GitHub asset upload failed (500 Internal Server Error): x".to_string())
    );
}

#[test]
fn an_unchanged_commit_ends_the_run() {
    let mut state = XoaHlVersionState::default();
    let mut status = AgentStatus::new("phase_1_check_rebuild", WorkflowStatus::InProgress);
    assert!(!xoa_agent::conclude_unchanged(&state, SHA, &mut status));
    assert!(status.status == WorkflowStatus::InProgress);
    state.record(SHA, &image_tag("20260713", SHA));
    assert!(xoa_agent::conclude_unchanged(&state, SHA, &mut status));
    assert!(status.status == WorkflowStatus::Skipped);
    assert_eq!(status.detail, "No changes (SHA: cb65556)");
}

#[test]
fn a_published_image_ends_the_run() {
    let mut state = XoaHlVersionState::default();
    let mut status = AgentStatus::new("phase_1_check_rebuild", WorkflowStatus::InProgress);
    let package = release("v5.113.2_e281c536", &["xoa.rpm"]);
    let releases = vec![package];
    let found = xoa_agent::conclude_published(&mut state, &releases, SHA, &mut status);
    assert!(matches!(found, Published::Package { .. }));
    assert!(status.status == WorkflowStatus::InProgress);
    assert_eq!(state.last_tag, "");
    let releases = vec![release("xoa-image-20260713-cb65556", &["xoa.xva.gz"])];
    let found = xoa_agent::conclude_published(&mut state, &releases, SHA, &mut status);
    assert!(matches!(found, Published::Image { .. }));
    assert!(status.status == WorkflowStatus::Skipped);
    assert_eq!(
        status.detail,
        "Image xoa-image-20260713-cb65556 already published (SHA: cb65556)"
    );
    let image = status.component("xoa-image").unwrap();
    assert!(image.status == WorkflowStatus::Success);
    assert_eq!(image.url, "https://r/xoa-image-20260713-cb65556");
    assert!(state.is_up_to_date(SHA));
}

#[test]
fn a_release_that_is_there_is_used_again() {
    let reply = || {
        Some(ReleaseReply {
            upload_url: "https://u/assets{?name,label}".to_string(),
            html_url: "https://h".to_string(),
        })
    };
    assert_eq!(
        xoa_agent::reusable_release(200, &reply()),
        Some(("https://u/assets".to_string(), "https://h".to_string()))
    );
    assert_eq!(xoa_agent::reusable_release(404, &reply()), None);
    assert_eq!(xoa_agent::reusable_release(200, &None), None);
}

fn good(check: Prerequisite) -> Finding {
    match check {
        Prerequisite::PackerVersion => Finding::PackerVersion { success: true, stderr: vec![] },
        Prerequisite::Plugin => Finding::Plugin { stdout: b"packer-plugin-xenserver".to_vec() },
        Prerequisite::DiskSpace => Finding::DiskSpace { stdout: b"h\na b c 104857600\n".to_vec() },
        Prerequisite::Ports => Finding::Ports { blocked: vec![] },
    }
}

fn bad(check: Prerequisite) -> (Finding, &'static str) {
    match check {
        Prerequisite::PackerVersion => (
            Finding::PackerVersion { success: false, stderr: b"old".to_vec() },
            "Packer version check failed: old",
        ),
        Prerequisite::Plugin => (
            Finding::Plugin { stdout: b"none".to_vec() },
            "XCP-ng Packer plugin not installed.\nRun: packer plugins install github.com/ddelnano/xenserver",
        ),
        Prerequisite::DiskSpace => (
            Finding::DiskSpace { stdout: b"h\na b c 0\n".to_vec() },
            "Insufficient disk space \u{2014} required 100GB, have 0GB",
        ),
        Prerequisite::Ports => (
            Finding::Ports { blocked: vec![8000] },
            "Required ports already in use: [8000]\nPacker needs these free for its kickstart HTTP server.",
        ),
    }
}

const CHECKS: [Prerequisite; 4] = [
    Prerequisite::PackerVersion,
    Prerequisite::Plugin,
    Prerequisite::DiskSpace,
    Prerequisite::Ports,
];

#[test]
fn all_prerequisites_have_to_hold() {
    let mut readiness = Readiness::start();
    for expected in CHECKS {
        assert!(matches!(readiness, Readiness::Check(check) if check == expected));
        readiness = readiness.after(good(expected));
    }
    assert!(matches!(readiness, Readiness::Ready));
    // The first check that fails ends them.
    for failing in CHECKS {
        let mut readiness = Readiness::start();
        for check in CHECKS {
            let finding = if check == failing { bad(check).0 } else { good(check) };
            readiness = readiness.after(finding);
        }
        assert!(matches!(readiness, Readiness::NotReady(m) if m == bad(failing).1));
    }
    // What was not asked for does not count.
    let early = Readiness::start().after(good(Prerequisite::Ports));
    assert!(matches!(early, Readiness::Check(Prerequisite::PackerVersion)));
    let uncountable = Finding::DiskSpace { stdout: b"h\na b c 18446744073709551615\n".to_vec() };
    let readiness = Readiness::Check(Prerequisite::DiskSpace).after(uncountable);
    assert!(matches!(readiness, Readiness::Uncountable));
}
