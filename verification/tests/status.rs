use xcp_orchestrator::clock::Timestamp;
use xcp_orchestrator::error::{IoError, IoKind, OrchestratorError};
use xcp_orchestrator::status::{
    get_badge_class, AgentStatus, ComponentStatus, PipelineStatus, WorkflowStatus,
};

fn agent(status: WorkflowStatus) -> AgentStatus {
    AgentStatus::new("phase", status)
}

#[test]
fn new_status_is_of_now_and_empty() {
    let before = chrono::Utc::now().timestamp();
    let status = AgentStatus::new("initialization", WorkflowStatus::InProgress);
    let after = chrono::Utc::now().timestamp();
    assert_eq!(status.phase, "initialization");
    assert!(status.status == WorkflowStatus::InProgress);
    assert!(status.url.is_empty() && status.detail.is_empty() && status.components.is_empty());
    assert!(before <= status.timestamp.secs && status.timestamp.secs <= after);
    assert!(status.timestamp.is_in_calendar());
}

#[test]
fn components_are_set_and_found_by_name() {
    let mut status = agent(WorkflowStatus::InProgress);
    status.set_component("xolite-ce", WorkflowStatus::InProgress, "https://a");
    status.set_component("xoa-proxy", WorkflowStatus::Skipped, "");
    // An empty URL keeps the one that is recorded.
    status.set_component("xolite-ce", WorkflowStatus::Success, "");
    assert_eq!(status.components.len(), 2);
    let found = status.component("xolite-ce").unwrap();
    assert!(found.status == WorkflowStatus::Success);
    assert_eq!(found.url, "https://a");
    assert_eq!(status.component("xoa-proxy").unwrap().url, "");
    assert!(status.component("iso").is_none());
    status.set_component("xolite-ce", WorkflowStatus::Failure, "https://b");
    assert_eq!(status.component("xolite-ce").unwrap().url, "https://b");
    assert!(status.component("xoa-proxy").unwrap().status == WorkflowStatus::Skipped);
}

#[test]
fn overall_status_follows_the_worst_agent() {
    let all = || {
        vec![
            WorkflowStatus::Failure,
            WorkflowStatus::InProgress,
            WorkflowStatus::Timeout,
            WorkflowStatus::Aborted,
        ]
    };
    for (i, a) in all().into_iter().enumerate() {
        for (j, b) in all().into_iter().enumerate() {
            let mut pipeline = PipelineStatus::new();
            pipeline.iso_agent = Some(agent(a.clone()));
            pipeline.xoa_vm_agent = Some(agent(b));
            pipeline.update_overall();
            assert!(pipeline.overall == all()[i.min(j)].clone());
        }
    }
}

#[test]
fn overall_success_takes_two() {
    let mut pipeline = PipelineStatus::new();
    assert!(pipeline.overall == WorkflowStatus::Skipped);
    pipeline.update_overall();
    assert!(pipeline.overall == WorkflowStatus::Skipped);
    pipeline.iso_agent = Some(agent(WorkflowStatus::Success));
    pipeline.update_overall();
    assert!(pipeline.overall == WorkflowStatus::Skipped);
    pipeline.xoa_vm_agent = Some(agent(WorkflowStatus::Success));
    pipeline.update_overall();
    assert!(pipeline.overall == WorkflowStatus::Success);
    pipeline.xoa_vm_agent = Some(agent(WorkflowStatus::Unknown("odd".to_string())));
    pipeline.update_overall();
    assert!(pipeline.overall == WorkflowStatus::Skipped);
}

#[test]
fn statuses_have_labels_and_badges() {
    let table = [
        (WorkflowStatus::Skipped, "Skipped", "progress"),
        (WorkflowStatus::InProgress, "In Progress", "progress"),
        (WorkflowStatus::Success, "Success", "success"),
        (WorkflowStatus::Failure, "Failure", "failure"),
        (WorkflowStatus::Timeout, "Timeout", "failure"),
        (WorkflowStatus::Aborted, "Aborted", "failure"),
        (WorkflowStatus::Unknown("odd".to_string()), "odd", "progress"),
    ];
    for (status, label, badge) in table {
        assert_eq!(status.label(), label);
        assert_eq!(get_badge_class(&status), badge);
        assert!(status.clone() == status);
    }
    assert!(WorkflowStatus::Unknown("a".to_string()) != WorkflowStatus::Unknown("b".to_string()));
    assert!(WorkflowStatus::Success != WorkflowStatus::Failure);
    assert!(WorkflowStatus::default() == WorkflowStatus::Skipped);
}

#[test]
fn defaults_and_copies() {
    let blank = AgentStatus::default();
    assert_eq!(blank.timestamp, Timestamp { secs: 0, nanos: 0 });
    assert!(blank.status == WorkflowStatus::Skipped);
    let component = ComponentStatus::default();
    assert!(component.name.is_empty() && component.url.is_empty());
    let mut status = agent(WorkflowStatus::Failure);
    status.set_component("iso", WorkflowStatus::Failure, "https://c");
    let copy = status.clone();
    assert_eq!(copy.phase, "phase");
    assert_eq!(copy.component("iso").unwrap().url, "https://c");
    assert_eq!(copy.timestamp, status.timestamp);
}

#[test]
fn moments_are_ordered_and_bounded() {
    let t = |secs, nanos| Timestamp { secs, nanos };
    assert!(t(5, 0).not_before(&t(4, 999)));
    assert!(t(5, 7).not_before(&t(5, 7)));
    assert!(!t(5, 6).not_before(&t(5, 7)));
    assert!(t(0, 999_999_999).is_in_calendar());
    assert!(!t(0, 1_000_000_000).is_in_calendar());
    assert!(t(59, 1_999_999_999).is_in_calendar());
    assert!(!t(i64::MAX, 0).is_in_calendar());
    assert!(chrono::DateTime::from_timestamp(8210266876799, 0).is_some());
    assert!(chrono::DateTime::from_timestamp(8210266876800, 0).is_none());
    assert!(chrono::DateTime::from_timestamp(-8334601228800, 0).is_some());
    assert!(chrono::DateTime::from_timestamp(-8334601228801, 0).is_none());
}

#[test]
fn going_back_agrees_with_chrono() {
    for (secs, nanos) in [(100i64, 5u32), (59, 1_500_000_000), (-1, 0), (-1, 1_000_000_000)] {
        let moment = chrono::DateTime::from_timestamp(secs, nanos).unwrap();
        let earlier = moment - std::time::Duration::from_secs(5);
        let back = Timestamp { secs, nanos }.back_by(5);
        assert_eq!(back.secs, earlier.timestamp());
        assert_eq!(back.nanos, earlier.timestamp_subsec_nanos());
    }
}

#[test]
fn errors_have_messages() {
    let m = || "why".to_string();
    let table = [
        (OrchestratorError::GitHubApi("what".to_string(), m()), "GitHub API error (what): why"),
        (
            OrchestratorError::Io(IoError { kind: IoKind::NotFound, message: m() }),
            "IO error: why",
        ),
        (OrchestratorError::Json(m()), "JSON serialization error"),
        (OrchestratorError::Base64Decode(m()), "Base64 decode error: why"),
        (OrchestratorError::Utf8(m()), "UTF-8 error: why"),
        (OrchestratorError::FromUtf8(m()), "FromUTF8 error: why"),
        (OrchestratorError::Timeout(m()), "Timeout waiting for why"),
        (OrchestratorError::TagCreation(m()), "Tag creation failed: why"),
        (OrchestratorError::WorkflowRunNotFound(m()), "Workflow run not found: why"),
        (OrchestratorError::OllamaError(m()), "Ollama error: why"),
        (OrchestratorError::VersionFormat(m()), "Invalid version format: why"),
        (OrchestratorError::HeaderValueError(m()), "Header value error: why"),
        (OrchestratorError::InvalidArgument(m()), "Invalid argument: why"),
    ];
    for (error, message) in table {
        assert_eq!(error.message(), message);
    }
}

#[test]
fn details_leave_the_kind_of_error_out() {
    let detail = |e: OrchestratorError| e.detail();
    assert_eq!(detail(OrchestratorError::GitHubApi("ctx".to_string(), "body".to_string())), "body");
    assert_eq!(detail(OrchestratorError::Json("eof".to_string())), "eof");
    let io = IoError { kind: IoKind::Other("TimedOut".to_string()), message: "slow".to_string() };
    assert_eq!(detail(OrchestratorError::Io(io)), "slow");
    assert_eq!(detail(OrchestratorError::VersionFormat("no version".to_string())), "no version");
    assert_eq!(detail(OrchestratorError::WorkflowRunNotFound("late".to_string())), "late");
}
