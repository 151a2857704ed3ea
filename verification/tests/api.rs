use axum::http::{HeaderMap, HeaderValue};
use xcp_orchestrator::api::{
    answer, bearer_matches, is_authorized, plan_for, plan_trigger, unit_for_agent, StartOutcome,
    TriggerPlan,
};
use xcp_orchestrator::credentials::{load_credential, load_github_token, CredentialSource};
use xcp_orchestrator::error::{IoKind, OrchestratorError};

#[test]
fn authorized_only_with_matching_bearer_token() {
    let mut headers = HeaderMap::new();
    headers.insert(
        axum::http::header::AUTHORIZATION,
        HeaderValue::from_static("Bearer secret123"),
    );
    assert!(is_authorized(&headers, "secret123"));
    assert!(!is_authorized(&headers, "other"));
}

#[test]
fn missing_header_is_unauthorized() {
    assert!(!is_authorized(&HeaderMap::new(), "secret123"));
}

#[test]
fn allowed_agents_map_to_their_actual_systemd_units() {
    assert_eq!(unit_for_agent("orchestrator"), Some("xcp-orchestrator.service"));
    assert_eq!(unit_for_agent("iso-agent"), Some("iso-agent.service"));
    assert_eq!(unit_for_agent("xoa-vm-agent"), Some("xoa-vm-agent.service"));
    assert_eq!(unit_for_agent("something-else"), None);
}

fn headers(value: &[u8]) -> HeaderMap {
    let mut headers = HeaderMap::new();
    headers.insert(
        axum::http::header::AUTHORIZATION,
        HeaderValue::from_bytes(value).unwrap(),
    );
    headers
}

#[test]
fn tokens_have_to_match_to_the_letter() {
    assert!(!is_authorized(&headers(b"bearer secret123"), "secret123"));
    assert!(!is_authorized(&headers(b"Bearer  secret123"), "secret123"));
    assert!(!is_authorized(&headers(b"Bearer secret123 "), "secret123"));
    assert!(!is_authorized(&headers(b"Bearer"), ""));
    assert!(is_authorized(&headers(b"Bearer "), ""));
    assert!(is_authorized(&headers(b"Bearer a\tb"), "a\tb"));
    // A value that is not visible ASCII never matches, even byte for byte.
    assert!(!is_authorized(&headers("Bearer \u{e9}".as_bytes()), "\u{e9}"));
    assert!(!is_authorized(&headers(b"Bearer \xff"), "\u{ff}"));
}

#[test]
fn the_first_of_several_headers_counts() {
    let mut several = headers(b"Bearer first");
    several.append(
        axum::http::header::AUTHORIZATION,
        HeaderValue::from_static("Bearer second"),
    );
    assert!(is_authorized(&several, "first"));
    assert!(!is_authorized(&several, "second"));
}

#[test]
fn bearer_text_matches() {
    assert!(bearer_matches(&Some("Bearer t".to_string()), "t"));
    assert!(!bearer_matches(&Some("Basic t".to_string()), "t"));
    assert!(!bearer_matches(&None, "t"));
}

#[test]
fn requests_without_the_token_are_refused() {
    match plan_trigger(&HeaderMap::new(), "secret123", "iso-agent") {
        TriggerPlan::Refuse { status, response } => {
            assert_eq!(status, 401);
            assert_eq!(response.agent, "iso-agent");
            assert!(!response.started);
            assert_eq!(response.detail, "missing or invalid bearer token");
        }
        TriggerPlan::Start { unit } => panic!("started {}", unit),
    }
}

#[test]
fn unknown_agents_are_refused() {
    match plan_for(true, "ssh") {
        TriggerPlan::Refuse { status, response } => {
            assert_eq!(status, 400);
            assert!(!response.started);
            assert_eq!(response.detail, "unknown agent 'ssh'");
        }
        TriggerPlan::Start { unit } => panic!("started {}", unit),
    }
}

#[test]
fn listed_agents_are_started() {
    match plan_trigger(&headers(b"Bearer t"), "t", "orchestrator") {
        TriggerPlan::Start { unit } => assert_eq!(unit, "xcp-orchestrator.service"),
        TriggerPlan::Refuse { status, .. } => panic!("refused with {}", status),
    }
}

#[test]
fn answers_tell_how_the_start_went() {
    let unit = "iso-agent.service";
    let (status, response) = answer(
        "iso-agent",
        unit,
        StartOutcome::Ran { success: true, stderr: b"noise".to_vec() },
    );
    assert_eq!((status, response.started), (200, true));
    assert_eq!(response.agent, "iso-agent");
    assert_eq!(response.detail, "iso-agent.service started");

    let (status, response) = answer(
        "iso-agent",
        unit,
        StartOutcome::Ran { success: false, stderr: b" bad \xff unit\n".to_vec() },
    );
    assert_eq!((status, response.started), (500, false));
    assert_eq!(response.detail, "bad \u{fffd} unit");

    let (status, response) =
        answer("iso-agent", unit, StartOutcome::NotRun { message: "no such file".to_string() });
    assert_eq!((status, response.started), (500, false));
    assert_eq!(response.detail, "no such file");
}

#[test]
fn credentials_are_trimmed_and_not_empty() {
    assert_eq!(
        load_github_token(CredentialSource::Content("  ghp_x\n".to_string())).unwrap(),
        "ghp_x"
    );
    assert_eq!(
        load_github_token(CredentialSource::Content(" \n".to_string())).unwrap_err().message(),
        "IO error: GITHUB_TOKEN credential file is empty"
    );
    assert_eq!(
        load_credential("TRIGGER_TOKEN", CredentialSource::NoDirectory).unwrap_err().message(),
        "IO error: CREDENTIALS_DIRECTORY is not set \u{2014} configure systemd LoadCredential="
    );
    assert_eq!(
        load_credential(
            "TRIGGER_TOKEN",
            CredentialSource::Unreadable {
                kind: IoKind::Other("PermissionDenied".to_string()),
                path: "\"/run/x\"".to_string(),
                message: "denied".to_string(),
            },
        )
        .unwrap_err()
        .message(),
        "IO error: Failed to read TRIGGER_TOKEN from \"/run/x\": denied"
    );
}

fn kind_of(r: Result<String, OrchestratorError>) -> IoKind {
    match r {
        Err(OrchestratorError::Io(e)) => e.kind,
        other => panic!("no input or output error: {:?}", other),
    }
}

#[test]
fn credential_errors_tell_their_kind() {
    assert!(matches!(kind_of(load_github_token(CredentialSource::NoDirectory)), IoKind::NotFound));
    for blank in ["", " \n\t"] {
        let source = CredentialSource::Content(blank.to_string());
        assert!(matches!(kind_of(load_github_token(source)), IoKind::InvalidData));
    }
    for name in ["PermissionDenied", "TimedOut"] {
        let source = CredentialSource::Unreadable {
            kind: IoKind::Other(name.to_string()),
            path: "\"/run/x\"".to_string(),
            message: "no".to_string(),
        };
        assert!(matches!(kind_of(load_credential("X", source)), IoKind::Other(k) if k == name));
    }
    let source = CredentialSource::Unreadable {
        kind: IoKind::NotFound,
        path: "\"/run/x\"".to_string(),
        message: "no".to_string(),
    };
    assert!(matches!(kind_of(load_credential("X", source)), IoKind::NotFound));
}
