use bllvm_commons::build_monitor::BuildStatus;
use bllvm_commons::dependency::DependencyGraph;
use bllvm_commons::error::GovernanceError;
use bllvm_commons::pr_status::{
    can_merge, combined_state, get_tier_name, initial_status_message, parse_repo_name, requirement_state, resolution_line,
    review_period_line, veto_state,
};
use bllvm_commons::release::{
    asset_name, build_status_name, decide_release_event, dependency_failed_error, dispatch_event_type,
    first_failed_build, orchestration_reply, organization_from_repo, record_download, release_body, release_title,
    should_download, Artifact, ReleaseAction, ReleaseEvent,
};
use bllvm_commons::webhook::{classify_dispatch, route_webhook, DispatchKind, WebhookRoute};
use sha2::{Digest, Sha256};

fn artifact(name: &str, size: u64) -> Artifact {
    Artifact {
        name: name.to_string(),
        size,
        download_url: "https://example.com/a.zip".to_string(),
        content_type: "application/zip".to_string(),
        data: None,
        sha256: None,
        expires_at_ms: None,
    }
}

#[test]
fn test_artifact_creation() {
    let artifact = Artifact {
        name: "test-artifact.zip".to_string(),
        size: 1024,
        download_url: "https://example.com/artifact.zip".to_string(),
        content_type: "application/zip".to_string(),
        data: None,
        sha256: None,
        expires_at_ms: None,
    };
    assert_eq!(artifact.name, "test-artifact.zip");
    assert_eq!(artifact.size, 1024);
    assert_eq!(artifact.content_type, "application/zip");
    assert!(artifact.data.is_none());
    assert!(artifact.sha256.is_none());
}

#[test]
fn test_artifact_with_data() {
    let data = b"test artifact data".to_vec();
    let artifact = Artifact {
        name: "test.zip".to_string(),
        size: data.len() as u64,
        download_url: "https://example.com/test.zip".to_string(),
        content_type: "application/zip".to_string(),
        data: Some(data.clone()),
        sha256: Some("abc123".to_string()),
        expires_at_ms: None,
    };
    assert_eq!(artifact.data, Some(data));
    assert_eq!(artifact.sha256, Some("abc123".to_string()));
}

#[test]
fn test_artifact_with_expiration() {
    let now_ms = 1_700_000_000_000i64;
    let expires_at = now_ms + 24 * 3_600_000;
    let mut artifact = artifact("expiring.zip", 512);
    artifact.expires_at_ms = Some(expires_at);
    assert!(artifact.expires_at_ms.is_some());
    assert!(artifact.expires_at_ms.unwrap() > now_ms);
    assert!(should_download(&artifact, now_ms));
    assert!(!should_download(&artifact, expires_at + 1));
}

#[test]
fn downloads_are_hashed() {
    let mut a = artifact("x.zip", 3);
    record_download(&mut a, b"abc".to_vec());
    assert_eq!(a.data.as_deref(), Some(&b"abc"[..]));
    assert_eq!(a.sha256.unwrap(), hex::encode(Sha256::digest(b"abc")));
    let mut no_url = artifact("y", 1);
    no_url.download_url = String::new();
    assert!(!should_download(&no_url, 0));
}

#[test]
fn release_texts() {
    let arts = vec![("bllvm".to_string(), vec![artifact("a.tar.gz", 10), artifact("b.zip", 2048)])];
    assert_eq!(
        release_body("v1.0.0", &arts),
        "Bitcoin Commons Release v1.0.0\n\nThis release was orchestrated by bllvm-commons.\n\n## Artifacts\n\n### bllvm\n\n- a.tar.gz (10 bytes)\n- b.zip (2048 bytes)\n\n"
    );
    assert_eq!(release_title("v1"), "Bitcoin Commons v1");
    assert_eq!(asset_name("bllvm", "a.zip"), "bllvm-a.zip");
    assert_eq!(dispatch_event_type("bllvm-commons"), "build-request");
    assert_eq!(dispatch_event_type("bllvm-node"), "build-chain");
    assert_eq!(organization_from_repo("BTCDecoded/governance"), "BTCDecoded");
    assert_eq!(organization_from_repo("solo"), "solo");
    assert_eq!(build_status_name(BuildStatus::TimedOut), "TimedOut");
}

#[test]
fn release_event_decisions() {
    let ev = ReleaseEvent { action: Some("published".to_string()), release: Some((Some("v2".to_string()), None)) };
    match decide_release_event(&ev).unwrap() {
        ReleaseAction::Orchestrate { tag_name, prerelease } => {
            assert_eq!(tag_name, "v2");
            assert!(!prerelease);
        }
        _ => panic!("expected orchestration"),
    }
    let ev = ReleaseEvent { action: None, release: Some((Some("v2".to_string()), Some(true))) };
    match decide_release_event(&ev).unwrap() {
        ReleaseAction::Ignore { reason } => assert_eq!(reason, "Action unknown not handled"),
        _ => panic!("expected ignore"),
    }
    match decide_release_event(&ReleaseEvent { action: None, release: None }) {
        Err(GovernanceError::GitHubError(m)) => assert_eq!(m, "Missing release in payload"),
        _ => panic!("expected an error"),
    }
    match decide_release_event(&ReleaseEvent { action: None, release: Some((None, None)) }) {
        Err(GovernanceError::GitHubError(m)) => assert_eq!(m, "Missing tag_name in release"),
        _ => panic!("expected an error"),
    }
    assert_eq!(orchestration_reply("v2", &Ok(())), (true, "Build orchestration started for v2".to_string()));
    assert_eq!(orchestration_reply("v2", &Err("boom".to_string())), (false, "Failed to orchestrate builds: boom".to_string()));
}

#[test]
fn awaited_dependencies() {
    let graph = DependencyGraph::new("BTCDecoded".to_string());
    let group = vec!["bllvm-node".to_string(), "bllvm".to_string()];
    let triggered = vec![("bllvm-protocol".to_string(), 11u64), ("bllvm-consensus".to_string(), 10u64)];
    let completed = vec!["bllvm-consensus".to_string()];
    assert_eq!(graph.dependencies_to_await(&group, &triggered, &completed), vec![("bllvm-protocol".to_string(), 11u64)]);
    let both = vec!["bllvm-node".to_string(), "bllvm-node".to_string()];
    assert_eq!(graph.dependencies_to_await(&both, &triggered, &vec![]).len(), 2);
    match dependency_failed_error("bllvm-protocol", BuildStatus::Failure) {
        GovernanceError::BuildError(m) => assert_eq!(m, "Dependency bllvm-protocol failed with status: Failure"),
        _ => panic!("wrong kind"),
    }
    assert!(first_failed_build(&vec![("a".to_string(), BuildStatus::Success)]).is_ok());
    match first_failed_build(&vec![("a".to_string(), BuildStatus::Success), ("b".to_string(), BuildStatus::Cancelled), ("c".to_string(), BuildStatus::Failure)]) {
        Err(GovernanceError::BuildError(m)) => assert_eq!(m, "Build failed for b: Cancelled"),
        _ => panic!("expected an error"),
    }
}

#[test]
fn webhook_routes() {
    assert_eq!(route_webhook("pull_request", "opened", false), WebhookRoute::PullRequestUpdated);
    assert_eq!(route_webhook("pull_request", "synchronize", false), WebhookRoute::PullRequestUpdated);
    assert_eq!(route_webhook("pull_request", "closed", true), WebhookRoute::PullRequestClosed { merged: true });
    assert_eq!(route_webhook("pull_request", "labeled", false), WebhookRoute::PullRequestIgnored);
    assert_eq!(route_webhook("pull_request_review", "submitted", false), WebhookRoute::Review);
    assert_eq!(route_webhook("issue_comment", "created", false), WebhookRoute::Comment);
    assert_eq!(route_webhook("release", "published", false), WebhookRoute::Release);
    assert_eq!(route_webhook("repository_dispatch", "build-complete", false), WebhookRoute::RepositoryDispatch);
    assert_eq!(route_webhook("unknown", "unknown", false), WebhookRoute::Ignored);
    assert_eq!(classify_dispatch("build-complete", true).unwrap(), DispatchKind::BuildComplete);
    assert_eq!(classify_dispatch("build-request", true).unwrap(), DispatchKind::BuildRequest);
    assert_eq!(classify_dispatch("other", true).unwrap(), DispatchKind::Unknown);
    assert!(classify_dispatch("build-complete", false).is_err());
}

#[test]
fn pr_status_rules() {
    assert_eq!(get_tier_name(3), "Consensus-Adjacent");
    assert_eq!(get_tier_name(9), "Unknown");
    assert_eq!(parse_repo_name("BTCDecoded/bllvm").unwrap(), ("BTCDecoded".to_string(), "bllvm".to_string()));
    assert!(parse_repo_name("a/b/c").is_err());
    assert!(parse_repo_name("abc").is_err());
    assert_eq!(requirement_state("✅ done"), "success");
    assert_eq!(requirement_state("⏳ waiting"), "pending");
    assert_eq!(veto_state("⚠️ blocked"), "failure");
    assert_eq!(combined_state(true, true, false), "success");
    assert_eq!(combined_state(true, true, true), "failure");
    assert_eq!(
        initial_status_message(2, "Feature Changes"),
        "🔍 Governance: Analyzing PR\nTier 2: Feature Changes\nReview period and signature requirements will be checked..."
    );
    assert_eq!(review_period_line(3 * 86_400_000 + 1, false), "\nReview Period: 3 days remaining");
    assert_eq!(review_period_line(5 * 3_600_000, false), "\nReview Period: 5 hours remaining");
    assert_eq!(review_period_line(-1, true), "\nReview Period: Expired - Maintainer override active");
    assert_eq!(review_period_line(0, false), "\nReview Period: Expired - Override available");
    assert_eq!(resolution_line("consensus"), "\nResolution: consensus");
}

#[test]
fn merge_readiness_of_a_pull_request() {
    assert!(can_merge(Some(true), true, Some(false)));
    assert!(can_merge(Some(true), true, None));
    assert!(!can_merge(None, true, None));
    assert!(!can_merge(Some(false), true, None));
    assert!(!can_merge(Some(true), false, None));
    assert!(!can_merge(Some(true), true, Some(true)));
}
