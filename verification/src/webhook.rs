//! Routing of GitHub webhook deliveries: which handler an event goes to,
//! and what a repository dispatch notification means.
use vstd::prelude::*;
use crate::error::GovernanceError;
use crate::strings::str_eq;

verus! {

broadcast use vstd::string::group_string_axioms;

/// Where a webhook delivery goes.
#[derive(Debug, Clone, Copy, PartialEq, Eq, Structural)]
pub enum WebhookRoute {
    /// A pull request was opened, synchronized or reopened.
    PullRequestUpdated,
    /// A pull request was closed; `merged` says whether it was merged.
    PullRequestClosed { merged: bool },
    /// A pull request action that is not handled.
    PullRequestIgnored,
    /// A pull request review.
    Review,
    /// An issue comment.
    Comment,
    /// A release.
    Release,
    /// A repository dispatch.
    RepositoryDispatch,
    /// Any other event type.
    Ignored,
}

/// The route for an event type and action; a pull request close also
/// carries whether the pull request was merged.
pub open spec fn route_spec(event_type: Seq<char>, action: Seq<char>, merged: bool) -> WebhookRoute {
    if event_type == "pull_request"@ {
        if action == "opened"@ || action == "synchronize"@ || action == "reopened"@ {
            WebhookRoute::PullRequestUpdated
        } else if action == "closed"@ {
            WebhookRoute::PullRequestClosed { merged }
        } else {
            WebhookRoute::PullRequestIgnored
        }
    } else if event_type == "pull_request_review"@ {
        WebhookRoute::Review
    } else if event_type == "issue_comment"@ {
        WebhookRoute::Comment
    } else if event_type == "release"@ {
        WebhookRoute::Release
    } else if event_type == "repository_dispatch"@ {
        WebhookRoute::RepositoryDispatch
    } else {
        WebhookRoute::Ignored
    }
}

/// Route a delivery by its `X-GitHub-Event` type and the payload's action
/// (callers pass "unknown" for a missing header or action) and, for pull
/// requests, whether the pull request was merged.
pub fn route_webhook(event_type: &str, action: &str, merged: bool) -> (res: WebhookRoute)
    ensures
        res == route_spec(event_type@, action@, merged),
        event_type@ == "pull_request"@ && (action@ == "opened"@ || action@ == "synchronize"@ || action@ == "reopened"@)
            ==> res == WebhookRoute::PullRequestUpdated,
        event_type@ == "pull_request"@ && action@ == "closed"@ ==> res == (WebhookRoute::PullRequestClosed { merged }),
        event_type@ == "release"@ ==> res == WebhookRoute::Release,
        event_type@ == "repository_dispatch"@ ==> res == WebhookRoute::RepositoryDispatch,
{
    proof {
        lemma_route_by_event(event_type@, action@, merged);
    }
    if str_eq(event_type, "pull_request") {
        if str_eq(action, "opened") || str_eq(action, "synchronize") || str_eq(action, "reopened") {
            WebhookRoute::PullRequestUpdated
        } else if str_eq(action, "closed") {
            WebhookRoute::PullRequestClosed { merged }
        } else {
            WebhookRoute::PullRequestIgnored
        }
    } else if str_eq(event_type, "pull_request_review") {
        WebhookRoute::Review
    } else if str_eq(event_type, "issue_comment") {
        WebhookRoute::Comment
    } else if str_eq(event_type, "release") {
        WebhookRoute::Release
    } else if str_eq(event_type, "repository_dispatch") {
        WebhookRoute::RepositoryDispatch
    } else {
        WebhookRoute::Ignored
    }
}

/// What a repository dispatch notification reports.
#[derive(Debug, Clone, Copy, PartialEq, Eq, Structural)]
pub enum DispatchKind {
    /// A build finished.
    BuildComplete,
    /// A build was requested (handled by the workflow itself).
    BuildRequest,
    /// Anything else.
    Unknown,
}

/// Classify a repository dispatch: it must carry a client payload object.
pub fn classify_dispatch(action: &str, has_client_payload: bool) -> (res: Result<DispatchKind, GovernanceError>)
    ensures
        !has_client_payload ==> (res matches Err(e) && e is GitHubError && e.message() == "Missing client_payload"@),
        has_client_payload ==> res == Ok::<DispatchKind, GovernanceError>(
            if action@ == "build-complete"@ {
                DispatchKind::BuildComplete
            } else if action@ == "build-request"@ {
                DispatchKind::BuildRequest
            } else {
                DispatchKind::Unknown
            },
        ),
{
    if !has_client_payload {
        return Err(GovernanceError::GitHubError(String::from_str("Missing client_payload")));
    }
    if str_eq(action, "build-complete") {
        Ok(DispatchKind::BuildComplete)
    } else if str_eq(action, "build-request") {
        Ok(DispatchKind::BuildRequest)
    } else {
        Ok(DispatchKind::Unknown)
    }
}

/// Where deliveries go, by event type and action: a pull request that is
/// opened, synchronized or reopened is re-evaluated; a closed one goes to the
/// close handler with its merged flag; any other pull request action is
/// ignored; reviews, issue comments, releases and repository dispatches go
/// to their own handlers; every other event type is ignored.
pub proof fn lemma_route_by_event(event_type: Seq<char>, action: Seq<char>, merged: bool)
    ensures
        event_type == "pull_request"@ && action == "opened"@ ==> route_spec(event_type, action, merged) == WebhookRoute::PullRequestUpdated,
        event_type == "pull_request"@ && action == "synchronize"@ ==> route_spec(event_type, action, merged) == WebhookRoute::PullRequestUpdated,
        event_type == "pull_request"@ && action == "reopened"@ ==> route_spec(event_type, action, merged) == WebhookRoute::PullRequestUpdated,
        event_type == "pull_request"@ && action == "closed"@
            ==> route_spec(event_type, action, merged) == (WebhookRoute::PullRequestClosed { merged }),
        event_type == "pull_request"@ && action != "opened"@ && action != "synchronize"@ && action != "reopened"@
            && action != "closed"@ ==> route_spec(event_type, action, merged) == WebhookRoute::PullRequestIgnored,
        event_type == "pull_request_review"@ ==> route_spec(event_type, action, merged) == WebhookRoute::Review,
        event_type == "issue_comment"@ ==> route_spec(event_type, action, merged) == WebhookRoute::Comment,
        event_type == "release"@ ==> route_spec(event_type, action, merged) == WebhookRoute::Release,
        event_type == "repository_dispatch"@ ==> route_spec(event_type, action, merged) == WebhookRoute::RepositoryDispatch,
        event_type != "pull_request"@ && event_type != "pull_request_review"@ && event_type != "issue_comment"@
            && event_type != "release"@ && event_type != "repository_dispatch"@
            ==> route_spec(event_type, action, merged) == WebhookRoute::Ignored,
{
    reveal_strlit("pull_request");
    reveal_strlit("pull_request_review");
    reveal_strlit("issue_comment");
    reveal_strlit("release");
    reveal_strlit("repository_dispatch");
    reveal_strlit("opened");
    reveal_strlit("synchronize");
    reveal_strlit("reopened");
    reveal_strlit("closed");
    assert("pull_request"@.len() != "pull_request_review"@.len());
    assert("release"@.len() != "pull_request"@.len() && "release"@.len() != "pull_request_review"@.len()
        && "release"@.len() != "issue_comment"@.len());
    assert("repository_dispatch"@.len() != "pull_request"@.len() && "repository_dispatch"@[0] != "pull_request_review"@[0]
        && "repository_dispatch"@.len() != "issue_comment"@.len() && "repository_dispatch"@.len() != "release"@.len());
    assert("issue_comment"@.len() != "pull_request"@.len() && "issue_comment"@.len() != "pull_request_review"@.len());
    assert("opened"@.len() != "synchronize"@.len() && "opened"@.len() != "reopened"@.len());
    assert("closed"@[0] != "opened"@[0] && "closed"@.len() != "synchronize"@.len() && "closed"@.len() != "reopened"@.len());
}

} // verus!
