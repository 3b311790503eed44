//! GitHub webhook and API records.
use vstd::prelude::*;

verus! {

/// A pull request.
#[derive(Debug, Clone)]
pub struct PullRequest {
    pub number: u64,
    pub title: String,
    pub body: Option<String>,
    pub head: CommitRef,
    pub base: CommitRef,
    pub user: User,
    pub created_at: String,
    pub updated_at: String,
}

/// A commit reference.
#[derive(Debug, Clone)]
pub struct CommitRef {
    pub sha: String,
    pub ref_field: String,
}

/// A GitHub user.
#[derive(Debug, Clone)]
pub struct User {
    pub login: String,
    pub id: u64,
}

/// A repository.
#[derive(Debug, Clone)]
pub struct Repository {
    pub name: String,
    pub full_name: String,
    pub owner: User,
}

/// A webhook delivery.
#[derive(Debug, Clone)]
pub struct WebhookPayload {
    pub action: String,
    pub pull_request: Option<PullRequest>,
    pub repository: Option<Repository>,
    pub issue: Option<Issue>,
    pub comment: Option<Comment>,
    pub review: Option<Review>,
}

/// An issue.
#[derive(Debug, Clone)]
pub struct Issue {
    pub number: u64,
    pub title: String,
    pub user: User,
}

/// An issue or pull request comment.
#[derive(Debug, Clone)]
pub struct Comment {
    pub body: String,
    pub user: User,
    pub created_at: String,
}

/// A pull request review.
#[derive(Debug, Clone)]
pub struct Review {
    pub state: String,
    pub user: User,
    pub body: Option<String>,
}

/// Check run from the GitHub API.
#[derive(Debug, Clone)]
pub struct CheckRun {
    pub name: String,
    pub conclusion: Option<String>,
    pub status: String,
    pub html_url: Option<String>,
}

/// Workflow status from the GitHub API.
#[derive(Debug, Clone)]
pub struct WorkflowStatus {
    pub conclusion: Option<String>,
    pub status: Option<String>,
}

} // verus!
