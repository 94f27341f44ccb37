//! The data model of the workflow: repository identity, branch state,
//! aggregated metadata, the draft to submit, and the error taxonomy.

use vstd::prelude::*;

verus! {

/// The owner/name pair that identifies a repository on the hosting service.
/// Resolved once per invocation and immutable afterwards.
pub struct RepoIdentity {
    pub owner: String,
    pub name: String,
}

impl RepoIdentity {
    pub fn new(owner: String, name: String) -> (r: RepoIdentity)
        ensures
            r.owner@ == owner@,
            r.name@ == name@,
    {
        RepoIdentity { owner, name }
    }
}

/// The locally observed state of the checked-out branch.
pub struct BranchState {
    pub name: String,
    pub is_clean: bool,
    pub has_remote_tracking: bool,
}

/// The three metadata collections fetched from the hosting service. An
/// empty field stands equally for an empty collection and a failed fetch.
pub struct MetadataSet {
    pub labels: Vec<String>,
    pub teams: Vec<String>,
    pub contributors: Vec<String>,
}

/// The fully assembled, not yet submitted pull request. The label
/// sequence and the review-request sequence are ordered and free of
/// duplicates.
pub struct PullRequestDraft {
    pub title: String,
    pub description: String,
    pub labels: Vec<String>,
    pub reviewers: Vec<String>,
}

impl PullRequestDraft {
    /// The draft invariant: no duplicate labels, no duplicate review
    /// requests.
    pub open spec fn wf(&self) -> bool {
        self.labels.deep_view().no_duplicates() && self.reviewers.deep_view().no_duplicates()
    }

    pub fn new(title: String, description: String, labels: Vec<String>, reviewers: Vec<String>) -> (r:
        PullRequestDraft)
        ensures
            labels.deep_view().no_duplicates() && reviewers.deep_view().no_duplicates()
                ==> r.wf(),
            r.title@ == title@,
            r.description@ == description@,
            r.labels == labels,
            r.reviewers == reviewers,
    {
        PullRequestDraft { title, description, labels, reviewers }
    }
}

/// The terminal outcome of one submission attempt; never retried.
pub struct SubmissionResult {
    pub succeeded: bool,
    pub exit_code: Option<i32>,
}

/// Why a metadata fetch yielded nothing; recovered locally by substituting
/// an empty collection, never surfaced as a top-level failure.
#[derive(PartialEq, Eq, Structural, Clone, Copy, Debug)]
pub enum MetadataError {
    FetchFailed,
    MalformedResponse,
}

/// The fatal failures of the workflow, in precondition order.
#[derive(Debug)]
pub enum WorkflowError {
    ToolUnavailable,
    DirtyWorkingTree(Vec<String>),
    DetachedHead,
    PushFailed(Option<i32>),
    SubmissionFailed(Option<i32>, String),
    BrowserOpenFailed,
}

impl WorkflowError {
    /// A short description for each failure, used when aborting.
    pub fn describe(&self) -> (r: &'static str)
        ensures
            r@ == self.spec_describe(),
    {
        match self {
            WorkflowError::ToolUnavailable => "required external tool is not available",
            WorkflowError::DirtyWorkingTree(_) => "the working tree has uncommitted changes",
            WorkflowError::DetachedHead => "no branch is checked out",
            WorkflowError::PushFailed(_) => "the remote rejected the push",
            WorkflowError::SubmissionFailed(_, _) => "the remote rejected the pull request",
            WorkflowError::BrowserOpenFailed => "the browser could not be opened",
        }
    }

    pub open spec fn spec_describe(&self) -> Seq<char> {
        match self {
            WorkflowError::ToolUnavailable => "required external tool is not available"@,
            WorkflowError::DirtyWorkingTree(_) => "the working tree has uncommitted changes"@,
            WorkflowError::DetachedHead => "no branch is checked out"@,
            WorkflowError::PushFailed(_) => "the remote rejected the push"@,
            WorkflowError::SubmissionFailed(_, _) => "the remote rejected the pull request"@,
            WorkflowError::BrowserOpenFailed => "the browser could not be opened"@,
        }
    }
}

} // verus!
