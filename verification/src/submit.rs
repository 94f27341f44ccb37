//! The submitter: assembling the remote pull-request creation command
//! from a draft, and interpreting the outcomes of the remote operations.

use vstd::prelude::*;

use crate::model::{PullRequestDraft, SubmissionResult, WorkflowError};
use crate::text::{comma_joined, join_comma};

verus! {

/// The argument list of the remote creation command: title and body
/// always; the label argument exactly when there are labels, and the
/// review-request argument exactly when someone is asked for review,
/// each list joined by commas. An empty-but-present argument would be a
/// different remote call, so an empty sequence contributes no argument
/// at all.
pub open spec fn pr_create_args(
    title: Seq<char>,
    body: Seq<char>,
    labels: Seq<Seq<char>>,
    reviewers: Seq<Seq<char>>,
) -> Seq<Seq<char>> {
    seq!["pr"@, "create"@, "-t"@, title, "-b"@, body] + (if labels.len() == 0 {
        Seq::<Seq<char>>::empty()
    } else {
        seq!["-l"@, comma_joined(labels)]
    }) + (if reviewers.len() == 0 {
        Seq::<Seq<char>>::empty()
    } else {
        seq!["-r"@, comma_joined(reviewers)]
    })
}

/// Builds the remote creation command for a draft.
pub fn build_pr_args(draft: &PullRequestDraft) -> (r: Vec<String>)
    ensures
        r.deep_view() == pr_create_args(
            draft.title@,
            draft.description@,
            draft.labels.deep_view(),
            draft.reviewers.deep_view(),
        ),
{
    let mut r: Vec<String> = Vec::new();
    r.push(String::from_str("pr"));
    r.push(String::from_str("create"));
    r.push(String::from_str("-t"));
    r.push(draft.title.clone());
    r.push(String::from_str("-b"));
    r.push(draft.description.clone());
    if draft.labels.len() > 0 {
        r.push(String::from_str("-l"));
        r.push(join_comma(&draft.labels));
    }
    if draft.reviewers.len() > 0 {
        r.push(String::from_str("-r"));
        r.push(join_comma(&draft.reviewers));
    }
    proof {
        assert(r.deep_view() =~= pr_create_args(
            draft.title@,
            draft.description@,
            draft.labels.deep_view(),
            draft.reviewers.deep_view(),
        ));
    }
    r
}

/// The label argument is omitted exactly when there are no labels, and
/// the review-request argument exactly when nobody is asked for review:
/// the command length counts two entries per present argument, the label
/// argument sits right after the six fixed entries, and the
/// review-request argument sits at the end.
pub proof fn lemma_submit_omits_empty_arguments(
    title: Seq<char>,
    body: Seq<char>,
    labels: Seq<Seq<char>>,
    reviewers: Seq<Seq<char>>,
)
    ensures
        pr_create_args(title, body, labels, reviewers).len() == 6 + (if labels.len() == 0 {
            0int
        } else {
            2int
        }) + (if reviewers.len() == 0 {
            0int
        } else {
            2int
        }),
        labels.len() > 0 ==> pr_create_args(title, body, labels, reviewers)[6] == "-l"@
            && pr_create_args(title, body, labels, reviewers)[7] == comma_joined(labels),
        reviewers.len() > 0 ==> {
            let args = pr_create_args(title, body, labels, reviewers);
            args[args.len() - 2] == "-r"@ && args[args.len() - 1] == comma_joined(
                reviewers,
            )
        },
{
}

/// Interprets the remote creation's exit status: success exactly on exit
/// code zero, and otherwise the exit status with the captured diagnostic.
pub fn interpret_submission(exit_code: Option<i32>, diagnostic: String) -> (r: Result<
    SubmissionResult,
    WorkflowError,
>)
    ensures
        r is Ok <==> exit_code == Some(0i32),
        r matches Ok(s) ==> s.succeeded && s.exit_code == Some(0i32),
        r matches Err(e) ==> e matches WorkflowError::SubmissionFailed(c, d) && c == exit_code
            && d@ == diagnostic@,
{
    match exit_code {
        Some(0i32) => Ok(SubmissionResult { succeeded: true, exit_code: Some(0) }),
        _ => Err(WorkflowError::SubmissionFailed(exit_code, diagnostic)),
    }
}

/// The argument list that views a pull request in the browser.
pub fn pr_view_args(branch: &String) -> (r: Vec<String>)
    ensures
        r.deep_view() =~= seq!["pr"@, "view"@, branch@, "-w"@],
{
    let mut r: Vec<String> = Vec::new();
    r.push(String::from_str("pr"));
    r.push(String::from_str("view"));
    r.push(branch.clone());
    r.push(String::from_str("-w"));
    r
}

/// The argument list that views the repository in the browser.
pub fn repo_view_args() -> (r: Vec<String>)
    ensures
        r.deep_view() =~= seq!["repo"@, "view"@, "-w"@],
{
    let mut r: Vec<String> = Vec::new();
    r.push(String::from_str("repo"));
    r.push(String::from_str("view"));
    r.push(String::from_str("-w"));
    r
}

/// The argument list that views the repository's pull requests in the
/// browser.
pub fn pr_list_args() -> (r: Vec<String>)
    ensures
        r.deep_view() =~= seq!["pr"@, "list"@, "-w"@],
{
    let mut r: Vec<String> = Vec::new();
    r.push(String::from_str("pr"));
    r.push(String::from_str("list"));
    r.push(String::from_str("-w"));
    r
}

/// Interprets a best-effort browser open: a failure must not disturb the
/// already-created pull request, so it carries no diagnostic.
pub fn interpret_browser_open(exit_code: Option<i32>) -> (r: Result<(), WorkflowError>)
    ensures
        r is Ok <==> exit_code == Some(0i32),
        r matches Err(e) ==> e is BrowserOpenFailed,
{
    match exit_code {
        Some(0i32) => Ok(()),
        _ => Err(WorkflowError::BrowserOpenFailed),
    }
}

/// Interprets the startup checks of the external tool: any non-zero exit
/// means the tool is unavailable or unauthenticated.
pub fn interpret_tool_check(exit_code: Option<i32>) -> (r: Result<(), WorkflowError>)
    ensures
        r is Ok <==> exit_code == Some(0i32),
        r matches Err(e) ==> e is ToolUnavailable,
{
    match exit_code {
        Some(0i32) => Ok(()),
        _ => Err(WorkflowError::ToolUnavailable),
    }
}

} // verus!
