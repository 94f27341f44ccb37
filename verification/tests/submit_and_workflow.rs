use pyarr::github::aggregate_metadata;
use pyarr::github::reviewer_candidates;
use pyarr::model::{PullRequestDraft, WorkflowError};
use pyarr::select::{select_pr_type, select_subset, PullRequestType};
use pyarr::submit::{
    build_pr_args, interpret_browser_open, interpret_submission, interpret_tool_check,
    pr_list_args, pr_view_args, repo_view_args,
};
use pyarr::workflow::{action_of, step, WorkflowAction, WorkflowEvent, WorkflowStage};

fn strings(items: &[&str]) -> Vec<String> {
    items.iter().map(|s| s.to_string()).collect()
}

#[test]
fn pr_type_menu() {
    assert_eq!(PullRequestType::all().len(), 3);
    assert_eq!(PullRequestType::Bug.label(), "bug");
    assert_eq!(select_pr_type(0).unwrap(), "bug");
    assert_eq!(select_pr_type(1).unwrap(), "feature");
    assert_eq!(select_pr_type(2).unwrap(), "hotfix");
    assert!(select_pr_type(3).is_none());
}

#[test]
fn empty_mask_selects_nothing() {
    let cands = strings(&["bug", "needs-review"]);
    assert_eq!(select_subset(&cands, &vec![]), Vec::<String>::new());
}

#[test]
fn full_mask_selects_everything_in_order() {
    let cands = strings(&["bug", "needs-review", "urgent"]);
    assert_eq!(select_subset(&cands, &vec![2, 0, 1]), cands);
}

#[test]
fn selection_preserves_candidate_order() {
    let cands = strings(&["a", "b", "c", "d"]);
    assert_eq!(select_subset(&cands, &vec![3, 1]), strings(&["b", "d"]));
}

#[test]
fn selection_removes_duplicate_candidates() {
    let cands = strings(&["x", "y", "x"]);
    assert_eq!(select_subset(&cands, &vec![0, 1, 2]), strings(&["x", "y"]));
}

#[test]
fn out_of_range_indices_are_ignored() {
    let cands = strings(&["only"]);
    assert_eq!(select_subset(&cands, &vec![5, 0, 7]), strings(&["only"]));
}

#[test]
fn submission_arguments_for_all_four_emptiness_combinations() {
    let base = ["pr", "create", "-t", "t", "-b", "d"];
    let cases: [(Vec<String>, Vec<String>, Vec<&str>); 4] = [
        (strings(&[]), strings(&[]), vec![]),
        (strings(&["bug", "ui"]), strings(&[]), vec!["-l", "bug,ui"]),
        (strings(&[]), strings(&["alice"]), vec!["-r", "alice"]),
        (
            strings(&["bug"]),
            strings(&["alice", "bob"]),
            vec!["-l", "bug", "-r", "alice,bob"],
        ),
    ];
    for (labels, reviewers, tail) in cases {
        let draft = PullRequestDraft::new("t".to_string(), "d".to_string(), labels, reviewers);
        let mut expected: Vec<String> = base.iter().map(|s| s.to_string()).collect();
        expected.extend(tail.iter().map(|s| s.to_string()));
        assert_eq!(build_pr_args(&draft), expected);
    }
}

#[test]
fn submission_exit_codes() {
    let ok = interpret_submission(Some(0), String::new()).unwrap();
    assert!(ok.succeeded);
    assert_eq!(ok.exit_code, Some(0));
    match interpret_submission(Some(1), "a pull request already exists".to_string()) {
        Err(WorkflowError::SubmissionFailed(code, diagnostic)) => {
            assert_eq!(code, Some(1));
            assert_eq!(diagnostic, "a pull request already exists");
        }
        _ => panic!("a non-zero exit must fail with its diagnostic"),
    }
}

#[test]
fn browser_and_tool_checks() {
    assert_eq!(pr_view_args(&"main".to_string()), vec!["pr", "view", "main", "-w"]);
    assert_eq!(repo_view_args(), vec!["repo", "view", "-w"]);
    assert_eq!(pr_list_args(), vec!["pr", "list", "-w"]);
    assert!(interpret_browser_open(Some(0)).is_ok());
    assert!(matches!(
        interpret_browser_open(Some(3)),
        Err(WorkflowError::BrowserOpenFailed)
    ));
    assert!(interpret_tool_check(Some(0)).is_ok());
    assert!(matches!(
        interpret_tool_check(None),
        Err(WorkflowError::ToolUnavailable)
    ));
}

#[test]
fn error_descriptions_are_short_and_stable() {
    assert_eq!(
        WorkflowError::DetachedHead.describe(),
        "no branch is checked out"
    );
    assert_eq!(
        WorkflowError::ToolUnavailable.describe(),
        "required external tool is not available"
    );
}

#[test]
fn dirty_tree_aborts_before_any_network_action() {
    let mut stage = WorkflowStage::Start;
    assert_eq!(action_of(stage), WorkflowAction::CheckStatus);
    stage = step(stage, WorkflowEvent::CleanStatus { clean: false });
    assert_eq!(stage, WorkflowStage::Aborted);
    assert_eq!(action_of(stage), WorkflowAction::Stop);
    // whatever is reported afterwards, the run stays aborted
    stage = step(stage, WorkflowEvent::MetadataReady);
    assert_eq!(stage, WorkflowStage::Aborted);
    stage = step(stage, WorkflowEvent::SubmitResult { ok: true });
    assert_eq!(stage, WorkflowStage::Aborted);
}

#[test]
fn happy_path_walks_every_stage() {
    let mut stage = WorkflowStage::Start;
    stage = step(stage, WorkflowEvent::CleanStatus { clean: true });
    assert_eq!(stage, WorkflowStage::CleanChecked);
    stage = step(stage, WorkflowEvent::BranchResolution { found: true });
    assert_eq!(stage, WorkflowStage::BranchResolved);
    assert_eq!(action_of(stage), WorkflowAction::Push);
    stage = step(stage, WorkflowEvent::PushResult { ok: true });
    assert_eq!(stage, WorkflowStage::Pushed);
    assert_eq!(action_of(stage), WorkflowAction::FetchMetadata);
    stage = step(stage, WorkflowEvent::MetadataReady);
    stage = step(stage, WorkflowEvent::LabelsPicked);
    stage = step(stage, WorkflowEvent::ReviewersPicked);
    assert_eq!(action_of(stage), WorkflowAction::Submit);
    stage = step(stage, WorkflowEvent::SubmitResult { ok: true });
    assert_eq!(stage, WorkflowStage::Submitted);
}

#[test]
fn out_of_protocol_events_abort() {
    assert_eq!(
        step(WorkflowStage::Start, WorkflowEvent::MetadataReady),
        WorkflowStage::Aborted
    );
    assert_eq!(
        step(WorkflowStage::Pushed, WorkflowEvent::CleanStatus { clean: true }),
        WorkflowStage::Aborted
    );
}

#[test]
fn end_to_end_clean_tree_scenario() {
    // clean tree, branch resolved
    assert!(pyarr::git::check_clean("").is_ok());
    let branch = pyarr::git::resolve_current_branch(0, "feature/AB-123-foo\n").unwrap();
    assert_eq!(branch, "feature/AB-123-foo");

    // the three fetches come back; contributors arrive out of order
    let ms = aggregate_metadata(
        pyarr::github::labels_from_response("[{\"name\":\"bug\"},{\"name\":\"needs-review\"}]"),
        Ok(vec!["org/platform".to_string()]),
        pyarr::github::contributors_from_response("[{\"login\":\"bob\"},{\"login\":\"alice\"}]"),
    );
    assert_eq!(ms.contributors, vec!["alice", "bob"]);

    // the user picks one label and one review candidate
    let labels = select_subset(&ms.labels, &vec![1]);
    assert_eq!(labels, vec!["needs-review"]);
    let pool = reviewer_candidates(&ms);
    assert_eq!(pool, vec!["org/platform", "alice", "bob"]);
    let reviewers = select_subset(&pool, &vec![1]);
    assert_eq!(reviewers, vec!["alice"]);

    // the submission carries exactly those, with no team argument
    let draft = PullRequestDraft::new(
        "feature/AB-123-foo".to_string(),
        "AB-123".to_string(),
        labels,
        reviewers,
    );
    let args = build_pr_args(&draft);
    assert_eq!(
        args,
        vec![
            "pr",
            "create",
            "-t",
            "feature/AB-123-foo",
            "-b",
            "AB-123",
            "-l",
            "needs-review",
            "-r",
            "alice",
        ]
    );
}
