use pyarr::git::{
    branch_query_args, check_clean, ensure_pushed, interpret_push, push_branch_args,
    resolve_current_branch, status_args, PushOutcome,
};
use pyarr::model::WorkflowError;
use pyarr::text::{join_comma, sorted_dedup, split_lines, str_le, trim_end_whitespace};

#[test]
fn trim_removes_trailing_newline() {
    assert_eq!(trim_end_whitespace("feature/AB-123-foo\n"), "feature/AB-123-foo");
    assert_eq!(trim_end_whitespace("main \r\n"), "main");
    assert_eq!(trim_end_whitespace(""), "");
    assert_eq!(trim_end_whitespace("  inner space kept "), "  inner space kept");
}

#[test]
fn split_lines_basic() {
    assert_eq!(split_lines("a\nb\nc"), vec!["a", "b", "c"]);
    assert_eq!(split_lines("a\nb\n"), vec!["a", "b"]);
    assert_eq!(split_lines(""), Vec::<String>::new());
    assert_eq!(split_lines("one"), vec!["one"]);
    assert_eq!(split_lines("a\n\nb"), vec!["a", "", "b"]);
}

#[test]
fn join_comma_basic() {
    assert_eq!(join_comma(&vec![]), "");
    assert_eq!(join_comma(&vec!["alice".to_string()]), "alice");
    assert_eq!(
        join_comma(&vec!["bug".to_string(), "needs-review".to_string()]),
        "bug,needs-review"
    );
}

#[test]
fn str_le_orders_lexicographically() {
    assert!(str_le("alice", "bob"));
    assert!(!str_le("bob", "alice"));
    assert!(str_le("alice", "alice"));
    assert!(str_le("ab", "abc"));
    assert!(!str_le("abc", "ab"));
    assert!(str_le("", "a"));
}

#[test]
fn sorted_dedup_sorts_and_removes_duplicates() {
    let input = vec![
        "bob".to_string(),
        "alice".to_string(),
        "carol".to_string(),
        "bob".to_string(),
        "alice".to_string(),
    ];
    assert_eq!(sorted_dedup(&input), vec!["alice", "bob", "carol"]);
    assert_eq!(sorted_dedup(&vec![]), Vec::<String>::new());
}

#[test]
fn clean_tree_passes_the_guard() {
    assert!(check_clean("").is_ok());
}

#[test]
fn dirty_tree_reports_modified_paths() {
    let out = " M src/main.rs\n?? notes.txt\n";
    match check_clean(out) {
        Err(WorkflowError::DirtyWorkingTree(paths)) => {
            assert_eq!(paths, vec!["src/main.rs", "notes.txt"]);
        }
        _ => panic!("a dirty tree must be rejected with its paths"),
    }
}

#[test]
fn branch_resolution_trims_the_query_output() {
    let branch = resolve_current_branch(0, "feature/AB-123-foo\n").unwrap();
    assert_eq!(branch, "feature/AB-123-foo");
}

#[test]
fn detached_head_is_rejected() {
    assert!(matches!(
        resolve_current_branch(1, ""),
        Err(WorkflowError::DetachedHead)
    ));
    assert!(matches!(
        resolve_current_branch(0, "\n"),
        Err(WorkflowError::DetachedHead)
    ));
}

#[test]
fn git_argument_lists() {
    assert_eq!(status_args(), vec!["status", "--porcelain"]);
    assert_eq!(branch_query_args(), vec!["symbolic-ref", "--short", "-q", "HEAD"]);
    assert_eq!(
        push_branch_args(&"feature/AB-123-foo".to_string()),
        vec!["push", "--porcelain", "--set-upstream", "origin", "feature/AB-123-foo"]
    );
}

#[test]
fn push_exit_codes() {
    assert!(interpret_push(Some(0)).is_ok());
    assert!(matches!(
        interpret_push(Some(128)),
        Err(WorkflowError::PushFailed(Some(128)))
    ));
    assert!(matches!(interpret_push(None), Err(WorkflowError::PushFailed(None))));
}

#[test]
fn ensure_pushed_twice_is_idempotent() {
    let (remote, first) = ensure_pushed(None, 42);
    assert_eq!(remote, Some(42));
    assert_eq!(first, PushOutcome::Updated);
    let (again, second) = ensure_pushed(remote, 42);
    assert_eq!(again, remote);
    assert_eq!(second, PushOutcome::AlreadyUpToDate);
}
