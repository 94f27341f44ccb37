//! The local-repository guard: working-tree cleanliness, branch
//! resolution, and the push step with its idempotence law. Command output
//! is handed in as plain text; running the commands is the caller's work.

use vstd::prelude::*;

use crate::model::WorkflowError;
use crate::text::{line_split, split_lines, trim_end_whitespace, trimmed_end};

verus! {

/// The paths reported as modified by a porcelain status listing: one line
/// per path, the path starting after the two status columns and a space.
pub open spec fn path_entries(lines: Seq<Seq<char>>) -> Seq<Seq<char>>
    decreases lines.len(),
{
    if lines.len() == 0 {
        Seq::empty()
    } else if lines.last().len() > 3 {
        path_entries(lines.drop_last()) + seq![lines.last().skip(3)]
    } else {
        path_entries(lines.drop_last())
    }
}

/// The modified paths named by a porcelain status output.
pub open spec fn status_paths(s: Seq<char>) -> Seq<Seq<char>> {
    path_entries(line_split(s))
}

/// The argument list of the status query the guard interprets.
pub fn status_args() -> (r: Vec<String>)
    ensures
        r.deep_view() =~= seq!["status"@, "--porcelain"@],
{
    let mut r: Vec<String> = Vec::new();
    r.push(String::from_str("status"));
    r.push(String::from_str("--porcelain"));
    r
}

/// The argument list of the symbolic branch query.
pub fn branch_query_args() -> (r: Vec<String>)
    ensures
        r.deep_view() =~= seq!["symbolic-ref"@, "--short"@, "-q"@, "HEAD"@],
{
    let mut r: Vec<String> = Vec::new();
    r.push(String::from_str("symbolic-ref"));
    r.push(String::from_str("--short"));
    r.push(String::from_str("-q"));
    r.push(String::from_str("HEAD"));
    r
}

/// The argument list that pushes `branch` and sets upstream tracking.
pub fn push_branch_args(branch: &String) -> (r: Vec<String>)
    ensures
        r.deep_view() =~= seq![
            "push"@,
            "--porcelain"@,
            "--set-upstream"@,
            "origin"@,
            branch@,
        ],
{
    let mut r: Vec<String> = Vec::new();
    r.push(String::from_str("push"));
    r.push(String::from_str("--porcelain"));
    r.push(String::from_str("--set-upstream"));
    r.push(String::from_str("origin"));
    r.push(branch.clone());
    r
}

/// Inspects a porcelain status output: succeeds exactly on an empty
/// output, and otherwise reports the modified paths it lists.
pub fn check_clean(status_output: &str) -> (r: Result<(), WorkflowError>)
    ensures
        r is Ok <==> status_output@.len() == 0,
        r matches Err(e) ==> e matches WorkflowError::DirtyWorkingTree(paths)
            && paths.deep_view() == status_paths(status_output@),
{
    if status_output.unicode_len() == 0 {
        return Ok(());
    }
    let lines = split_lines(status_output);
    let ghost ls = lines.deep_view();
    let mut paths: Vec<String> = Vec::new();
    let mut i: usize = 0;
    proof {
        assert(ls.take(0) =~= Seq::<Seq<char>>::empty());
        assert(paths.deep_view() =~= path_entries(ls.take(0)));
    }
    while i < lines.len()
        invariant
            i <= lines.len(),
            ls == lines.deep_view(),
            ls.len() == lines.len(),
            paths.deep_view() == path_entries(ls.take(i as int)),
        decreases lines.len() - i,
    {
        let ghost prev = paths.deep_view();
        let line = &lines[i];
        let n = line.as_str().unicode_len();
        if n > 3 {
            let path = String::from_str(line.as_str().substring_char(3, n));
            paths.push(path);
            proof {
                assert(line@.subrange(3, n as int) =~= ls[i as int].skip(3));
                assert(paths.deep_view() =~= prev.push(ls[i as int].skip(3)));
            }
        }
        proof {
            assert(ls.take(i as int + 1).drop_last() =~= ls.take(i as int));
            assert(ls.take(i as int + 1).last() == ls[i as int]);
        }
        i += 1;
    }
    proof {
        assert(ls.take(ls.len() as int) =~= ls);
    }
    Err(WorkflowError::DirtyWorkingTree(paths))
}

/// Interprets the symbolic branch query: the trimmed branch name when the
/// query succeeded and named one, and a detached-head failure otherwise.
pub fn resolve_current_branch(exit_code: i32, stdout: &str) -> (r: Result<String, WorkflowError>)
    ensures
        r is Ok <==> (exit_code == 0 && trimmed_end(stdout@).len() > 0),
        r matches Ok(b) ==> b@ == trimmed_end(stdout@),
        r matches Err(e) ==> e is DetachedHead,
{
    if exit_code != 0 {
        return Err(WorkflowError::DetachedHead);
    }
    let name = trim_end_whitespace(stdout);
    if name.as_str().unicode_len() == 0 {
        return Err(WorkflowError::DetachedHead);
    }
    Ok(name)
}

/// Interprets a push's exit status: success exactly on exit code zero.
pub fn interpret_push(exit_code: Option<i32>) -> (r: Result<(), WorkflowError>)
    ensures
        r is Ok <==> exit_code == Some(0i32),
        r matches Err(e) ==> e matches WorkflowError::PushFailed(c) && c == exit_code,
{
    match exit_code {
        Some(0i32) => Ok(()),
        _ => Err(WorkflowError::PushFailed(exit_code)),
    }
}

/// What the remote branch points at after a push of `local_head`.
pub open spec fn pushed_remote(remote: Option<u64>, local_head: u64) -> Option<u64> {
    Some(local_head)
}

/// Whether a push of `local_head` finds nothing to update.
pub open spec fn push_is_noop(remote: Option<u64>, local_head: u64) -> bool {
    remote == Some(local_head)
}

/// The visible outcome of a push that the remote accepted.
#[derive(PartialEq, Eq, Structural, Clone, Copy, Debug)]
pub enum PushOutcome {
    Updated,
    AlreadyUpToDate,
}

/// One accepted push over the modeled remote: the remote branch tracks the
/// local head afterwards, with nothing to do when it already did. The
/// remote is modeled by the commit its branch head points at, if any.
pub fn ensure_pushed(remote: Option<u64>, local_head: u64) -> (r: (Option<u64>, PushOutcome))
    ensures
        r.0 == pushed_remote(remote, local_head),
        r.1 is AlreadyUpToDate <==> push_is_noop(remote, local_head),
{
    match remote {
        Some(h) => {
            if h == local_head {
                (Some(local_head), PushOutcome::AlreadyUpToDate)
            } else {
                (Some(local_head), PushOutcome::Updated)
            }
        },
        None => (Some(local_head), PushOutcome::Updated),
    }
}

/// Pushing is idempotent: once a push has brought the remote up to the
/// local head, a second push with no intervening commits finds the remote
/// already up to date and leaves it unchanged.
pub proof fn lemma_ensure_pushed_idempotent(remote: Option<u64>, local_head: u64)
    ensures
        push_is_noop(pushed_remote(remote, local_head), local_head),
        pushed_remote(pushed_remote(remote, local_head), local_head) == pushed_remote(
            remote,
            local_head,
        ),
{
}

} // verus!
