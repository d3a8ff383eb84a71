//! Applying a checked patch on an isolated branch `specprobe/fix-<issue>`:
//! the patch is committed there and the user's branch is checked out again,
//! so the user's working branch is never changed. Any failure after the
//! branch was created rolls back: the original branch is restored and the new
//! branch deleted.
//!
//! The procedure is a state machine: each step takes the reply of the last
//! git command and gives the next command to run, or the result. Running git
//! is left to the caller.
use vstd::prelude::*;

use crate::patch::GeneratedPatch;
use crate::text::{ascii_lower, ascii_lower_chars, chars_of, owned, string_of, string_views, trim, trim_chars};

verus! {

pub struct ApplyOptions {
    /// Apply although the working tree is not clean.
    pub allow_dirty: bool,
}

/// The patch is committed on `branch`; `restored_branch` is checked out again.
#[derive(Debug)]
pub struct ApplyOutcome {
    pub branch: String,
    pub restored_branch: String,
    pub commit: String,
    pub files: Vec<String>,
}

#[derive(Debug)]
pub enum ApplyError {
    NotGitRepo(String),
    DirtyWorktree(String),
    BranchExists(String),
    Git { step: String, detail: String },
}

pub open spec fn apply_error_message(e: ApplyError) -> Seq<char> {
    match e {
        ApplyError::NotGitRepo(p) => "the project at "@ + p@ + " is not a git repository; patch application needs one"@,
        ApplyError::DirtyWorktree(s) => "the git working tree is not clean:\n"@ + s@ + "\n(apply with --allow-dirty to override)"@,
        ApplyError::BranchExists(b) => "branch "@ + b@ + " already exists; delete it or resolve the previous fix first"@,
        ApplyError::Git { step, detail } => "git "@ + step@ + " failed: "@ + detail@,
    }
}

impl ApplyError {
    pub fn message(&self) -> (r: String)
        ensures
            r@ == apply_error_message(*self),
    {
        match self {
            ApplyError::NotGitRepo(p) => {
                let mut r = owned("the project at ");
                r.append(p.as_str());
                r.append(" is not a git repository; patch application needs one");
                r
            },
            ApplyError::DirtyWorktree(s) => {
                let mut r = owned("the git working tree is not clean:\n");
                r.append(s.as_str());
                r.append("\n(apply with --allow-dirty to override)");
                r
            },
            ApplyError::BranchExists(b) => {
                let mut r = owned("branch ");
                r.append(b.as_str());
                r.append(" already exists; delete it or resolve the previous fix first");
                r
            },
            ApplyError::Git { step, detail } => {
                let mut r = owned("git ");
                r.append(step.as_str());
                r.append(" failed: ");
                r.append(detail.as_str());
                r
            },
        }
    }
}

/// A git command to run in the project: its arguments and what to feed it.
#[derive(Debug)]
pub struct GitCommand {
    pub args: Vec<String>,
    pub stdin: Option<String>,
}

/// What the caller does next.
#[derive(Debug)]
pub enum ApplyAction {
    /// Run this command and hand back its standard output, or its standard
    /// error when it fails.
    RunGit(GitCommand),
    /// The procedure is over.
    Finished(Result<ApplyOutcome, ApplyError>),
}

/// Where the procedure stands.
#[derive(Clone, Copy, PartialEq, Eq, Structural, Debug)]
pub enum ApplyStage {
    CheckRepository,
    ReadHeadName,
    ReadHeadCommit,
    CheckClean,
    CheckBranchFree,
    CreateBranch,
    ApplyDiff,
    Commit,
    ReadCommit,
    Restore,
    RollbackCheckout,
    RollbackBranch,
    Done,
}

#[derive(Debug)]
pub struct ApplyMachine {
    pub project: String,
    pub issue_id: String,
    pub diff: String,
    pub target_files: Vec<String>,
    pub allow_dirty: bool,
    pub stage: ApplyStage,
    /// The branch checked out at the start (`HEAD` when detached).
    pub head: String,
    /// What is checked out again: the branch, or the commit when detached.
    pub restore_ref: String,
    pub branch: String,
    pub commit: String,
    /// The error reported once a rollback has finished.
    pub failure: Option<ApplyError>,
}

/// The fix branch of an issue.
pub open spec fn fix_branch(issue_id: Seq<char>) -> Seq<char> {
    "specprobe/fix-"@ + ascii_lower(issue_id)
}

pub open spec fn command_is(a: ApplyAction, args: Seq<Seq<char>>, stdin: Option<Seq<char>>) -> bool {
    match a {
        ApplyAction::RunGit(c) => string_views(c.args@) == args && crate::text::opt_string_view(c.stdin) == stdin,
        _ => false,
    }
}

pub open spec fn finished_with_error(a: ApplyAction, message: Seq<char>) -> bool {
    match a {
        ApplyAction::Finished(Err(e)) => apply_error_message(e) == message,
        _ => false,
    }
}

fn command(args: &[&str]) -> (r: ApplyAction)
    ensures
        command_is(r, strs(args@), None),
{
    let mut v: Vec<String> = Vec::new();
    let mut i: usize = 0;
    while i < args.len()
        invariant
            i <= args@.len(),
            string_views(v@) == strs(args@.take(i as int)),
        decreases args.len() - i,
    {
        let ghost before = string_views(v@);
        v.push(owned(args[i]));
        assert(string_views(v@) =~= before.push(args@[i as int]@));
        assert(strs(args@.take(i + 1)) =~= strs(args@.take(i as int)).push(args@[i as int]@));
        i = i + 1;
    }
    assert(args@.take(args@.len() as int) == args@);
    ApplyAction::RunGit(GitCommand { args: v, stdin: None })
}

fn cmd2(a: &str, b: &str) -> (r: ApplyAction)
    ensures
        command_is(r, seq![a@, b@], None),
{
    let arr = [a, b];
    assert(strs(arr@) =~= seq![a@, b@]);
    command(&arr)
}

fn cmd3(a: &str, b: &str, c: &str) -> (r: ApplyAction)
    ensures
        command_is(r, seq![a@, b@, c@], None),
{
    let arr = [a, b, c];
    assert(strs(arr@) =~= seq![a@, b@, c@]);
    command(&arr)
}

fn cmd4(a: &str, b: &str, c: &str, d: &str) -> (r: ApplyAction)
    ensures
        command_is(r, seq![a@, b@, c@, d@], None),
{
    let arr = [a, b, c, d];
    assert(strs(arr@) =~= seq![a@, b@, c@, d@]);
    command(&arr)
}

fn git_error(step: &str, detail: String) -> (r: ApplyError)
    ensures
        apply_error_message(r) == "git "@ + step@ + " failed: "@ + detail@,
{
    ApplyError::Git { step: owned(step), detail }
}

/// Starts applying `patch` in `project`: the first step checks that the
/// project is a git repository.
pub fn apply_patch(project: &str, patch: &GeneratedPatch, options: &ApplyOptions) -> (r: (ApplyMachine, ApplyAction))
    ensures
        r.0.stage == ApplyStage::CheckRepository,
        r.0.project@ == project@,
        r.0.issue_id@ == patch.issue_id@,
        r.0.diff@ == patch.diff@,
        string_views(r.0.target_files@) == string_views(patch.target_files@),
        r.0.allow_dirty == options.allow_dirty,
        r.0.failure is None,
        command_is(r.1, seq!["rev-parse"@, "--is-inside-work-tree"@], None),
{
    let m = ApplyMachine {
        project: owned(project),
        issue_id: patch.issue_id.clone(),
        diff: patch.diff.clone(),
        target_files: crate::text::copy_strings(&patch.target_files),
        allow_dirty: options.allow_dirty,
        stage: ApplyStage::CheckRepository,
        head: String::new(),
        restore_ref: String::new(),
        branch: String::new(),
        commit: String::new(),
        failure: None,
    };
    let a = cmd2("rev-parse", "--is-inside-work-tree");
    assert(seq!["rev-parse", "--is-inside-work-tree"].map_values(|s: &str| s@) =~= seq!["rev-parse"@, "--is-inside-work-tree"@]);
    (m, a)
}

impl ApplyMachine {
    /// A rollback carries the error it will report.
    pub open spec fn wf(&self) -> bool {
        (self.stage == ApplyStage::RollbackCheckout || self.stage == ApplyStage::RollbackBranch)
            ==> self.failure is Some
    }
}

pub open spec fn strs(v: Seq<&str>) -> Seq<Seq<char>> {
    v.map_values(|s: &str| s@)
}

/// After the reference to restore is known: check that the tree is clean,
/// or, when dirt is allowed, that the fix branch is free.
pub open spec fn entered_checks(old_m: ApplyMachine, m: ApplyMachine, a: ApplyAction) -> bool {
    if old_m.allow_dirty {
        &&& m.stage == ApplyStage::CheckBranchFree
        &&& m.branch@ == fix_branch(old_m.issue_id@)
        &&& command_is(a, seq!["rev-parse"@, "--verify"@, "refs/heads/"@ + m.branch@], None)
    } else {
        &&& m.stage == ApplyStage::CheckClean
        &&& command_is(a, seq!["status"@, "--porcelain"@], None)
    }
}

/// A failure after the branch was created: restore the original reference
/// first, keeping the error to report.
pub open spec fn entered_rollback(old_m: ApplyMachine, m: ApplyMachine, a: ApplyAction, message: Seq<char>) -> bool {
    &&& m.stage == ApplyStage::RollbackCheckout
    &&& m.branch == old_m.branch
    &&& m.failure matches Some(e) && apply_error_message(e) == message
    &&& command_is(a, seq!["checkout"@, "--force"@, old_m.restore_ref@], None)
}

pub open spec fn commit_message(issue_id: Seq<char>) -> Seq<char> {
    "fix("@ + issue_id + "): apply specprobe-generated patch"@
}

/// One step of the procedure, given the reply of the last command.
pub open spec fn step_ok(old_m: ApplyMachine, reply: Result<String, String>, m: ApplyMachine, a: ApplyAction) -> bool {
    match old_m.stage {
        ApplyStage::CheckRepository => match reply {
            Err(_) => m.stage == ApplyStage::Done && finished_with_error(
                a,
                apply_error_message(ApplyError::NotGitRepo(old_m.project)),
            ),
            Ok(_) => m.stage == ApplyStage::ReadHeadName && command_is(a, seq!["rev-parse"@, "--abbrev-ref"@, "HEAD"@], None),
        },
        ApplyStage::ReadHeadName => match reply {
            Err(d) => m.stage == ApplyStage::Done && finished_with_error(a, "git "@ + "rev-parse HEAD name"@ + " failed: "@ + d@),
            Ok(out) => {
                &&& m.head@ == trim(out@)
                &&& if trim(out@) == "HEAD"@ {
                    m.stage == ApplyStage::ReadHeadCommit && command_is(a, seq!["rev-parse"@, "HEAD"@], None)
                } else {
                    m.restore_ref@ == trim(out@) && entered_checks(old_m, m, a)
                }
            },
        },
        ApplyStage::ReadHeadCommit => match reply {
            Err(d) => m.stage == ApplyStage::Done && finished_with_error(a, "git "@ + "rev-parse HEAD"@ + " failed: "@ + d@),
            Ok(out) => m.restore_ref@ == trim(out@) && entered_checks(old_m, m, a),
        },
        ApplyStage::CheckClean => match reply {
            Err(d) => m.stage == ApplyStage::Done && finished_with_error(a, "git "@ + "status"@ + " failed: "@ + d@),
            Ok(out) => if trim(out@).len() > 0 {
                m.stage == ApplyStage::Done && finished_with_error(
                    a,
                    "the git working tree is not clean:\n"@ + trim(out@) + "\n(apply with --allow-dirty to override)"@,
                )
            } else {
                &&& m.stage == ApplyStage::CheckBranchFree
                &&& m.branch@ == fix_branch(old_m.issue_id@)
                &&& command_is(a, seq!["rev-parse"@, "--verify"@, "refs/heads/"@ + m.branch@], None)
            },
        },
        ApplyStage::CheckBranchFree => match reply {
            Ok(_) => m.stage == ApplyStage::Done && finished_with_error(
                a,
                "branch "@ + old_m.branch@ + " already exists; delete it or resolve the previous fix first"@,
            ),
            Err(_) => m.stage == ApplyStage::CreateBranch && command_is(a, seq!["checkout"@, "-b"@, old_m.branch@], None),
        },
        ApplyStage::CreateBranch => match reply {
            Err(d) => m.stage == ApplyStage::Done && finished_with_error(a, "git "@ + "checkout -b"@ + " failed: "@ + d@),
            Ok(_) => m.stage == ApplyStage::ApplyDiff && command_is(
                a,
                seq!["apply"@, "--recount"@, "--index"@, "-"@],
                Some(old_m.diff@),
            ),
        },
        ApplyStage::ApplyDiff => match reply {
            Err(d) => entered_rollback(old_m, m, a, "git "@ + "apply"@ + " failed: "@ + d@),
            Ok(_) => m.stage == ApplyStage::Commit && command_is(a, seq!["commit"@, "-m"@, commit_message(old_m.issue_id@)], None),
        },
        ApplyStage::Commit => match reply {
            Err(d) => entered_rollback(old_m, m, a, "git "@ + "commit"@ + " failed: "@ + d@),
            Ok(_) => m.stage == ApplyStage::ReadCommit && command_is(a, seq!["rev-parse"@, "--short"@, "HEAD"@], None),
        },
        ApplyStage::ReadCommit => match reply {
            Err(d) => entered_rollback(old_m, m, a, "git "@ + "rev-parse short HEAD"@ + " failed: "@ + d@),
            Ok(out) => m.stage == ApplyStage::Restore && m.commit@ == trim(out@) && command_is(
                a,
                seq!["checkout"@, old_m.restore_ref@],
                None,
            ),
        },
        ApplyStage::Restore => match reply {
            Err(d) => entered_rollback(old_m, m, a, "git "@ + "checkout restore"@ + " failed: "@ + d@),
            Ok(_) => m.stage == ApplyStage::Done && match a {
                ApplyAction::Finished(Ok(o)) => o.branch@ == old_m.branch@ && o.restored_branch@ == old_m.head@
                    && o.commit@ == old_m.commit@ && string_views(o.files@) == string_views(old_m.target_files@),
                _ => false,
            },
        },
        ApplyStage::RollbackCheckout => m.stage == ApplyStage::RollbackBranch && m.failure == old_m.failure
            && command_is(a, seq!["branch"@, "-D"@, old_m.branch@], None),
        ApplyStage::RollbackBranch => m.stage == ApplyStage::Done && a == ApplyAction::Finished(
            Err(old_m.failure.unwrap()),
        ),
        ApplyStage::Done => false,
    }
}

fn rollback(m: &mut ApplyMachine, error: ApplyError) -> (r: ApplyAction)
    ensures
        final(m).stage == ApplyStage::RollbackCheckout,
        final(m).failure == Some(error),
        final(m).project == old(m).project && final(m).issue_id == old(m).issue_id,
        final(m).diff == old(m).diff && final(m).target_files == old(m).target_files,
        final(m).allow_dirty == old(m).allow_dirty && final(m).head == old(m).head,
        final(m).restore_ref == old(m).restore_ref && final(m).branch == old(m).branch,
        final(m).commit == old(m).commit,
        command_is(r, seq!["checkout"@, "--force"@, old(m).restore_ref@], None),
{
    m.stage = ApplyStage::RollbackCheckout;
    m.failure = Some(error);
    let a = cmd3("checkout", "--force", m.restore_ref.as_str());
    a
}

fn begin_checks(m: &mut ApplyMachine) -> (r: ApplyAction)
    ensures
        entered_checks(*old(m), *final(m), r),
        final(m).failure == old(m).failure,
        final(m).head == old(m).head && final(m).restore_ref == old(m).restore_ref,
        final(m).issue_id == old(m).issue_id && final(m).allow_dirty == old(m).allow_dirty,
{
    if m.allow_dirty {
        let mut b = owned("specprobe/fix-");
        let lower = string_of(ascii_lower_chars(chars_of(m.issue_id.as_str()).as_slice()).as_slice());
        b.append(lower.as_str());
        m.branch = b;
        m.stage = ApplyStage::CheckBranchFree;
        let mut r = owned("refs/heads/");
        r.append(m.branch.as_str());
        cmd3("rev-parse", "--verify", r.as_str())
    } else {
        m.stage = ApplyStage::CheckClean;
        cmd2("status", "--porcelain")
    }
}

fn trimmed(s: &String) -> (r: String)
    ensures
        r@ == trim(s@),
{
    string_of(trim_chars(chars_of(s.as_str()).as_slice()).as_slice())
}

/// Takes the reply of the last command and gives the next action.
pub fn apply_step(m: &mut ApplyMachine, reply: Result<String, String>) -> (r: ApplyAction)
    requires
        old(m).wf(),
        old(m).stage != ApplyStage::Done,
    ensures
        final(m).wf(),
        step_ok(*old(m), reply, *final(m), r),
{
    match m.stage {
        ApplyStage::CheckRepository => match reply {
            Err(_) => {
                m.stage = ApplyStage::Done;
                ApplyAction::Finished(Err(ApplyError::NotGitRepo(m.project.clone())))
            },
            Ok(_) => {
                m.stage = ApplyStage::ReadHeadName;
                cmd3("rev-parse", "--abbrev-ref", "HEAD")
            },
        },
        ApplyStage::ReadHeadName => match reply {
            Err(d) => {
                m.stage = ApplyStage::Done;
                ApplyAction::Finished(Err(git_error("rev-parse HEAD name", d)))
            },
            Ok(out) => {
                m.head = trimmed(&out);
                if crate::text::str_eq(m.head.as_str(), "HEAD") {
                    m.stage = ApplyStage::ReadHeadCommit;
                    cmd2("rev-parse", "HEAD")
                } else {
                    m.restore_ref = m.head.clone();
                    begin_checks(m)
                }
            },
        },
        ApplyStage::ReadHeadCommit => match reply {
            Err(d) => {
                m.stage = ApplyStage::Done;
                ApplyAction::Finished(Err(git_error("rev-parse HEAD", d)))
            },
            Ok(out) => {
                m.restore_ref = trimmed(&out);
                begin_checks(m)
            },
        },
        ApplyStage::CheckClean => match reply {
            Err(d) => {
                m.stage = ApplyStage::Done;
                ApplyAction::Finished(Err(git_error("status", d)))
            },
            Ok(out) => {
                let t = trimmed(&out);
                if chars_of(t.as_str()).len() > 0 {
                    m.stage = ApplyStage::Done;
                    ApplyAction::Finished(Err(ApplyError::DirtyWorktree(t)))
                } else {
                    let mut b = owned("specprobe/fix-");
                    let lower = string_of(ascii_lower_chars(chars_of(m.issue_id.as_str()).as_slice()).as_slice());
                    b.append(lower.as_str());
                    m.branch = b;
                    m.stage = ApplyStage::CheckBranchFree;
                    let mut r = owned("refs/heads/");
                    r.append(m.branch.as_str());
                    cmd3("rev-parse", "--verify", r.as_str())
                }
            },
        },
        ApplyStage::CheckBranchFree => match reply {
            Ok(_) => {
                m.stage = ApplyStage::Done;
                ApplyAction::Finished(Err(ApplyError::BranchExists(m.branch.clone())))
            },
            Err(_) => {
                m.stage = ApplyStage::CreateBranch;
                cmd3("checkout", "-b", m.branch.as_str())
            },
        },
        ApplyStage::CreateBranch => match reply {
            Err(d) => {
                m.stage = ApplyStage::Done;
                ApplyAction::Finished(Err(git_error("checkout -b", d)))
            },
            Ok(_) => {
                m.stage = ApplyStage::ApplyDiff;
                let a = cmd4("apply", "--recount", "--index", "-");
                match a {
                    ApplyAction::RunGit(c) => ApplyAction::RunGit(GitCommand { args: c.args, stdin: Some(m.diff.clone()) }),
                    other => other,
                }
            },
        },
        ApplyStage::ApplyDiff => match reply {
            Err(d) => rollback(m, git_error("apply", d)),
            Ok(_) => {
                m.stage = ApplyStage::Commit;
                let mut msg = owned("fix(");
                msg.append(m.issue_id.as_str());
                msg.append("): apply specprobe-generated patch");
                cmd3("commit", "-m", msg.as_str())
            },
        },
        ApplyStage::Commit => match reply {
            Err(d) => rollback(m, git_error("commit", d)),
            Ok(_) => {
                m.stage = ApplyStage::ReadCommit;
                cmd3("rev-parse", "--short", "HEAD")
            },
        },
        ApplyStage::ReadCommit => match reply {
            Err(d) => rollback(m, git_error("rev-parse short HEAD", d)),
            Ok(out) => {
                m.commit = trimmed(&out);
                m.stage = ApplyStage::Restore;
                cmd2("checkout", m.restore_ref.as_str())
            },
        },
        ApplyStage::Restore => match reply {
            Err(d) => rollback(m, git_error("checkout restore", d)),
            Ok(_) => {
                m.stage = ApplyStage::Done;
                ApplyAction::Finished(
                    Ok(
                        ApplyOutcome {
                            branch: m.branch.clone(),
                            restored_branch: m.head.clone(),
                            commit: m.commit.clone(),
                            files: crate::text::copy_strings(&m.target_files),
                        },
                    ),
                )
            },
        },
        ApplyStage::RollbackCheckout => {
            m.stage = ApplyStage::RollbackBranch;
            cmd3("branch", "-D", m.branch.as_str())
        },
        ApplyStage::RollbackBranch => {
            m.stage = ApplyStage::Done;
            let f = m.failure.take();
            match f {
                Some(e) => ApplyAction::Finished(Err(e)),
                None => ApplyAction::Finished(Err(git_error("rollback", String::new()))),
            }
        },
        ApplyStage::Done => ApplyAction::Finished(Err(git_error("apply", String::new()))),
    }
}


/// A failure at any step after the fix branch was created rolls back: the
/// next command checks the original reference out again (forcibly), the one
/// after it deletes the fix branch, and then the procedure ends with the
/// failure, whatever those two commands answered.
pub proof fn lemma_failure_after_branch_rolls_back(
    m0: ApplyMachine,
    reply0: Result<String, String>,
    m1: ApplyMachine,
    a1: ApplyAction,
    reply1: Result<String, String>,
    m2: ApplyMachine,
    a2: ApplyAction,
    reply2: Result<String, String>,
    m3: ApplyMachine,
    a3: ApplyAction,
)
    requires
        m0.stage == ApplyStage::ApplyDiff || m0.stage == ApplyStage::Commit || m0.stage == ApplyStage::ReadCommit
            || m0.stage == ApplyStage::Restore,
        reply0 is Err,
        step_ok(m0, reply0, m1, a1),
        step_ok(m1, reply1, m2, a2),
        step_ok(m2, reply2, m3, a3),
    ensures
        command_is(a1, seq!["checkout"@, "--force"@, m0.restore_ref@], None),
        command_is(a2, seq!["branch"@, "-D"@, m0.branch@], None),
        m3.stage == ApplyStage::Done,
        a3 matches ApplyAction::Finished(Err(e)) && Some(e) == m1.failure,
{
}

} // verus!
