//! What a run's archive records: the run's summary row and one row per issue.
//! Writing them to the database and the report to disk is left to the
//! caller.
use vstd::prelude::*;
use crate::paths::{forward_slashes, normalize_path};
use crate::requirements::engine_name;
use crate::review::{approval_name, issue_category_name, issue_severity_name, Issue, ReviewReport};
use crate::text::{opt_string_view, owned, signed_decimal, signed_decimal_string};

verus! {

/// The index entry of one archived run.
#[derive(Debug)]
pub struct RunSummary {
    pub id: String,
    pub created_at_ms: i64,
    pub project_root: String,
    pub base_url: String,
    pub engine: String,
    pub executed: bool,
    pub requirements: usize,
    pub issues: usize,
    pub high: usize,
    pub report_path: String,
}

/// An archived issue.
#[derive(Debug)]
pub struct StoredIssue {
    pub issue_id: String,
    pub severity: String,
    pub category: String,
    pub title: String,
    pub requirement: Option<String>,
    pub approval: String,
}

pub open spec fn run_id_spec(created_at_ms: i64) -> Seq<char> {
    "run-"@ + signed_decimal(created_at_ms as int)
}

/// The id of a run created at `created_at_ms`.
pub fn run_id(created_at_ms: i64) -> (r: String)
    ensures
        r@ == run_id_spec(created_at_ms),
{
    let mut r = owned("run-");
    let d = signed_decimal_string(created_at_ms);
    r.append(d.as_str());
    r
}

/// The summary of a run: its id and time, where it ran, the engine and the
/// review's counts, and where its report lies (with forward slashes).
pub fn summarize_run(
    created_at_ms: i64,
    project_root: &str,
    base_url: &str,
    executed: bool,
    report: &ReviewReport,
    report_path: &str,
) -> (r: RunSummary)
    ensures
        r.id@ == run_id_spec(created_at_ms),
        r.created_at_ms == created_at_ms,
        r.project_root@ == project_root@,
        r.base_url@ == base_url@,
        r.engine@ == engine_name(report.requirement_report.engine),
        r.executed == executed,
        r.requirements == report.summary.requirements,
        r.issues == report.summary.issues,
        r.high == report.summary.high,
        r.report_path@ == forward_slashes(report_path@),
{
    RunSummary {
        id: run_id(created_at_ms),
        created_at_ms,
        project_root: owned(project_root),
        base_url: owned(base_url),
        engine: owned(report.requirement_report.engine.name()),
        executed,
        requirements: report.summary.requirements,
        issues: report.summary.issues,
        high: report.summary.high,
        report_path: normalize_path(report_path),
    }
}

pub struct StoredIssueView {
    pub issue_id: Seq<char>,
    pub severity: Seq<char>,
    pub category: Seq<char>,
    pub title: Seq<char>,
    pub requirement: Option<Seq<char>>,
    pub approval: Seq<char>,
}

impl View for StoredIssue {
    type V = StoredIssueView;

    open spec fn view(&self) -> StoredIssueView {
        StoredIssueView {
            issue_id: self.issue_id@,
            severity: self.severity@,
            category: self.category@,
            title: self.title@,
            requirement: opt_string_view(self.requirement),
            approval: self.approval@,
        }
    }
}

/// The row an issue is archived as.
pub open spec fn stored_issue(i: Issue) -> StoredIssueView {
    StoredIssueView {
        issue_id: i.id@,
        severity: issue_severity_name(i.severity),
        category: issue_category_name(i.category),
        title: i.title@,
        requirement: opt_string_view(i.related_requirement),
        approval: approval_name(i.approval),
    }
}

/// The rows of a review's issues, in the report's order.
pub fn issue_rows(report: &ReviewReport) -> (r: Vec<StoredIssue>)
    ensures
        r@.len() == report.issues@.len(),
        forall|i: int| 0 <= i < r@.len() ==> (#[trigger] r@[i])@ == stored_issue(report.issues@[i]),
{
    let mut out: Vec<StoredIssue> = Vec::new();
    let mut i: usize = 0;
    while i < report.issues.len()
        invariant
            i <= report.issues@.len(),
            out@.len() == i,
            forall|j: int| 0 <= j < i ==> (#[trigger] out@[j])@ == stored_issue(report.issues@[j]),
        decreases report.issues.len() - i,
    {
        let issue = &report.issues[i];
        let requirement = match &issue.related_requirement {
            Some(r) => Some(r.clone()),
            None => None,
        };
        out.push(
            StoredIssue {
                issue_id: issue.id.clone(),
                severity: owned(issue.severity.name()),
                category: owned(issue.category.name()),
                title: issue.title.clone(),
                requirement,
                approval: owned(issue.approval.name()),
            },
        );
        i = i + 1;
    }
    out
}


/// What identifies an issue across runs: its category, the requirement it
/// concerns (empty when none) and its title, separated by `|`.
pub open spec fn fingerprint_spec(category: Seq<char>, requirement: Option<Seq<char>>, title: Seq<char>) -> Seq<char> {
    category + "|"@ + match requirement {
        Some(r) => r,
        None => Seq::empty(),
    } + "|"@ + title
}

/// The fingerprint of an issue, by which a fix is checked against a later run.
pub fn issue_fingerprint(category: &str, requirement: &Option<String>, title: &str) -> (r: String)
    ensures
        r@ == fingerprint_spec(category@, opt_string_view(*requirement), title@),
{
    let mut r = owned(category);
    r.append("|");
    match requirement {
        Some(q) => r.append(q.as_str()),
        None => {},
    }
    r.append("|");
    r.append(title);
    r
}

} // verus!
