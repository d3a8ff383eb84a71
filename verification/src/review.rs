//! Review reports: evidence gathered from the requirement analysis, the
//! launch and the browser run, the issues it shows, and their summary.
//! Evidence is numbered `EV-001`, `EV-002`, ... and issues `ISSUE-001`, ...
//! in the order they are found; every new issue awaits a decision.
use vstd::prelude::*;

use crate::browser::{
    browser_error_message, BrowserDiagnostic, BrowserDiagnosticSeverity, BrowserError,
    BrowserRunReport,
};
use crate::requirements::{
    DiagnosticSeverity, QualityFlagKind, QualityFlagView, Requirement, RequirementDiagnosticView,
    RequirementQualityFlag, RequirementReport, RequirementReportView, RequirementView,
};
use crate::runtime::{
    adapter_name, runtime_error_message, LaunchDiagnostic, LaunchReport,
    RuntimeDiagnosticSeverity, RuntimeError,
};
use crate::text::{
    chars_of, decimal, decimal_string, join, numbered, numbered_string, opt_string_view, owned,
    signed_decimal, signed_decimal_string, string_of, trim, trim_chars,
};
use crate::paths::{display_path, display_path_spec};

verus! {

/// What produced a piece of evidence.
#[derive(Clone, Copy, PartialEq, Eq, Structural, Debug)]
pub enum ReviewEvidenceKind {
    RequirementQuality,
    RequirementDiagnostic,
    LaunchCommand,
    ProcessOutput,
    BrowserPlan,
    PageProbe,
    BrowserDiagnostic,
    ReviewDiagnostic,
}

pub open spec fn evidence_kind_name(k: ReviewEvidenceKind) -> Seq<char> {
    match k {
        ReviewEvidenceKind::RequirementQuality => "requirement-quality"@,
        ReviewEvidenceKind::RequirementDiagnostic => "requirement-diagnostic"@,
        ReviewEvidenceKind::LaunchCommand => "launch-command"@,
        ReviewEvidenceKind::ProcessOutput => "process-output"@,
        ReviewEvidenceKind::BrowserPlan => "browser-plan"@,
        ReviewEvidenceKind::PageProbe => "page-probe"@,
        ReviewEvidenceKind::BrowserDiagnostic => "browser-diagnostic"@,
        ReviewEvidenceKind::ReviewDiagnostic => "review-diagnostic"@,
    }
}

impl ReviewEvidenceKind {
    pub fn name(self) -> (r: &'static str)
        ensures
            r@ == evidence_kind_name(self),
    {
        match self {
            ReviewEvidenceKind::RequirementQuality => "requirement-quality",
            ReviewEvidenceKind::RequirementDiagnostic => "requirement-diagnostic",
            ReviewEvidenceKind::LaunchCommand => "launch-command",
            ReviewEvidenceKind::ProcessOutput => "process-output",
            ReviewEvidenceKind::BrowserPlan => "browser-plan",
            ReviewEvidenceKind::PageProbe => "page-probe",
            ReviewEvidenceKind::BrowserDiagnostic => "browser-diagnostic",
            ReviewEvidenceKind::ReviewDiagnostic => "review-diagnostic",
        }
    }
}

#[derive(Clone, Copy, PartialEq, Eq, Structural, Debug)]
pub enum EvidenceStatus {
    Pass,
    Fail,
    Warning,
    Info,
    Skipped,
}

pub open spec fn evidence_status_name(s: EvidenceStatus) -> Seq<char> {
    match s {
        EvidenceStatus::Pass => "pass"@,
        EvidenceStatus::Fail => "fail"@,
        EvidenceStatus::Warning => "warning"@,
        EvidenceStatus::Info => "info"@,
        EvidenceStatus::Skipped => "skipped"@,
    }
}

impl EvidenceStatus {
    pub fn name(self) -> (r: &'static str)
        ensures
            r@ == evidence_status_name(self),
    {
        match self {
            EvidenceStatus::Pass => "pass",
            EvidenceStatus::Fail => "fail",
            EvidenceStatus::Warning => "warning",
            EvidenceStatus::Info => "info",
            EvidenceStatus::Skipped => "skipped",
        }
    }
}

#[derive(Clone, Copy, PartialEq, Eq, Structural, Debug)]
pub enum IssueSeverity {
    Critical,
    High,
    Medium,
    Low,
    Info,
}

pub open spec fn issue_severity_name(s: IssueSeverity) -> Seq<char> {
    match s {
        IssueSeverity::Critical => "critical"@,
        IssueSeverity::High => "high"@,
        IssueSeverity::Medium => "medium"@,
        IssueSeverity::Low => "low"@,
        IssueSeverity::Info => "info"@,
    }
}

impl IssueSeverity {
    pub fn name(self) -> (r: &'static str)
        ensures
            r@ == issue_severity_name(self),
    {
        match self {
            IssueSeverity::Critical => "critical",
            IssueSeverity::High => "high",
            IssueSeverity::Medium => "medium",
            IssueSeverity::Low => "low",
            IssueSeverity::Info => "info",
        }
    }
}

#[derive(Clone, Copy, PartialEq, Eq, Structural, Debug)]
pub enum IssueCategory {
    RequirementGap,
    MissingExecutionPath,
    RuntimeFailure,
    BrowserFailure,
    MissingEvidence,
    ReviewConfiguration,
}

pub open spec fn issue_category_name(c: IssueCategory) -> Seq<char> {
    match c {
        IssueCategory::RequirementGap => "requirement-gap"@,
        IssueCategory::MissingExecutionPath => "missing-execution-path"@,
        IssueCategory::RuntimeFailure => "runtime-failure"@,
        IssueCategory::BrowserFailure => "browser-failure"@,
        IssueCategory::MissingEvidence => "missing-evidence"@,
        IssueCategory::ReviewConfiguration => "review-configuration"@,
    }
}

impl IssueCategory {
    pub fn name(self) -> (r: &'static str)
        ensures
            r@ == issue_category_name(self),
    {
        match self {
            IssueCategory::RequirementGap => "requirement-gap",
            IssueCategory::MissingExecutionPath => "missing-execution-path",
            IssueCategory::RuntimeFailure => "runtime-failure",
            IssueCategory::BrowserFailure => "browser-failure",
            IssueCategory::MissingEvidence => "missing-evidence",
            IssueCategory::ReviewConfiguration => "review-configuration",
        }
    }
}

/// The decision taken on an issue.
#[derive(Clone, Copy, PartialEq, Eq, Structural, Debug)]
pub enum ApprovalState {
    Pending,
    Accepted,
    Rejected,
    Ignored,
}

pub open spec fn approval_name(a: ApprovalState) -> Seq<char> {
    match a {
        ApprovalState::Pending => "pending"@,
        ApprovalState::Accepted => "accepted"@,
        ApprovalState::Rejected => "rejected"@,
        ApprovalState::Ignored => "ignored"@,
    }
}

impl ApprovalState {
    pub fn name(self) -> (r: &'static str)
        ensures
            r@ == approval_name(self),
    {
        match self {
            ApprovalState::Pending => "pending",
            ApprovalState::Accepted => "accepted",
            ApprovalState::Rejected => "rejected",
            ApprovalState::Ignored => "ignored",
        }
    }
}

#[derive(Debug)]
pub struct EvidenceItem {
    pub id: String,
    pub kind: ReviewEvidenceKind,
    pub status: EvidenceStatus,
    pub source: String,
    pub related_requirement: Option<String>,
    pub summary: String,
    pub detail: String,
}

#[derive(Debug)]
pub struct Issue {
    pub id: String,
    pub severity: IssueSeverity,
    pub category: IssueCategory,
    pub title: String,
    pub related_requirement: Option<String>,
    pub expected: String,
    pub actual: String,
    pub evidence_ids: Vec<String>,
    pub recommendation: String,
    pub approval: ApprovalState,
}

/// Options of a review run.
#[derive(Debug)]
pub struct ReviewOptions {
    pub project_path: String,
    pub base_url: String,
    pub execute: bool,
    pub skip_launch: bool,
    pub skip_browser: bool,
    pub launch_timeout_secs: u64,
    pub browser_timeout_secs: u64,
}

#[derive(Debug)]
pub struct ReviewRunConfig {
    pub requirements_source: String,
    pub project_root: String,
    pub base_url: String,
    pub execute: bool,
    pub launch_enabled: bool,
    pub browser_enabled: bool,
    pub launch_timeout_secs: u64,
    pub browser_timeout_secs: u64,
}

#[derive(Debug)]
pub struct ReviewSummary {
    pub requirements: usize,
    pub test_cases: usize,
    pub evidence_items: usize,
    pub issues: usize,
    pub critical: usize,
    pub high: usize,
    pub medium: usize,
    pub low: usize,
    pub info: usize,
    pub pending_decisions: usize,
}

#[derive(Debug)]
pub struct ReviewReport {
    pub config: ReviewRunConfig,
    pub summary: ReviewSummary,
    pub requirement_report: RequirementReport,
    pub launch_report: Option<LaunchReport>,
    pub browser_report: Option<BrowserRunReport>,
    pub evidence: Vec<EvidenceItem>,
    pub issues: Vec<Issue>,
}

/// Why a review could not be produced.
#[derive(Debug)]
pub enum ReviewError {
    Requirements(crate::requirements::RequirementError),
}

pub open spec fn review_error_message(e: ReviewError) -> Seq<char> {
    match e {
        ReviewError::Requirements(r) => crate::requirements::requirement_error_message(r),
    }
}

impl ReviewError {
    /// The error's message.
    pub fn message(&self) -> (r: String)
        ensures
            r@ == review_error_message(*self),
    {
        match self {
            ReviewError::Requirements(e) => e.message(),
        }
    }
}

// ---------------------------------------------------------------------------
// The builder
// ---------------------------------------------------------------------------

/// A piece of evidence without its number.
pub struct EvidenceEntry {
    pub kind: ReviewEvidenceKind,
    pub status: EvidenceStatus,
    pub source: Seq<char>,
    pub related_requirement: Option<Seq<char>>,
    pub summary: Seq<char>,
    pub detail: Seq<char>,
}

/// An issue without its number and decision.
pub struct IssueEntry {
    pub severity: IssueSeverity,
    pub category: IssueCategory,
    pub title: Seq<char>,
    pub related_requirement: Option<Seq<char>>,
    pub expected: Seq<char>,
    pub actual: Seq<char>,
    pub evidence_ids: Seq<Seq<char>>,
    pub recommendation: Seq<char>,
}

pub open spec fn evidence_entry(e: EvidenceItem) -> EvidenceEntry {
    EvidenceEntry {
        kind: e.kind,
        status: e.status,
        source: e.source@,
        related_requirement: opt_string_view(e.related_requirement),
        summary: e.summary@,
        detail: e.detail@,
    }
}

pub open spec fn issue_entry(i: Issue) -> IssueEntry {
    IssueEntry {
        severity: i.severity,
        category: i.category,
        title: i.title@,
        related_requirement: opt_string_view(i.related_requirement),
        expected: i.expected@,
        actual: i.actual@,
        evidence_ids: i.evidence_ids@.map_values(|s: String| s@),
        recommendation: i.recommendation@,
    }
}

pub open spec fn evidence_entries(v: Seq<EvidenceItem>) -> Seq<EvidenceEntry> {
    v.map_values(|e: EvidenceItem| evidence_entry(e))
}

pub open spec fn issue_entries(v: Seq<Issue>) -> Seq<IssueEntry> {
    v.map_values(|i: Issue| issue_entry(i))
}

/// The id of the `n`-th piece of evidence (counting from one).
pub open spec fn evidence_id(n: nat) -> Seq<char> {
    numbered("EV-"@, n)
}

/// The id of the `n`-th issue (counting from one).
pub open spec fn issue_id(n: nat) -> Seq<char> {
    numbered("ISSUE-"@, n)
}

/// The ids of `count` pieces of evidence after the first `base`.
pub open spec fn evidence_ids_after(base: nat, count: nat) -> Seq<Seq<char>> {
    Seq::new(count, |k: int| evidence_id((base + k + 1) as nat))
}

/// Numbered evidence and issues of one review.
#[derive(Debug)]
pub struct ReviewBuilder {
    pub evidence: Vec<EvidenceItem>,
    pub issues: Vec<Issue>,
}

/// The fields of an issue that its finder decides.
#[derive(Debug)]
pub struct IssueDraft {
    pub severity: IssueSeverity,
    pub category: IssueCategory,
    pub title: String,
    pub related_requirement: Option<String>,
    pub expected: String,
    pub actual: String,
    pub evidence_ids: Vec<String>,
    pub recommendation: String,
}

pub open spec fn draft_entry(d: IssueDraft) -> IssueEntry {
    IssueEntry {
        severity: d.severity,
        category: d.category,
        title: d.title@,
        related_requirement: opt_string_view(d.related_requirement),
        expected: d.expected@,
        actual: d.actual@,
        evidence_ids: d.evidence_ids@.map_values(|s: String| s@),
        recommendation: d.recommendation@,
    }
}

impl ReviewBuilder {
    /// Evidence and issues carry their numbers, and issues await a decision.
    pub open spec fn wf(&self) -> bool {
        &&& forall|i: int|
            0 <= i < self.evidence@.len() ==> (#[trigger] self.evidence@[i]).id@ == evidence_id(
                (i + 1) as nat,
            )
        &&& forall|i: int|
            0 <= i < self.issues@.len() ==> (#[trigger] self.issues@[i]).id@ == issue_id((i + 1) as nat)
                && self.issues@[i].approval == ApprovalState::Pending
    }

    pub fn new() -> (r: ReviewBuilder)
        ensures
            r.wf(),
            r.evidence@.len() == 0,
            r.issues@.len() == 0,
    {
        ReviewBuilder { evidence: Vec::new(), issues: Vec::new() }
    }

    /// Records a piece of evidence under the next number and returns its id.
    pub fn add_evidence(
        &mut self,
        kind: ReviewEvidenceKind,
        status: EvidenceStatus,
        source: String,
        related_requirement: Option<String>,
        summary: String,
        detail: String,
    ) -> (id: String)
        requires
            old(self).wf(),
        ensures
            final(self).wf(),
            evidence_entries(final(self).evidence@) == evidence_entries(old(self).evidence@).push(
                EvidenceEntry {
                    kind,
                    status,
                    source: source@,
                    related_requirement: opt_string_view(related_requirement),
                    summary: summary@,
                    detail: detail@,
                },
            ),
            final(self).issues@ == old(self).issues@,
            final(self).evidence@.len() == old(self).evidence@.len() + 1,
            id@ == evidence_id((old(self).evidence@.len() + 1) as nat),
    {
        let n = self.evidence.len() as u128 + 1;
        let id = numbered_string("EV-", n);
        let ghost before = self.evidence@;
        self.evidence.push(
            EvidenceItem {
                id: id.clone(),
                kind,
                status,
                source,
                related_requirement,
                summary,
                detail,
            },
        );
        assert(evidence_entries(self.evidence@) =~= evidence_entries(before).push(
            evidence_entry(self.evidence@.last()),
        ));
        id
    }

    /// Records an issue under the next number, awaiting a decision.
    pub fn add_issue(&mut self, draft: IssueDraft)
        requires
            old(self).wf(),
        ensures
            final(self).wf(),
            issue_entries(final(self).issues@) == issue_entries(old(self).issues@).push(draft_entry(draft)),
            final(self).evidence@ == old(self).evidence@,
    {
        let n = self.issues.len() as u128 + 1;
        let id = numbered_string("ISSUE-", n);
        let ghost before = self.issues@;
        let ghost d = draft;
        self.issues.push(
            Issue {
                id,
                severity: draft.severity,
                category: draft.category,
                title: draft.title,
                related_requirement: draft.related_requirement,
                expected: draft.expected,
                actual: draft.actual,
                evidence_ids: draft.evidence_ids,
                recommendation: draft.recommendation,
                approval: ApprovalState::Pending,
            },
        );
        assert(issue_entry(self.issues@.last()) == draft_entry(d));
        assert(issue_entries(self.issues@) =~= issue_entries(before).push(draft_entry(d)));
    }
}

// ---------------------------------------------------------------------------
// Requirement evidence
// ---------------------------------------------------------------------------

pub const NO_REQUIREMENTS_SUMMARY: &'static str = "No requirements were extracted.";

pub const NO_REQUIREMENTS_DETAIL: &'static str =
    "SpecProbe cannot build meaningful tests until at least one requirement is available.";

pub const NO_REQUIREMENTS_TITLE: &'static str = "未提取到可测试需求";

pub const NO_REQUIREMENTS_EXPECTED: &'static str = "需求文档应该包含可识别、可验证的软件需求。";

pub const NO_REQUIREMENTS_ACTUAL: &'static str = "当前输入没有产生任何结构化需求。";

pub const NO_REQUIREMENTS_RECOMMENDATION: &'static str =
    "补充带有“必须、应该、支持、显示、返回”等可识别表达的需求条目。";

pub const PARSER_DIAGNOSTIC_DETAIL: &'static str = "Requirement parser diagnostic.";

pub const QUALITY_TITLE_SUFFIX: &'static str = " 的验收条件不够明确";

pub const QUALITY_EXPECTED: &'static str = "需求应该能被确定性测试步骤验证，并产生明确的运行证据。";

/// The severity of an issue raised by a quality flag.
pub open spec fn severity_for_quality_flag_spec(kind: QualityFlagKind) -> IssueSeverity {
    match kind {
        QualityFlagKind::VagueLanguage => IssueSeverity::High,
        QualityFlagKind::TooBroad => IssueSeverity::High,
        QualityFlagKind::MissingObservableResult => IssueSeverity::Medium,
    }
}

pub fn severity_for_quality_flag(kind: QualityFlagKind) -> (r: IssueSeverity)
    ensures
        r == severity_for_quality_flag_spec(kind),
{
    match kind {
        QualityFlagKind::VagueLanguage => IssueSeverity::High,
        QualityFlagKind::TooBroad => IssueSeverity::High,
        QualityFlagKind::MissingObservableResult => IssueSeverity::Medium,
    }
}

pub open spec fn recommendation_for_quality_flag_spec(kind: QualityFlagKind) -> Seq<char> {
    match kind {
        QualityFlagKind::VagueLanguage => "把模糊词替换为可观察标准，例如具体页面元素、响应字段、时间阈值、错误提示或状态变化。"@,
        QualityFlagKind::MissingObservableResult => "补充用户完成操作后应看到的输出、状态变化、日志记录或接口响应，方便自动测试断言。"@,
        QualityFlagKind::TooBroad => "将该需求拆成多个独立需求，每个需求只描述一个动作、一个结果和一组验收证据。"@,
    }
}

/// What to do about a quality flag.
pub fn recommendation_for_quality_flag(kind: QualityFlagKind) -> (r: &'static str)
    ensures
        r@ == recommendation_for_quality_flag_spec(kind),
{
    match kind {
        QualityFlagKind::VagueLanguage => "把模糊词替换为可观察标准，例如具体页面元素、响应字段、时间阈值、错误提示或状态变化。",
        QualityFlagKind::MissingObservableResult => "补充用户完成操作后应看到的输出、状态变化、日志记录或接口响应，方便自动测试断言。",
        QualityFlagKind::TooBroad => "将该需求拆成多个独立需求，每个需求只描述一个动作、一个结果和一组验收证据。",
    }
}

pub open spec fn diagnostic_status(s: DiagnosticSeverity) -> EvidenceStatus {
    match s {
        DiagnosticSeverity::Info => EvidenceStatus::Info,
        DiagnosticSeverity::Warning => EvidenceStatus::Warning,
    }
}

/// Where a requirement was found, as `path:line`.
pub open spec fn requirement_location(r: RequirementView) -> Seq<char> {
    r.source.path + ":"@ + decimal(r.source.line as nat)
}

pub open spec fn quality_evidence(r: RequirementView, f: QualityFlagView) -> EvidenceEntry {
    EvidenceEntry {
        kind: ReviewEvidenceKind::RequirementQuality,
        status: EvidenceStatus::Warning,
        source: requirement_location(r),
        related_requirement: Some(r.id),
        summary: f.message,
        detail: r.description,
    }
}

/// The issue of a quality flag whose evidence is the `n`-th.
pub open spec fn quality_issue(r: RequirementView, f: QualityFlagView, n: nat) -> IssueEntry {
    IssueEntry {
        severity: severity_for_quality_flag_spec(f.kind),
        category: IssueCategory::RequirementGap,
        title: r.id + QUALITY_TITLE_SUFFIX@,
        related_requirement: Some(r.id),
        expected: QUALITY_EXPECTED@,
        actual: f.message,
        evidence_ids: seq![evidence_id(n)],
        recommendation: recommendation_for_quality_flag_spec(f.kind),
    }
}

/// Every quality flag with its requirement, requirement by requirement.
pub open spec fn flag_pairs(reqs: Seq<RequirementView>) -> Seq<(RequirementView, QualityFlagView)>
    decreases reqs.len(),
{
    if reqs.len() == 0 {
        Seq::empty()
    } else {
        flag_pairs(reqs.drop_last()) + reqs.last().quality_flags.map_values(
            |f: QualityFlagView| (reqs.last(), f),
        )
    }
}

pub open spec fn no_requirements_evidence(rep: RequirementReportView) -> Seq<EvidenceEntry> {
    if rep.requirements.len() == 0 {
        seq![
            EvidenceEntry {
                kind: ReviewEvidenceKind::RequirementDiagnostic,
                status: EvidenceStatus::Fail,
                source: rep.source,
                related_requirement: None,
                summary: NO_REQUIREMENTS_SUMMARY@,
                detail: NO_REQUIREMENTS_DETAIL@,
            },
        ]
    } else {
        Seq::empty()
    }
}

pub open spec fn parser_diagnostic_evidence(source: Seq<char>, d: RequirementDiagnosticView) -> EvidenceEntry {
    EvidenceEntry {
        kind: ReviewEvidenceKind::RequirementDiagnostic,
        status: diagnostic_status(d.severity),
        source,
        related_requirement: None,
        summary: d.message,
        detail: PARSER_DIAGNOSTIC_DETAIL@,
    }
}

/// The evidence of the requirement analysis: a failure when nothing was
/// extracted, each parser diagnostic, and each quality flag.
pub open spec fn requirement_evidence(rep: RequirementReportView) -> Seq<EvidenceEntry> {
    no_requirements_evidence(rep) + rep.diagnostics.map_values(
        |d: RequirementDiagnosticView| parser_diagnostic_evidence(rep.source, d),
    ) + flag_pairs(rep.requirements).map_values(
        |p: (RequirementView, QualityFlagView)| quality_evidence(p.0, p.1),
    )
}

/// The issues of the requirement analysis, after `base` pieces of evidence:
/// one when nothing was extracted, one per quality flag.
pub open spec fn requirement_issues(rep: RequirementReportView, base: nat) -> Seq<IssueEntry> {
    let first = if rep.requirements.len() == 0 {
        seq![
            IssueEntry {
                severity: IssueSeverity::High,
                category: IssueCategory::RequirementGap,
                title: NO_REQUIREMENTS_TITLE@,
                related_requirement: None,
                expected: NO_REQUIREMENTS_EXPECTED@,
                actual: NO_REQUIREMENTS_ACTUAL@,
                evidence_ids: seq![evidence_id(base + 1)],
                recommendation: NO_REQUIREMENTS_RECOMMENDATION@,
            },
        ]
    } else {
        Seq::<IssueEntry>::empty()
    };
    let q = base + no_requirements_evidence(rep).len() + rep.diagnostics.len();
    first + flag_pairs(rep.requirements).map(
        |k: int, p: (RequirementView, QualityFlagView)| quality_issue(p.0, p.1, (q + k + 1) as nat),
    )
}

fn location_text(r: &Requirement) -> (s: String)
    ensures
        s@ == requirement_location(r@),
{
    let mut s = r.source.path.clone();
    s.append(":");
    let n = decimal_string(r.source.line as u128);
    s.append(n.as_str());
    s
}

/// Records a quality flag as evidence and as an issue.
pub fn collect_quality_flag(builder: &mut ReviewBuilder, requirement: &Requirement, flag: &RequirementQualityFlag)
    requires
        old(builder).wf(),
    ensures
        final(builder).wf(),
        evidence_entries(final(builder).evidence@) == evidence_entries(old(builder).evidence@).push(
            quality_evidence(requirement@, flag@),
        ),
        issue_entries(final(builder).issues@) == issue_entries(old(builder).issues@).push(
            quality_issue(requirement@, flag@, (old(builder).evidence@.len() + 1) as nat),
        ),
        final(builder).evidence@.len() == old(builder).evidence@.len() + 1,
{
    let ev_id = builder.add_evidence(
        ReviewEvidenceKind::RequirementQuality,
        EvidenceStatus::Warning,
        location_text(requirement),
        Some(requirement.id.clone()),
        flag.message.clone(),
        requirement.description.clone(),
    );
    let mut title = requirement.id.clone();
    title.append(QUALITY_TITLE_SUFFIX);
    let mut ids: Vec<String> = Vec::new();
    ids.push(ev_id);
    let draft = IssueDraft {
        severity: severity_for_quality_flag(flag.kind),
        category: IssueCategory::RequirementGap,
        title,
        related_requirement: Some(requirement.id.clone()),
        expected: owned(QUALITY_EXPECTED),
        actual: flag.message.clone(),
        evidence_ids: ids,
        recommendation: owned(recommendation_for_quality_flag(flag.kind)),
    };
    assert(draft_entry(draft).evidence_ids =~= seq![evidence_id((old(builder).evidence@.len() + 1) as nat)]);
    builder.add_issue(draft);
}

/// Records the evidence and issues of the requirement analysis.
pub fn collect_requirement_evidence(builder: &mut ReviewBuilder, report: &RequirementReport)
    requires
        old(builder).wf(),
    ensures
        final(builder).wf(),
        evidence_entries(final(builder).evidence@) == evidence_entries(old(builder).evidence@)
            + requirement_evidence(report@),
        issue_entries(final(builder).issues@) == issue_entries(old(builder).issues@)
            + requirement_issues(report@, old(builder).evidence@.len()),
{
    let ghost rep = report@;
    let ghost e0 = evidence_entries(builder.evidence@);
    let ghost i0 = issue_entries(builder.issues@);
    let ghost base = builder.evidence@.len();
    if report.requirements.len() == 0 {
        let ev_id = builder.add_evidence(
            ReviewEvidenceKind::RequirementDiagnostic,
            EvidenceStatus::Fail,
            report.source.clone(),
            None,
            owned(NO_REQUIREMENTS_SUMMARY),
            owned(NO_REQUIREMENTS_DETAIL),
        );
        let mut ids: Vec<String> = Vec::new();
        ids.push(ev_id);
        let draft = IssueDraft {
            severity: IssueSeverity::High,
            category: IssueCategory::RequirementGap,
            title: owned(NO_REQUIREMENTS_TITLE),
            related_requirement: None,
            expected: owned(NO_REQUIREMENTS_EXPECTED),
            actual: owned(NO_REQUIREMENTS_ACTUAL),
            evidence_ids: ids,
            recommendation: owned(NO_REQUIREMENTS_RECOMMENDATION),
        };
        assert(draft_entry(draft).evidence_ids =~= seq![evidence_id((base + 1) as nat)]);
        builder.add_issue(draft);
    }
    let ghost first_iss = if rep.requirements.len() == 0 {
        seq![
            IssueEntry {
                severity: IssueSeverity::High,
                category: IssueCategory::RequirementGap,
                title: NO_REQUIREMENTS_TITLE@,
                related_requirement: None,
                expected: NO_REQUIREMENTS_EXPECTED@,
                actual: NO_REQUIREMENTS_ACTUAL@,
                evidence_ids: seq![evidence_id(base + 1)],
                recommendation: NO_REQUIREMENTS_RECOMMENDATION@,
            },
        ]
    } else {
        Seq::<IssueEntry>::empty()
    };
    assert(evidence_entries(builder.evidence@) =~= e0 + no_requirements_evidence(rep));
    assert(issue_entries(builder.issues@) =~= i0 + first_iss);
    let ghost e1 = evidence_entries(builder.evidence@);
    let mut i: usize = 0;
    while i < report.diagnostics.len()
        invariant
            builder.wf(),
            rep == report@,
            i <= report.diagnostics@.len(),
            evidence_entries(builder.evidence@) == e1 + rep.diagnostics.take(i as int).map_values(
                |d: RequirementDiagnosticView| parser_diagnostic_evidence(rep.source, d),
            ),
            issue_entries(builder.issues@) == i0 + first_iss,
        decreases report.diagnostics.len() - i,
    {
        let d = &report.diagnostics[i];
        let status = match d.severity {
            DiagnosticSeverity::Info => EvidenceStatus::Info,
            DiagnosticSeverity::Warning => EvidenceStatus::Warning,
        };
        let ghost before = evidence_entries(builder.evidence@);
        builder.add_evidence(
            ReviewEvidenceKind::RequirementDiagnostic,
            status,
            report.source.clone(),
            None,
            d.message.clone(),
            owned(PARSER_DIAGNOSTIC_DETAIL),
        );
        assert(rep.diagnostics[i as int] == d@);
        assert(rep.diagnostics.take(i + 1) == rep.diagnostics.take(i as int).push(d@));
        i = i + 1;
    }
    assert(rep.diagnostics.take(rep.diagnostics.len() as int) == rep.diagnostics);
    let ghost e2 = evidence_entries(builder.evidence@);
    let ghost q = (base + no_requirements_evidence(rep).len() + rep.diagnostics.len()) as nat;
    assert(builder.evidence@.len() == q);
    let ghost reqs = rep.requirements;
    let mut i: usize = 0;
    while i < report.requirements.len()
        invariant
            builder.wf(),
            rep == report@,
            reqs == rep.requirements,
            i <= report.requirements@.len(),
            builder.evidence@.len() == q + flag_pairs(reqs.take(i as int)).len(),
            evidence_entries(builder.evidence@) == e2 + flag_pairs(reqs.take(i as int)).map_values(
                |p: (RequirementView, QualityFlagView)| quality_evidence(p.0, p.1),
            ),
            issue_entries(builder.issues@) == i0 + first_iss + flag_pairs(reqs.take(i as int)).map(
                |k: int, p: (RequirementView, QualityFlagView)| quality_issue(p.0, p.1, (q + k + 1) as nat),
            ),
        decreases report.requirements.len() - i,
    {
        let req = &report.requirements[i];
        assert(reqs[i as int] == req@);
        let ghost prev = flag_pairs(reqs.take(i as int));
        let ghost fl = req@.quality_flags;
        let mut j: usize = 0;
        while j < req.quality_flags.len()
            invariant
                builder.wf(),
                i < report.requirements@.len(),
                req == &report.requirements@[i as int],
                fl == req@.quality_flags,
                j <= req.quality_flags@.len(),
                builder.evidence@.len() == q + prev.len() + j,
                evidence_entries(builder.evidence@) == e2 + (prev + fl.take(j as int).map_values(
                    |f: QualityFlagView| (req@, f),
                )).map_values(|p: (RequirementView, QualityFlagView)| quality_evidence(p.0, p.1)),
                issue_entries(builder.issues@) == i0 + first_iss + (prev + fl.take(j as int).map_values(
                    |f: QualityFlagView| (req@, f),
                )).map(
                    |k: int, p: (RequirementView, QualityFlagView)| quality_issue(p.0, p.1, (q + k + 1) as nat),
                ),
            decreases req.quality_flags.len() - j,
        {
            let flag = &req.quality_flags[j];
            assert(fl[j as int] == flag@);
            let ghost p_old = prev + fl.take(j as int).map_values(|f: QualityFlagView| (req@, f));
            let ghost p_new = prev + fl.take(j + 1).map_values(|f: QualityFlagView| (req@, f));
            assert(fl.take(j + 1) == fl.take(j as int).push(flag@));
            assert(p_new =~= p_old.push((req@, flag@)));
            collect_quality_flag(builder, req, flag);
            assert(p_new.map_values(|p: (RequirementView, QualityFlagView)| quality_evidence(p.0, p.1)) =~= p_old.map_values(
                |p: (RequirementView, QualityFlagView)| quality_evidence(p.0, p.1),
            ).push(quality_evidence(req@, flag@)));
            assert(p_new.map(|k: int, p: (RequirementView, QualityFlagView)| quality_issue(p.0, p.1, (q + k + 1) as nat)) =~= p_old.map(
                |k: int, p: (RequirementView, QualityFlagView)| quality_issue(p.0, p.1, (q + k + 1) as nat),
            ).push(quality_issue(req@, flag@, (q + p_old.len() + 1) as nat)));
            j = j + 1;
        }
        assert(fl.take(fl.len() as int) == fl);
        assert(reqs.take(i + 1).drop_last() == reqs.take(i as int));
        assert(reqs.take(i + 1).last() == req@);
        assert(flag_pairs(reqs.take(i + 1)) == prev + fl.map_values(|f: QualityFlagView| (req@, f)));
        i = i + 1;
    }
    assert(reqs.take(reqs.len() as int) == reqs);
    assert(evidence_entries(builder.evidence@) =~= e0 + requirement_evidence(rep));
    assert(issue_entries(builder.issues@) =~= i0 + requirement_issues(rep, base));
}

// ---------------------------------------------------------------------------
// Launch evidence
// ---------------------------------------------------------------------------

pub open spec fn bool_text(b: bool) -> Seq<char> {
    if b {
        "true"@
    } else {
        "false"@
    }
}

fn bool_str(b: bool) -> (r: &'static str)
    ensures
        r@ == bool_text(b),
{
    if b {
        "true"
    } else {
        "false"
    }
}

/// How the launch is judged as evidence.
pub open spec fn launch_status_spec(r: LaunchReport) -> EvidenceStatus {
    if r.execution.dry_run {
        EvidenceStatus::Info
    } else if r.execution.success {
        EvidenceStatus::Pass
    } else if r.execution.timed_out {
        EvidenceStatus::Warning
    } else {
        EvidenceStatus::Fail
    }
}

pub fn launch_status(report: &LaunchReport) -> (r: EvidenceStatus)
    ensures
        r == launch_status_spec(*report),
{
    if report.execution.dry_run {
        EvidenceStatus::Info
    } else if report.execution.success {
        EvidenceStatus::Pass
    } else if report.execution.timed_out {
        EvidenceStatus::Warning
    } else {
        EvidenceStatus::Fail
    }
}

/// The launch command as one line.
pub open spec fn command_line(r: LaunchReport) -> Seq<char> {
    trim(r.command.program@ + " "@ + join(r.command.args@.map_values(|a: String| a@), " "@))
}

pub open spec fn launch_detail(r: LaunchReport) -> Seq<char> {
    "adapter="@ + adapter_name(r.adapter) + ", source="@ + r.command.source@ + ", dry_run="@
        + bool_text(r.execution.dry_run) + ", success="@ + bool_text(r.execution.success)
        + ", timed_out="@ + bool_text(r.execution.timed_out) + ", long_running="@ + bool_text(
        r.execution.long_running,
    )
}

/// What the failed launch did.
pub open spec fn launch_actual_result_spec(r: LaunchReport) -> Seq<char> {
    "success="@ + bool_text(r.execution.success) + ", timed_out="@ + bool_text(r.execution.timed_out)
        + ", exit_code="@ + match r.execution.exit_code {
        Some(c) => signed_decimal(c as int),
        None => "none"@,
    } + ", duration="@ + decimal(r.execution.duration_ms as nat) + "ms"@
}

pub fn launch_actual_result(report: &LaunchReport) -> (s: String)
    ensures
        s@ == launch_actual_result_spec(*report),
{
    let mut s = owned("success=");
    s.append(bool_str(report.execution.success));
    s.append(", timed_out=");
    s.append(bool_str(report.execution.timed_out));
    s.append(", exit_code=");
    match report.execution.exit_code {
        Some(c) => {
            let t = signed_decimal_string(c as i64);
            s.append(t.as_str());
        },
        None => s.append("none"),
    }
    s.append(", duration=");
    let d = decimal_string(report.execution.duration_ms);
    s.append(d.as_str());
    s.append("ms");
    s
}

pub open spec fn runtime_diagnostic_status(s: RuntimeDiagnosticSeverity) -> EvidenceStatus {
    match s {
        RuntimeDiagnosticSeverity::Info => EvidenceStatus::Info,
        RuntimeDiagnosticSeverity::Warning => EvidenceStatus::Warning,
        RuntimeDiagnosticSeverity::Error => EvidenceStatus::Fail,
    }
}

pub open spec fn launch_diagnostic_evidence(d: LaunchDiagnostic) -> EvidenceEntry {
    EvidenceEntry {
        kind: ReviewEvidenceKind::ReviewDiagnostic,
        status: runtime_diagnostic_status(d.severity),
        source: "launch"@,
        related_requirement: None,
        summary: d.message@,
        detail: "Launch diagnostic."@,
    }
}

pub open spec fn output_evidence(status: EvidenceStatus, stream: Seq<char>, text: Seq<char>) -> EvidenceEntry {
    EvidenceEntry {
        kind: ReviewEvidenceKind::ProcessOutput,
        status,
        source: stream,
        related_requirement: None,
        summary: "Process "@ + stream + " was captured."@,
        detail: text,
    }
}

pub const LAUNCH_FAILED_TITLE: &'static str = "项目启动或运行命令失败";

pub const LAUNCH_FAILED_EXPECTED: &'static str = "被测项目应该能在受控超时时间内成功启动或完成命令。";

pub const LAUNCH_FAILED_RECOMMENDATION: &'static str =
    "先修复启动脚本、依赖安装或运行时异常；后续浏览器测试依赖可运行的被测项目。";

pub const LAUNCH_UNPREPARED_SUMMARY: &'static str = "Project launch command could not be prepared.";

pub const LAUNCH_UNPREPARED_TITLE: &'static str = "无法准备项目启动证据";

pub const LAUNCH_UNPREPARED_EXPECTED: &'static str = "审查流程应该能够识别或准备被测项目的启动方式。";

pub const NO_LAUNCH_COMMAND_RECOMMENDATION: &'static str =
    "补充 package.json scripts、Cargo.toml、app.py/main.py，或后续提供显式启动命令配置。";

pub const PROJECT_PATH_RECOMMENDATION: &'static str =
    "检查 --project 指向的路径是否存在、是否为项目目录，以及当前用户是否有访问权限。";

/// The evidence of a launch: the command, captured output, and each
/// diagnostic; or the failure to prepare it.
pub open spec fn launch_evidence(launch: Result<LaunchReport, RuntimeError>) -> Seq<EvidenceEntry> {
    match launch {
        Ok(r) => {
            let cmd = EvidenceEntry {
                kind: ReviewEvidenceKind::LaunchCommand,
                status: launch_status_spec(r),
                source: r.project_root@,
                related_requirement: None,
                summary: "Launch command: "@ + command_line(r),
                detail: launch_detail(r),
            };
            let a = seq![cmd];
            let b = if r.stdout_excerpt@.len() > 0 {
                a.push(output_evidence(EvidenceStatus::Info, "stdout"@, r.stdout_excerpt@))
            } else {
                a
            };
            let c = if r.stderr_excerpt@.len() > 0 {
                b.push(output_evidence(EvidenceStatus::Warning, "stderr"@, r.stderr_excerpt@))
            } else {
                b
            };
            c + r.diagnostics@.map_values(|d: LaunchDiagnostic| launch_diagnostic_evidence(d))
        },
        Err(e) => seq![
            EvidenceEntry {
                kind: ReviewEvidenceKind::ReviewDiagnostic,
                status: EvidenceStatus::Fail,
                source: "launch"@,
                related_requirement: None,
                summary: LAUNCH_UNPREPARED_SUMMARY@,
                detail: runtime_error_message(e),
            },
        ],
    }
}

/// The issues of a launch, after `base` pieces of evidence: a failed run
/// cites all of the launch's evidence; an unprepared launch cites its one.
pub open spec fn launch_issues(launch: Result<LaunchReport, RuntimeError>, base: nat) -> Seq<IssueEntry> {
    match launch {
        Ok(r) => if r.execution.attempted && !r.execution.success {
            seq![
                IssueEntry {
                    severity: IssueSeverity::High,
                    category: IssueCategory::RuntimeFailure,
                    title: LAUNCH_FAILED_TITLE@,
                    related_requirement: None,
                    expected: LAUNCH_FAILED_EXPECTED@,
                    actual: launch_actual_result_spec(r),
                    evidence_ids: evidence_ids_after(base, launch_evidence(launch).len()),
                    recommendation: LAUNCH_FAILED_RECOMMENDATION@,
                },
            ]
        } else {
            Seq::empty()
        },
        Err(e) => {
            let no_command = e is NoLaunchCommand;
            seq![
                IssueEntry {
                    severity: if no_command {
                        IssueSeverity::Medium
                    } else {
                        IssueSeverity::High
                    },
                    category: if no_command {
                        IssueCategory::MissingExecutionPath
                    } else {
                        IssueCategory::ReviewConfiguration
                    },
                    title: LAUNCH_UNPREPARED_TITLE@,
                    related_requirement: None,
                    expected: LAUNCH_UNPREPARED_EXPECTED@,
                    actual: runtime_error_message(e),
                    evidence_ids: seq![evidence_id(base + 1)],
                    recommendation: if no_command {
                        NO_LAUNCH_COMMAND_RECOMMENDATION@
                    } else {
                        PROJECT_PATH_RECOMMENDATION@
                    },
                },
            ]
        },
    }
}

fn command_line_text(report: &LaunchReport) -> (s: String)
    ensures
        s@ == command_line(*report),
{
    let mut line = report.command.program.clone();
    line.append(" ");
    let args = crate::text::join_strings(&report.command.args, " ");
    line.append(args.as_str());
    let t = trim_chars(chars_of(line.as_str()).as_slice());
    string_of(t.as_slice())
}

fn launch_detail_text(report: &LaunchReport) -> (s: String)
    ensures
        s@ == launch_detail(*report),
{
    let mut s = owned("adapter=");
    s.append(report.adapter.name());
    s.append(", source=");
    s.append(report.command.source.as_str());
    s.append(", dry_run=");
    s.append(bool_str(report.execution.dry_run));
    s.append(", success=");
    s.append(bool_str(report.execution.success));
    s.append(", timed_out=");
    s.append(bool_str(report.execution.timed_out));
    s.append(", long_running=");
    s.append(bool_str(report.execution.long_running));
    s
}

/// Records the evidence and issues of the launch, and hands back the launch
/// report when there is one.
pub fn collect_launch_evidence(builder: &mut ReviewBuilder, launch: Result<LaunchReport, RuntimeError>) -> (r: Option<LaunchReport>)
    requires
        old(builder).wf(),
    ensures
        final(builder).wf(),
        evidence_entries(final(builder).evidence@) == evidence_entries(old(builder).evidence@)
            + launch_evidence(launch),
        issue_entries(final(builder).issues@) == issue_entries(old(builder).issues@)
            + launch_issues(launch, old(builder).evidence@.len()),
        r == match launch {
            Ok(x) => Some(x),
            Err(_) => None::<LaunchReport>,
        },
{
    let ghost e0 = evidence_entries(builder.evidence@);
    let ghost i0 = issue_entries(builder.issues@);
    let ghost base = builder.evidence@.len();
    let ghost l = launch;
    match launch {
        Ok(report) => {
            let mut ids: Vec<String> = Vec::new();
            let mut summary = owned("Launch command: ");
            let cl = command_line_text(&report);
            summary.append(cl.as_str());
            let id = builder.add_evidence(
                ReviewEvidenceKind::LaunchCommand,
                launch_status(&report),
                report.project_root.clone(),
                None,
                summary,
                launch_detail_text(&report),
            );
            ids.push(id);
            if chars_of(report.stdout_excerpt.as_str()).len() > 0 {
                let id = builder.add_evidence(
                    ReviewEvidenceKind::ProcessOutput,
                    EvidenceStatus::Info,
                    owned("stdout"),
                    None,
                    owned("Process stdout was captured."),
                    report.stdout_excerpt.clone(),
                );
                ids.push(id);
            }
            if chars_of(report.stderr_excerpt.as_str()).len() > 0 {
                let id = builder.add_evidence(
                    ReviewEvidenceKind::ProcessOutput,
                    EvidenceStatus::Warning,
                    owned("stderr"),
                    None,
                    owned("Process stderr was captured."),
                    report.stderr_excerpt.clone(),
                );
                ids.push(id);
            }
            proof {
                reveal_strlit("Process ");
                reveal_strlit(" was captured.");
                reveal_strlit("Process stdout was captured.");
                reveal_strlit("Process stderr was captured.");
                reveal_strlit("stdout");
                reveal_strlit("stderr");
                assert("Process stdout was captured."@ =~= "Process "@ + "stdout"@ + " was captured."@);
                assert("Process stderr was captured."@ =~= "Process "@ + "stderr"@ + " was captured."@);
            }
            let ghost head = evidence_entries(builder.evidence@);
            let ghost n_head = builder.evidence@.len();
            assert(ids@.map_values(|s: String| s@) =~= evidence_ids_after(base, (n_head - base) as nat));
            let mut k: usize = 0;
            while k < report.diagnostics.len()
                invariant
                    builder.wf(),
                    k <= report.diagnostics@.len(),
                    builder.evidence@.len() == n_head + k,
                    evidence_entries(builder.evidence@) == head + report.diagnostics@.take(k as int).map_values(
                        |d: LaunchDiagnostic| launch_diagnostic_evidence(d),
                    ),
                    issue_entries(builder.issues@) == i0,
                    ids@.map_values(|s: String| s@) == evidence_ids_after(base, (n_head + k - base) as nat),
                    n_head >= base,
                decreases report.diagnostics.len() - k,
            {
                let d = &report.diagnostics[k];
                let status = match d.severity {
                    RuntimeDiagnosticSeverity::Info => EvidenceStatus::Info,
                    RuntimeDiagnosticSeverity::Warning => EvidenceStatus::Warning,
                    RuntimeDiagnosticSeverity::Error => EvidenceStatus::Fail,
                };
                let id = builder.add_evidence(
                    ReviewEvidenceKind::ReviewDiagnostic,
                    status,
                    owned("launch"),
                    None,
                    d.message.clone(),
                    owned("Launch diagnostic."),
                );
                let ghost before_ids = ids@.map_values(|s: String| s@);
                ids.push(id);
                assert(ids@.map_values(|s: String| s@) =~= before_ids.push(id@));
                assert(evidence_ids_after(base, (n_head + k + 1 - base) as nat) =~= evidence_ids_after(
                    base,
                    (n_head + k - base) as nat,
                ).push(evidence_id((n_head + k + 1) as nat)));
                assert(report.diagnostics@.take(k + 1) == report.diagnostics@.take(k as int).push(*d));
                k = k + 1;
            }
            assert(report.diagnostics@.take(report.diagnostics@.len() as int) == report.diagnostics@);
            assert(evidence_entries(builder.evidence@) =~= e0 + launch_evidence(l));
            if report.execution.attempted && !report.execution.success {
                let draft = IssueDraft {
                    severity: IssueSeverity::High,
                    category: IssueCategory::RuntimeFailure,
                    title: owned(LAUNCH_FAILED_TITLE),
                    related_requirement: None,
                    expected: owned(LAUNCH_FAILED_EXPECTED),
                    actual: launch_actual_result(&report),
                    evidence_ids: ids,
                    recommendation: owned(LAUNCH_FAILED_RECOMMENDATION),
                };
                builder.add_issue(draft);
            }
            assert(issue_entries(builder.issues@) =~= i0 + launch_issues(l, base));
            Some(report)
        },
        Err(error) => {
            let id = builder.add_evidence(
                ReviewEvidenceKind::ReviewDiagnostic,
                EvidenceStatus::Fail,
                owned("launch"),
                None,
                owned(LAUNCH_UNPREPARED_SUMMARY),
                error.message(),
            );
            let mut ids: Vec<String> = Vec::new();
            ids.push(id);
            let (severity, category, recommendation) = match &error {
                RuntimeError::NoLaunchCommand(_) => (
                    IssueSeverity::Medium,
                    IssueCategory::MissingExecutionPath,
                    NO_LAUNCH_COMMAND_RECOMMENDATION,
                ),
                _ => (IssueSeverity::High, IssueCategory::ReviewConfiguration, PROJECT_PATH_RECOMMENDATION),
            };
            let draft = IssueDraft {
                severity,
                category,
                title: owned(LAUNCH_UNPREPARED_TITLE),
                related_requirement: None,
                expected: owned(LAUNCH_UNPREPARED_EXPECTED),
                actual: error.message(),
                evidence_ids: ids,
                recommendation: owned(recommendation),
            };
            assert(draft_entry(draft).evidence_ids =~= seq![evidence_id((base + 1) as nat)]);
            builder.add_issue(draft);
            assert(evidence_entries(builder.evidence@) =~= e0 + launch_evidence(l));
            assert(issue_entries(builder.issues@) =~= i0 + launch_issues(l, base));
            None
        },
    }
}

// ---------------------------------------------------------------------------
// Browser evidence
// ---------------------------------------------------------------------------

pub const NO_BROWSER_CASES_TITLE: &'static str = "没有生成浏览器测试用例";

pub const NO_BROWSER_CASES_EXPECTED: &'static str =
    "至少一部分需求应该能映射为可执行或可审查的浏览器测试步骤。";

pub const NO_BROWSER_CASES_ACTUAL: &'static str = "当前需求没有生成浏览器动作计划。";

pub const NO_BROWSER_CASES_RECOMMENDATION: &'static str =
    "检查需求是否描述了可观察的页面、交互、接口响应或用户流程。";

pub const PROBE_FAILED_TITLE: &'static str = "浏览器页面探测失败";

pub const PROBE_FAILED_EXPECTED: &'static str =
    "页面应该能通过基础 URL 返回 2xx 或 3xx HTTP 状态，供后续交互测试执行。";

pub const PROBE_FAILED_RECOMMENDATION: &'static str =
    "确认被测项目已经启动、base URL 和端口正确，并优先修复 HTTP 错误或连接失败。";

pub const BROWSER_UNAVAILABLE_SUMMARY: &'static str = "Browser report could not be generated.";

pub const BROWSER_UNAVAILABLE_TITLE: &'static str = "无法生成浏览器证据";

pub const BROWSER_UNAVAILABLE_EXPECTED: &'static str = "审查流程应该能生成浏览器动作计划或页面探测证据。";

pub const BROWSER_UNAVAILABLE_RECOMMENDATION: &'static str =
    "检查需求输入路径和 base URL；若使用 HTTPS 或复杂浏览器能力，后续需要 Playwright 后端。";

pub open spec fn browser_diagnostic_status(s: BrowserDiagnosticSeverity) -> EvidenceStatus {
    match s {
        BrowserDiagnosticSeverity::Info => EvidenceStatus::Info,
        BrowserDiagnosticSeverity::Warning => EvidenceStatus::Warning,
        BrowserDiagnosticSeverity::Error => EvidenceStatus::Fail,
    }
}

pub open spec fn browser_diagnostic_evidence(d: BrowserDiagnostic) -> EvidenceEntry {
    EvidenceEntry {
        kind: ReviewEvidenceKind::BrowserDiagnostic,
        status: browser_diagnostic_status(d.severity),
        source: "browser"@,
        related_requirement: None,
        summary: d.message@,
        detail: "Browser executor diagnostic."@,
    }
}

/// What the failed browser run showed: the page's status, else its diagnostics.
pub open spec fn browser_actual_result_spec(r: BrowserRunReport) -> Seq<char> {
    match r.page {
        Some(page) => "status="@ + match page.status_code {
            Some(c) => decimal(c as nat),
            None => "unknown"@,
        } + ", status_line="@ + page.status_text@,
        None => join(r.diagnostics@.map_values(|d: BrowserDiagnostic| d.message@), "; "@),
    }
}

pub fn browser_actual_result(report: &BrowserRunReport) -> (s: String)
    ensures
        s@ == browser_actual_result_spec(*report),
{
    match &report.page {
        Some(page) => {
            let mut s = owned("status=");
            match page.status_code {
                Some(c) => {
                    let t = decimal_string(c as u128);
                    s.append(t.as_str());
                },
                None => s.append("unknown"),
            }
            s.append(", status_line=");
            s.append(page.status_text.as_str());
            s
        },
        None => {
            let mut messages: Vec<String> = Vec::new();
            let mut k: usize = 0;
            while k < report.diagnostics.len()
                invariant
                    k <= report.diagnostics@.len(),
                    messages@.map_values(|m: String| m@) == report.diagnostics@.take(k as int).map_values(
                        |d: BrowserDiagnostic| d.message@,
                    ),
                decreases report.diagnostics.len() - k,
            {
                let ghost before = messages@.map_values(|m: String| m@);
                messages.push(report.diagnostics[k].message.clone());
                assert(messages@.map_values(|m: String| m@) =~= before.push(report.diagnostics@[k as int].message@));
                assert(report.diagnostics@.take(k + 1) == report.diagnostics@.take(k as int).push(report.diagnostics@[k as int]));
                k = k + 1;
            }
            assert(report.diagnostics@.take(report.diagnostics@.len() as int) == report.diagnostics@);
            crate::text::join_strings(&messages, "; ")
        },
    }
}

pub open spec fn plan_summary(cases: nat) -> Seq<char> {
    "Browser action plan contains "@ + decimal(cases) + " case(s)."@
}

pub open spec fn page_detail(title: Option<Seq<char>>, bytes: nat, excerpt: Seq<char>) -> Seq<char> {
    "title="@ + match title {
        Some(t) => t,
        None => "none"@,
    } + ", bytes="@ + decimal(bytes) + ", excerpt="@ + excerpt
}

/// The evidence of a browser run: the plan, the probed page, and each
/// diagnostic; or the failure to produce a report.
pub open spec fn browser_evidence(browser: Result<BrowserRunReport, BrowserError>) -> Seq<EvidenceEntry> {
    match browser {
        Ok(r) => {
            let plan = EvidenceEntry {
                kind: ReviewEvidenceKind::BrowserPlan,
                status: if r.plan.cases@.len() == 0 {
                    EvidenceStatus::Warning
                } else {
                    EvidenceStatus::Info
                },
                source: r.base_url@,
                related_requirement: None,
                summary: plan_summary(r.plan.cases@.len()),
                detail: "Generated from the requirement test plan."@,
            };
            let a = match r.page {
                Some(page) => seq![
                    plan,
                    EvidenceEntry {
                        kind: ReviewEvidenceKind::PageProbe,
                        status: if r.execution.success {
                            EvidenceStatus::Pass
                        } else {
                            EvidenceStatus::Fail
                        },
                        source: page.url@,
                        related_requirement: None,
                        summary: "Page probe status: "@ + page.status_text@,
                        detail: page_detail(opt_string_view(page.title), page.response_bytes as nat, page.body_excerpt@),
                    },
                ],
                None => seq![plan],
            };
            a + r.diagnostics@.map_values(|d: BrowserDiagnostic| browser_diagnostic_evidence(d))
        },
        Err(e) => seq![
            EvidenceEntry {
                kind: ReviewEvidenceKind::ReviewDiagnostic,
                status: EvidenceStatus::Fail,
                source: "browser"@,
                related_requirement: None,
                summary: BROWSER_UNAVAILABLE_SUMMARY@,
                detail: browser_error_message(e),
            },
        ],
    }
}

/// The issues of a browser run, after `base` pieces of evidence: a plan
/// without cases, and a failed run citing all of the run's evidence; or the
/// failure to produce a report.
pub open spec fn browser_issues(browser: Result<BrowserRunReport, BrowserError>, base: nat) -> Seq<IssueEntry> {
    match browser {
        Ok(r) => {
            let a = if r.plan.cases@.len() == 0 {
                seq![
                    IssueEntry {
                        severity: IssueSeverity::Medium,
                        category: IssueCategory::MissingEvidence,
                        title: NO_BROWSER_CASES_TITLE@,
                        related_requirement: None,
                        expected: NO_BROWSER_CASES_EXPECTED@,
                        actual: NO_BROWSER_CASES_ACTUAL@,
                        evidence_ids: seq![evidence_id(base + 1)],
                        recommendation: NO_BROWSER_CASES_RECOMMENDATION@,
                    },
                ]
            } else {
                Seq::<IssueEntry>::empty()
            };
            if r.execution.attempted && !r.execution.success {
                a.push(
                    IssueEntry {
                        severity: IssueSeverity::High,
                        category: IssueCategory::BrowserFailure,
                        title: PROBE_FAILED_TITLE@,
                        related_requirement: None,
                        expected: PROBE_FAILED_EXPECTED@,
                        actual: browser_actual_result_spec(r),
                        evidence_ids: evidence_ids_after(base, browser_evidence(browser).len()),
                        recommendation: PROBE_FAILED_RECOMMENDATION@,
                    },
                )
            } else {
                a
            }
        },
        Err(e) => seq![
            IssueEntry {
                severity: IssueSeverity::High,
                category: IssueCategory::BrowserFailure,
                title: BROWSER_UNAVAILABLE_TITLE@,
                related_requirement: None,
                expected: BROWSER_UNAVAILABLE_EXPECTED@,
                actual: browser_error_message(e),
                evidence_ids: seq![evidence_id(base + 1)],
                recommendation: BROWSER_UNAVAILABLE_RECOMMENDATION@,
            },
        ],
    }
}

/// Records the evidence and issues of the browser run, and hands back the
/// browser report when there is one.
pub fn collect_browser_evidence(builder: &mut ReviewBuilder, browser: Result<BrowserRunReport, BrowserError>) -> (r: Option<BrowserRunReport>)
    requires
        old(builder).wf(),
    ensures
        final(builder).wf(),
        evidence_entries(final(builder).evidence@) == evidence_entries(old(builder).evidence@)
            + browser_evidence(browser),
        issue_entries(final(builder).issues@) == issue_entries(old(builder).issues@)
            + browser_issues(browser, old(builder).evidence@.len()),
        r == match browser {
            Ok(x) => Some(x),
            Err(_) => None::<BrowserRunReport>,
        },
{
    let ghost e0 = evidence_entries(builder.evidence@);
    let ghost i0 = issue_entries(builder.issues@);
    let ghost base = builder.evidence@.len();
    let ghost b = browser;
    match browser {
        Ok(report) => {
            let n_cases = report.plan.cases.len();
            let mut summary = owned("Browser action plan contains ");
            let t = decimal_string(n_cases as u128);
            summary.append(t.as_str());
            summary.append(" case(s).");
            let plan_id = builder.add_evidence(
                ReviewEvidenceKind::BrowserPlan,
                if n_cases == 0 {
                    EvidenceStatus::Warning
                } else {
                    EvidenceStatus::Info
                },
                report.base_url.clone(),
                None,
                summary,
                owned("Generated from the requirement test plan."),
            );
            if n_cases == 0 {
                let mut ids: Vec<String> = Vec::new();
                ids.push(plan_id.clone());
                let draft = IssueDraft {
                    severity: IssueSeverity::Medium,
                    category: IssueCategory::MissingEvidence,
                    title: owned(NO_BROWSER_CASES_TITLE),
                    related_requirement: None,
                    expected: owned(NO_BROWSER_CASES_EXPECTED),
                    actual: owned(NO_BROWSER_CASES_ACTUAL),
                    evidence_ids: ids,
                    recommendation: owned(NO_BROWSER_CASES_RECOMMENDATION),
                };
                assert(draft_entry(draft).evidence_ids =~= seq![evidence_id((base + 1) as nat)]);
                builder.add_issue(draft);
            }
            let ghost i1 = issue_entries(builder.issues@);
            let mut ids: Vec<String> = Vec::new();
            ids.push(plan_id);
            match &report.page {
                Some(page) => {
                    let mut summary = owned("Page probe status: ");
                    summary.append(page.status_text.as_str());
                    let mut detail = owned("title=");
                    match &page.title {
                        Some(t) => detail.append(t.as_str()),
                        None => detail.append("none"),
                    }
                    detail.append(", bytes=");
                    let t = decimal_string(page.response_bytes as u128);
                    detail.append(t.as_str());
                    detail.append(", excerpt=");
                    detail.append(page.body_excerpt.as_str());
                    let id = builder.add_evidence(
                        ReviewEvidenceKind::PageProbe,
                        if report.execution.success {
                            EvidenceStatus::Pass
                        } else {
                            EvidenceStatus::Fail
                        },
                        page.url.clone(),
                        None,
                        summary,
                        detail,
                    );
                    ids.push(id);
                },
                None => {},
            }
            let ghost head = evidence_entries(builder.evidence@);
            let ghost n_head = builder.evidence@.len();
            assert(ids@.map_values(|s: String| s@) =~= evidence_ids_after(base, (n_head - base) as nat));
            let mut k: usize = 0;
            while k < report.diagnostics.len()
                invariant
                    builder.wf(),
                    k <= report.diagnostics@.len(),
                    builder.evidence@.len() == n_head + k,
                    evidence_entries(builder.evidence@) == head + report.diagnostics@.take(k as int).map_values(
                        |d: BrowserDiagnostic| browser_diagnostic_evidence(d),
                    ),
                    issue_entries(builder.issues@) == i1,
                    ids@.map_values(|s: String| s@) == evidence_ids_after(base, (n_head + k - base) as nat),
                    n_head >= base,
                decreases report.diagnostics.len() - k,
            {
                let d = &report.diagnostics[k];
                let status = match d.severity {
                    BrowserDiagnosticSeverity::Info => EvidenceStatus::Info,
                    BrowserDiagnosticSeverity::Warning => EvidenceStatus::Warning,
                    BrowserDiagnosticSeverity::Error => EvidenceStatus::Fail,
                };
                let id = builder.add_evidence(
                    ReviewEvidenceKind::BrowserDiagnostic,
                    status,
                    owned("browser"),
                    None,
                    d.message.clone(),
                    owned("Browser executor diagnostic."),
                );
                let ghost before_ids = ids@.map_values(|s: String| s@);
                ids.push(id);
                assert(ids@.map_values(|s: String| s@) =~= before_ids.push(id@));
                assert(evidence_ids_after(base, (n_head + k + 1 - base) as nat) =~= evidence_ids_after(
                    base,
                    (n_head + k - base) as nat,
                ).push(evidence_id((n_head + k + 1) as nat)));
                assert(report.diagnostics@.take(k + 1) == report.diagnostics@.take(k as int).push(*d));
                k = k + 1;
            }
            assert(report.diagnostics@.take(report.diagnostics@.len() as int) == report.diagnostics@);
            assert(evidence_entries(builder.evidence@) =~= e0 + browser_evidence(b));
            if report.execution.attempted && !report.execution.success {
                let draft = IssueDraft {
                    severity: IssueSeverity::High,
                    category: IssueCategory::BrowserFailure,
                    title: owned(PROBE_FAILED_TITLE),
                    related_requirement: None,
                    expected: owned(PROBE_FAILED_EXPECTED),
                    actual: browser_actual_result(&report),
                    evidence_ids: ids,
                    recommendation: owned(PROBE_FAILED_RECOMMENDATION),
                };
                builder.add_issue(draft);
            }
            assert(issue_entries(builder.issues@) =~= i0 + browser_issues(b, base));
            Some(report)
        },
        Err(error) => {
            let id = builder.add_evidence(
                ReviewEvidenceKind::ReviewDiagnostic,
                EvidenceStatus::Fail,
                owned("browser"),
                None,
                owned(BROWSER_UNAVAILABLE_SUMMARY),
                error.message(),
            );
            let mut ids: Vec<String> = Vec::new();
            ids.push(id);
            let draft = IssueDraft {
                severity: IssueSeverity::High,
                category: IssueCategory::BrowserFailure,
                title: owned(BROWSER_UNAVAILABLE_TITLE),
                related_requirement: None,
                expected: owned(BROWSER_UNAVAILABLE_EXPECTED),
                actual: error.message(),
                evidence_ids: ids,
                recommendation: owned(BROWSER_UNAVAILABLE_RECOMMENDATION),
            };
            assert(draft_entry(draft).evidence_ids =~= seq![evidence_id((base + 1) as nat)]);
            builder.add_issue(draft);
            assert(evidence_entries(builder.evidence@) =~= e0 + browser_evidence(b));
            assert(issue_entries(builder.issues@) =~= i0 + browser_issues(b, base));
            None
        },
    }
}

// ---------------------------------------------------------------------------
// Summary and report
// ---------------------------------------------------------------------------

/// How many issues have severity `sev`.
pub open spec fn severity_count(v: Seq<Issue>, sev: IssueSeverity) -> nat
    decreases v.len(),
{
    if v.len() == 0 {
        0
    } else {
        severity_count(v.drop_last(), sev) + if v.last().severity == sev {
            1nat
        } else {
            0nat
        }
    }
}

/// How many issues await a decision.
pub open spec fn pending_count(v: Seq<Issue>) -> nat
    decreases v.len(),
{
    if v.len() == 0 {
        0
    } else {
        pending_count(v.drop_last()) + if v.last().approval == ApprovalState::Pending {
            1nat
        } else {
            0nat
        }
    }
}

pub fn count_severity(issues: &Vec<Issue>, severity: IssueSeverity) -> (r: usize)
    ensures
        r == severity_count(issues@, severity),
{
    let mut n: usize = 0;
    let mut i: usize = 0;
    while i < issues.len()
        invariant
            i <= issues@.len(),
            n == severity_count(issues@.take(i as int), severity),
            n <= i,
        decreases issues.len() - i,
    {
        assert(issues@.take(i + 1).drop_last() == issues@.take(i as int));
        if issues[i].severity == severity {
            n = n + 1;
        }
        i = i + 1;
    }
    assert(issues@.take(issues@.len() as int) == issues@);
    n
}

fn count_pending(issues: &Vec<Issue>) -> (r: usize)
    ensures
        r == pending_count(issues@),
{
    let mut n: usize = 0;
    let mut i: usize = 0;
    while i < issues.len()
        invariant
            i <= issues@.len(),
            n == pending_count(issues@.take(i as int)),
            n <= i,
        decreases issues.len() - i,
    {
        assert(issues@.take(i + 1).drop_last() == issues@.take(i as int));
        if issues[i].approval == ApprovalState::Pending {
            n = n + 1;
        }
        i = i + 1;
    }
    assert(issues@.take(issues@.len() as int) == issues@);
    n
}

pub open spec fn summary_ok(rep: RequirementReportView, evidence_items: nat, issues: Seq<Issue>, s: ReviewSummary) -> bool {
    &&& s.requirements == rep.requirements.len()
    &&& s.test_cases == rep.test_plan.cases.len()
    &&& s.evidence_items == evidence_items
    &&& s.issues == issues.len()
    &&& s.critical == severity_count(issues, IssueSeverity::Critical)
    &&& s.high == severity_count(issues, IssueSeverity::High)
    &&& s.medium == severity_count(issues, IssueSeverity::Medium)
    &&& s.low == severity_count(issues, IssueSeverity::Low)
    &&& s.info == severity_count(issues, IssueSeverity::Info)
    &&& s.pending_decisions == pending_count(issues)
}

/// Counts of a review: requirements, test cases, evidence, issues by severity,
/// and issues awaiting a decision.
pub fn build_summary(report: &RequirementReport, evidence_items: usize, issues: &Vec<Issue>) -> (r: ReviewSummary)
    ensures
        summary_ok(report@, evidence_items as nat, issues@, r),
{
    ReviewSummary {
        requirements: report.requirements.len(),
        test_cases: report.test_plan.cases.len(),
        evidence_items,
        issues: issues.len(),
        critical: count_severity(issues, IssueSeverity::Critical),
        high: count_severity(issues, IssueSeverity::High),
        medium: count_severity(issues, IssueSeverity::Medium),
        low: count_severity(issues, IssueSeverity::Low),
        info: count_severity(issues, IssueSeverity::Info),
        pending_decisions: count_pending(issues),
    }
}

/// Every issue has exactly one severity: the counts add up to the number of issues.
pub proof fn lemma_severity_counts_add_up(issues: Seq<Issue>)
    ensures
        severity_count(issues, IssueSeverity::Critical) + severity_count(issues, IssueSeverity::High)
            + severity_count(issues, IssueSeverity::Medium) + severity_count(issues, IssueSeverity::Low)
            + severity_count(issues, IssueSeverity::Info) == issues.len(),
    decreases issues.len(),
{
    if issues.len() > 0 {
        lemma_severity_counts_add_up(issues.drop_last());
    }
}

/// Issues that all await a decision are all counted as pending.
pub proof fn lemma_all_pending_counted(issues: Seq<Issue>)
    requires
        forall|i: int| 0 <= i < issues.len() ==> (#[trigger] issues[i]).approval == ApprovalState::Pending,
    ensures
        pending_count(issues) == issues.len(),
    decreases issues.len(),
{
    if issues.len() > 0 {
        let rest = issues.drop_last();
        assert forall|i: int| 0 <= i < rest.len() implies (#[trigger] rest[i]).approval == ApprovalState::Pending by {
            assert(rest[i] == issues[i]);
        }
        lemma_all_pending_counted(rest);
        assert(issues.last() == issues[issues.len() - 1]);
    }
}

pub open spec fn skipped_evidence(summary: Seq<char>, detail: Seq<char>) -> EvidenceEntry {
    EvidenceEntry {
        kind: ReviewEvidenceKind::ReviewDiagnostic,
        status: EvidenceStatus::Skipped,
        source: "review"@,
        related_requirement: None,
        summary,
        detail,
    }
}

pub const LAUNCH_SKIPPED_SUMMARY: &'static str = "Project launch evidence was skipped.";

pub const LAUNCH_SKIPPED_DETAIL: &'static str =
    "Use review without --skip-launch to include launch command detection or execution.";

pub const BROWSER_SKIPPED_SUMMARY: &'static str = "Browser evidence was skipped.";

pub const BROWSER_SKIPPED_DETAIL: &'static str =
    "Use review without --skip-browser to include browser action planning or page probing.";

pub open spec fn launch_part_evidence(launch: Option<Result<LaunchReport, RuntimeError>>) -> Seq<EvidenceEntry> {
    match launch {
        Some(l) => launch_evidence(l),
        None => seq![skipped_evidence(LAUNCH_SKIPPED_SUMMARY@, LAUNCH_SKIPPED_DETAIL@)],
    }
}

pub open spec fn launch_part_issues(launch: Option<Result<LaunchReport, RuntimeError>>, base: nat) -> Seq<IssueEntry> {
    match launch {
        Some(l) => launch_issues(l, base),
        None => Seq::empty(),
    }
}

pub open spec fn browser_part_evidence(browser: Option<Result<BrowserRunReport, BrowserError>>) -> Seq<EvidenceEntry> {
    match browser {
        Some(b) => browser_evidence(b),
        None => seq![skipped_evidence(BROWSER_SKIPPED_SUMMARY@, BROWSER_SKIPPED_DETAIL@)],
    }
}

pub open spec fn browser_part_issues(browser: Option<Result<BrowserRunReport, BrowserError>>, base: nat) -> Seq<IssueEntry> {
    match browser {
        Some(b) => browser_issues(b, base),
        None => Seq::empty(),
    }
}

/// All evidence of a review, in the order it is gathered.
pub open spec fn review_evidence(
    rep: RequirementReportView,
    launch: Option<Result<LaunchReport, RuntimeError>>,
    browser: Option<Result<BrowserRunReport, BrowserError>>,
) -> Seq<EvidenceEntry> {
    requirement_evidence(rep) + launch_part_evidence(launch) + browser_part_evidence(browser)
}

/// All issues of a review, each citing evidence by its number.
pub open spec fn review_issues(
    rep: RequirementReportView,
    launch: Option<Result<LaunchReport, RuntimeError>>,
    browser: Option<Result<BrowserRunReport, BrowserError>>,
) -> Seq<IssueEntry> {
    let b1 = requirement_evidence(rep).len();
    let b2 = b1 + launch_part_evidence(launch).len();
    requirement_issues(rep, 0) + launch_part_issues(launch, b1) + browser_part_issues(browser, b2 as nat)
}

/// Assembles the review from the requirement analysis and, unless skipped,
/// the launch (`launch`) and the browser run (`browser`) that were made.
pub fn generate_review_report(
    requirement_report: RequirementReport,
    options: &ReviewOptions,
    launch: Option<Result<LaunchReport, RuntimeError>>,
    browser: Option<Result<BrowserRunReport, BrowserError>>,
) -> (r: ReviewReport)
    requires
        options.skip_launch == launch is None,
        options.skip_browser == browser is None,
    ensures
        r.config.requirements_source@ == requirement_report.source@,
        r.config.project_root@ == display_path_spec(options.project_path@),
        r.config.base_url@ == options.base_url@,
        r.config.execute == options.execute,
        r.config.launch_enabled == !options.skip_launch,
        r.config.browser_enabled == !options.skip_browser,
        r.config.launch_timeout_secs == options.launch_timeout_secs,
        r.config.browser_timeout_secs == options.browser_timeout_secs,
        r.requirement_report == requirement_report,
        r.launch_report == match launch {
            Some(Ok(x)) => Some(x),
            _ => None::<LaunchReport>,
        },
        r.browser_report == match browser {
            Some(Ok(x)) => Some(x),
            _ => None::<BrowserRunReport>,
        },
        forall|i: int| 0 <= i < r.evidence@.len() ==> (#[trigger] r.evidence@[i]).id@ == evidence_id((i + 1) as nat),
        forall|i: int|
            0 <= i < r.issues@.len() ==> (#[trigger] r.issues@[i]).id@ == issue_id((i + 1) as nat)
                && r.issues@[i].approval == ApprovalState::Pending,
        evidence_entries(r.evidence@) == review_evidence(requirement_report@, launch, browser),
        issue_entries(r.issues@) == review_issues(requirement_report@, launch, browser),
        summary_ok(requirement_report@, r.evidence@.len(), r.issues@, r.summary),
{
    let config = ReviewRunConfig {
        requirements_source: requirement_report.source.clone(),
        project_root: display_path(options.project_path.as_str()),
        base_url: options.base_url.clone(),
        execute: options.execute,
        launch_enabled: !options.skip_launch,
        browser_enabled: !options.skip_browser,
        launch_timeout_secs: options.launch_timeout_secs,
        browser_timeout_secs: options.browser_timeout_secs,
    };
    let mut builder = ReviewBuilder::new();
    collect_requirement_evidence(&mut builder, &requirement_report);
    let ghost b1 = builder.evidence@.len();
    let ghost e1 = evidence_entries(builder.evidence@);
    let ghost i1 = issue_entries(builder.issues@);
    let launch_report = match launch {
        None => {
            builder.add_evidence(
                ReviewEvidenceKind::ReviewDiagnostic,
                EvidenceStatus::Skipped,
                owned("review"),
                None,
                owned(LAUNCH_SKIPPED_SUMMARY),
                owned(LAUNCH_SKIPPED_DETAIL),
            );
            None
        },
        Some(l) => collect_launch_evidence(&mut builder, l),
    };
    let ghost b2 = builder.evidence@.len();
    assert(evidence_entries(builder.evidence@) =~= e1 + launch_part_evidence(launch));
    assert(issue_entries(builder.issues@) =~= i1 + launch_part_issues(launch, b1));
    let ghost e2 = evidence_entries(builder.evidence@);
    let ghost i2 = issue_entries(builder.issues@);
    let browser_report = match browser {
        None => {
            builder.add_evidence(
                ReviewEvidenceKind::ReviewDiagnostic,
                EvidenceStatus::Skipped,
                owned("review"),
                None,
                owned(BROWSER_SKIPPED_SUMMARY),
                owned(BROWSER_SKIPPED_DETAIL),
            );
            None
        },
        Some(b) => collect_browser_evidence(&mut builder, b),
    };
    assert(evidence_entries(builder.evidence@) =~= e2 + browser_part_evidence(browser));
    assert(issue_entries(builder.issues@) =~= i2 + browser_part_issues(browser, b2));
    assert(b1 == requirement_evidence(requirement_report@).len());
    assert(evidence_entries(builder.evidence@) =~= review_evidence(requirement_report@, launch, browser));
    assert(issue_entries(builder.issues@) =~= review_issues(requirement_report@, launch, browser));
    let summary = build_summary(&requirement_report, builder.evidence.len(), &builder.issues);
    let ReviewBuilder { evidence, issues } = builder;
    ReviewReport {
        config,
        summary,
        requirement_report,
        launch_report,
        browser_report,
        evidence,
        issues,
    }
}

/// In every review, issues by severity add up to all issues, and every issue
/// awaits a decision.
pub proof fn lemma_review_summary_consistent(r: ReviewReport)
    requires
        forall|i: int| 0 <= i < r.issues@.len() ==> (#[trigger] r.issues@[i]).approval == ApprovalState::Pending,
        summary_ok(r.requirement_report@, r.evidence@.len(), r.issues@, r.summary),
    ensures
        r.summary.critical + r.summary.high + r.summary.medium + r.summary.low + r.summary.info
            == r.summary.issues,
        r.summary.pending_decisions == r.summary.issues,
{
    lemma_severity_counts_add_up(r.issues@);
    lemma_all_pending_counted(r.issues@);
}


/// Every evidence id that an issue cites is one of `evidence_id(lo + 1)` to
/// `evidence_id(hi)`.
pub open spec fn cites_between(issues: Seq<IssueEntry>, lo: nat, hi: nat) -> bool {
    forall|i: int, m: int|
        0 <= i < issues.len() && 0 <= m < issues[i].evidence_ids.len() ==> exists|j: nat|
            lo < j <= hi && #[trigger] issues[i].evidence_ids[m] == evidence_id(j)
}

proof fn lemma_requirement_issues_cite(rep: RequirementReportView)
    ensures
        cites_between(requirement_issues(rep, 0), 0, requirement_evidence(rep).len()),
{
    let issues = requirement_issues(rep, 0);
    let pairs = flag_pairs(rep.requirements);
    let q = no_requirements_evidence(rep).len() + rep.diagnostics.len();
    let first = if rep.requirements.len() == 0 {
        seq![
            IssueEntry {
                severity: IssueSeverity::High,
                category: IssueCategory::RequirementGap,
                title: NO_REQUIREMENTS_TITLE@,
                related_requirement: None,
                expected: NO_REQUIREMENTS_EXPECTED@,
                actual: NO_REQUIREMENTS_ACTUAL@,
                evidence_ids: seq![evidence_id(1)],
                recommendation: NO_REQUIREMENTS_RECOMMENDATION@,
            },
        ]
    } else {
        Seq::<IssueEntry>::empty()
    };
    let rest = pairs.map(|k: int, p: (RequirementView, QualityFlagView)| quality_issue(p.0, p.1, (q + k + 1) as nat));
    assert(issues == first + rest);
    assert forall|i: int, m: int| 0 <= i < issues.len() && 0 <= m < issues[i].evidence_ids.len() implies exists|j: nat|
        0 < j <= requirement_evidence(rep).len() && #[trigger] issues[i].evidence_ids[m] == evidence_id(j) by {
        if i < first.len() {
            assert(issues[i] == first[i]);
            assert(issues[i].evidence_ids[m] == evidence_id(1));
            assert(requirement_evidence(rep).len() >= 1);
        } else {
            let k = i - first.len();
            assert(issues[i] == rest[k]);
            assert(rest[k] == quality_issue(pairs[k].0, pairs[k].1, (q + k + 1) as nat));
            assert(issues[i].evidence_ids[m] == evidence_id((q + k + 1) as nat));
            assert(requirement_evidence(rep).len() == q + pairs.len());
        }
    }
}

proof fn lemma_launch_issues_cite(launch: Option<Result<LaunchReport, RuntimeError>>, base: nat)
    ensures
        cites_between(launch_part_issues(launch, base), base, base + launch_part_evidence(launch).len()),
{
    let issues = launch_part_issues(launch, base);
    let hi = base + launch_part_evidence(launch).len();
    assert forall|i: int, m: int| 0 <= i < issues.len() && 0 <= m < issues[i].evidence_ids.len() implies exists|j: nat|
        base < j <= hi && #[trigger] issues[i].evidence_ids[m] == evidence_id(j) by {
        match launch {
            Some(Ok(r)) => {
                let n = launch_evidence(Ok(r)).len();
                assert(issues[i].evidence_ids == evidence_ids_after(base, n));
                assert(issues[i].evidence_ids[m] == evidence_id((base + m + 1) as nat));
            },
            Some(Err(e)) => {
                assert(issues[i].evidence_ids[m] == evidence_id(base + 1));
            },
            None => {},
        }
    }
}

proof fn lemma_browser_issues_cite(browser: Option<Result<BrowserRunReport, BrowserError>>, base: nat)
    ensures
        cites_between(browser_part_issues(browser, base), base, base + browser_part_evidence(browser).len()),
{
    let issues = browser_part_issues(browser, base);
    let hi = base + browser_part_evidence(browser).len();
    assert forall|i: int, m: int| 0 <= i < issues.len() && 0 <= m < issues[i].evidence_ids.len() implies exists|j: nat|
        base < j <= hi && #[trigger] issues[i].evidence_ids[m] == evidence_id(j) by {
        match browser {
            Some(Ok(r)) => {
                let n = browser_evidence(Ok(r)).len();
                assert(n >= 1);
                if issues[i].evidence_ids == evidence_ids_after(base, n) {
                    assert(issues[i].evidence_ids[m] == evidence_id((base + m + 1) as nat));
                } else {
                    assert(issues[i].evidence_ids[m] == evidence_id(base + 1));
                }
            },
            Some(Err(e)) => {
                assert(issues[i].evidence_ids[m] == evidence_id(base + 1));
            },
            None => {},
        }
    }
}

/// Every evidence id that an issue of a review cites names evidence that the
/// review recorded: `EV-00j` for one of its `j` pieces of evidence.
pub proof fn lemma_issues_cite_recorded_evidence(
    rep: RequirementReportView,
    launch: Option<Result<LaunchReport, RuntimeError>>,
    browser: Option<Result<BrowserRunReport, BrowserError>>,
)
    ensures
        cites_between(review_issues(rep, launch, browser), 0, review_evidence(rep, launch, browser).len()),
{
    let b1 = requirement_evidence(rep).len();
    let b2 = b1 + launch_part_evidence(launch).len();
    let total = review_evidence(rep, launch, browser).len();
    lemma_requirement_issues_cite(rep);
    lemma_launch_issues_cite(launch, b1);
    lemma_browser_issues_cite(browser, b2 as nat);
    let a = requirement_issues(rep, 0);
    let b = launch_part_issues(launch, b1);
    let c = browser_part_issues(browser, b2 as nat);
    let issues = review_issues(rep, launch, browser);
    assert(issues == a + b + c);
    assert forall|i: int, m: int| 0 <= i < issues.len() && 0 <= m < issues[i].evidence_ids.len() implies exists|j: nat|
        0 < j <= total && #[trigger] issues[i].evidence_ids[m] == evidence_id(j) by {
        if i < a.len() {
            assert(issues[i] == a[i]);
            let j = choose|j: nat| 0 < j <= b1 && #[trigger] a[i].evidence_ids[m] == evidence_id(j);
            assert(issues[i].evidence_ids[m] == evidence_id(j));
        } else if i < a.len() + b.len() {
            let k = i - a.len();
            assert(issues[i] == b[k]);
            let j = choose|j: nat| b1 < j <= b2 && #[trigger] b[k].evidence_ids[m] == evidence_id(j);
            assert(issues[i].evidence_ids[m] == evidence_id(j));
        } else {
            let k = i - a.len() - b.len();
            assert(issues[i] == c[k]);
            let j = choose|j: nat| b2 < j <= total && #[trigger] c[k].evidence_ids[m] == evidence_id(j);
            assert(issues[i].evidence_ids[m] == evidence_id(j));
        }
    }
}

/// In a review with a launch report, the evidence recorded right after the
/// requirement evidence is the launch command, judged by how the launch went:
/// informational for a dry run; for a real launch, a pass when it succeeded,
/// a warning when it timed out, and a failure when it neither succeeded nor
/// timed out (a crashed dev server is never recorded as a pass).
pub proof fn lemma_launch_evidence_judges_the_launch(
    rep: RequirementReportView,
    launch: LaunchReport,
    browser: Option<Result<BrowserRunReport, BrowserError>>,
)
    ensures
        ({
            let ev = review_evidence(rep, Some(Ok::<LaunchReport, RuntimeError>(launch)), browser);
            let k = requirement_evidence(rep).len() as int;
            let x = launch.execution;
            &&& k < ev.len()
            &&& ev[k].kind == ReviewEvidenceKind::LaunchCommand
            &&& x.dry_run ==> ev[k].status == EvidenceStatus::Info
            &&& !x.dry_run && x.success ==> ev[k].status == EvidenceStatus::Pass
            &&& !x.dry_run && !x.success && x.timed_out ==> ev[k].status == EvidenceStatus::Warning
            &&& !x.dry_run && !x.success && !x.timed_out ==> ev[k].status == EvidenceStatus::Fail
        }),
{
    let l = Some(Ok::<LaunchReport, RuntimeError>(launch));
    let a = requirement_evidence(rep);
    let b = launch_part_evidence(l);
    let c = browser_part_evidence(browser);
    assert(b[0].kind == ReviewEvidenceKind::LaunchCommand);
    assert((a + b + c)[a.len() as int] == b[0]);
}

} // verus!
