//! The text forms of the reports, one line per entry, as the command line
//! shows them. Printing them, and the JSON forms, are left to the caller.
use vstd::prelude::*;
use crate::browser::{
    action_kind_name, browser_severity_name, BrowserAction, BrowserCase, BrowserDiagnostic,
    BrowserRunReport, PageProbeEvidence,
};
use crate::ai::{
    confidence_name, provider_name, suggestion_severity_name, suggestion_type_name,
    AiAnalysisReport, AiSuggestion,
};
use crate::doctor::{AiProviderCheck, DoctorReport, ToolCheck};
use crate::scanner::{LanguageStat, ProjectProfile};
use crate::requirements::{
    category_name, diagnostic_severity_name, flag_kind_name, priority_name, AcceptanceCriterion,
    ExecutorHint, Requirement, RequirementDiagnostic, RequirementDocument, RequirementQualityFlag,
    RequirementReport,
};
use crate::runtime::{
    adapter_name, runtime_severity_name, LaunchDiagnostic, LaunchReport,
};
use crate::remediation::{safety_name, strategy_name, PatchProposal, RegressionCheck, RemediationReport};
use crate::review::{
    approval_name, evidence_kind_name, evidence_status_name, issue_category_name,
    issue_severity_name, EvidenceItem, Issue, ReviewReport,
};
use crate::text::{
    chars_of, decimal, decimal_string, join, join_strings, lines, lines_of, owned, string_of,
    string_views, views,
};

verus! {

pub open spec fn yes_no_spec(value: bool) -> Seq<char> {
    if value {
        "yes"@
    } else {
        "no"@
    }
}

/// "yes" or "no".
pub fn yes_no(value: bool) -> (r: &'static str)
    ensures
        r@ == yes_no_spec(value),
{
    if value {
        "yes"
    } else {
        "no"
    }
}

pub open spec fn join_or_none_spec(values: Seq<Seq<char>>) -> Seq<char> {
    if values.len() == 0 {
        "none detected"@
    } else {
        join(values, ", "@)
    }
}

/// The values joined by ", ", or "none detected" when there are none.
pub fn join_or_none(values: &Vec<String>) -> (r: String)
    ensures
        r@ == join_or_none_spec(string_views(values@)),
{
    if values.len() == 0 {
        owned("none detected")
    } else {
        join_strings(values, ", ")
    }
}

pub open spec fn line(s: Seq<char>) -> Seq<char> {
    s + "\n"@
}

/// Each item on a line of its own, after `prefix`.
pub open spec fn prefixed_lines(items: Seq<Seq<char>>, prefix: Seq<char>) -> Seq<char>
    decreases items.len(),
{
    if items.len() == 0 {
        Seq::empty()
    } else {
        prefixed_lines(items.drop_last(), prefix) + line(prefix + items.last())
    }
}

fn push_line(out: &mut String, s: &str)
    ensures
        final(out)@ == old(out)@ + line(s@),
{
    out.append(s);
    out.append("\n");
}

fn push_prefixed_lines(out: &mut String, items: &Vec<String>, prefix: &str)
    ensures
        final(out)@ == old(out)@ + prefixed_lines(string_views(items@), prefix@),
{
    let ghost head = out@;
    let ghost iv = string_views(items@);
    let mut i: usize = 0;
    while i < items.len()
        invariant
            i <= items@.len(),
            iv == string_views(items@),
            out@ == head + prefixed_lines(iv.take(i as int), prefix@),
        decreases items.len() - i,
    {
        assert(iv.take(i + 1).drop_last() == iv.take(i as int));
        assert(iv.take(i + 1).last() == items@[i as int]@);
        out.append(prefix);
        out.append(items[i].as_str());
        out.append("\n");
        i = i + 1;
    }
    assert(iv.take(iv.len() as int) == iv);
}

/// The lines of a text, as strings.
fn line_strings(text: &str) -> (r: Vec<String>)
    ensures
        string_views(r@) == lines(text@),
{
    let chars = chars_of(text);
    let ls = lines_of(chars.as_slice());
    let ghost lv = views(ls@);
    let mut out: Vec<String> = Vec::new();
    let mut i: usize = 0;
    while i < ls.len()
        invariant
            i <= ls@.len(),
            lv == views(ls@),
            out@.len() == i,
            string_views(out@) == lv.take(i as int),
        decreases ls.len() - i,
    {
        let s = string_of(ls[i].as_slice());
        let ghost prev = out@;
        out.push(s);
        assert forall|j: int| 0 <= j < i + 1 implies #[trigger] string_views(out@)[j] == lv.take(
            i + 1,
        )[j] by {
            if j < i {
                assert(out@[j] == prev[j]);
                assert(string_views(prev)[j] == lv.take(i as int)[j]);
            }
        }
        assert(string_views(out@) =~= lv.take(i + 1));
        i = i + 1;
    }
    assert(lv.take(lv.len() as int) == lv);
    out
}

// ---------------------------------------------------------------------------
// Review
// ---------------------------------------------------------------------------

pub open spec fn issue_head(i: Issue) -> Seq<char> {
    line(
        "- "@ + i.id@ + " ["@ + issue_severity_name(i.severity) + " / "@ + issue_category_name(
            i.category,
        ) + " / "@ + approval_name(i.approval) + "] "@ + i.title@,
    )
}

pub open spec fn issue_details(i: Issue) -> Seq<char> {
    line("  expected: "@ + i.expected@) + line("  actual: "@ + i.actual@) + line(
        "  evidence: "@ + join(string_views(i.evidence_ids@), ", "@),
    ) + line("  recommendation: "@ + i.recommendation@)
}

pub open spec fn issue_block(i: Issue) -> Seq<char> {
    issue_head(i) + (match i.related_requirement {
        Some(r) => line("  requirement: "@ + r@),
        None => Seq::<char>::empty(),
    }) + issue_details(i)
}

pub open spec fn issue_blocks(v: Seq<Issue>) -> Seq<char>
    decreases v.len(),
{
    if v.len() == 0 {
        Seq::empty()
    } else {
        issue_blocks(v.drop_last()) + issue_block(v.last())
    }
}

pub open spec fn evidence_line(e: EvidenceItem) -> Seq<char> {
    line(
        "- "@ + e.id@ + " ["@ + evidence_status_name(e.status) + " / "@ + evidence_kind_name(e.kind)
            + "]"@ + (match e.related_requirement {
            Some(r) => " "@ + r@,
            None => Seq::<char>::empty(),
        }) + " "@ + e.summary@,
    )
}

pub open spec fn evidence_lines(v: Seq<EvidenceItem>) -> Seq<char>
    decreases v.len(),
{
    if v.len() == 0 {
        Seq::empty()
    } else {
        evidence_lines(v.drop_last()) + evidence_line(v.last())
    }
}

pub open spec fn review_header(r: ReviewReport) -> Seq<char> {
    let c = r.config;
    line("SpecProbe review"@) + line("----------------"@) + line(
        "Requirements: "@ + c.requirements_source@,
    ) + line("Project: "@ + c.project_root@) + line("Base URL: "@ + c.base_url@) + line(
        "Mode: "@ + (if c.execute {
            "execute"@
        } else {
            "plan-only"@
        }) + ", launch="@ + yes_no_spec(c.launch_enabled) + ", browser="@ + yes_no_spec(
            c.browser_enabled,
        ),
    )
}

pub open spec fn review_summary_line(s: crate::review::ReviewSummary) -> Seq<char> {
    line(
        "Summary: requirements="@ + decimal(s.requirements as nat) + ", test-cases="@ + decimal(
            s.test_cases as nat,
        ) + ", evidence="@ + decimal(s.evidence_items as nat) + ", issues="@ + decimal(
            s.issues as nat,
        ) + " (critical="@ + decimal(s.critical as nat) + ", high="@ + decimal(s.high as nat)
            + ", medium="@ + decimal(s.medium as nat) + ", low="@ + decimal(s.low as nat)
            + ", info="@ + decimal(s.info as nat) + "), pending-decisions="@ + decimal(
            s.pending_decisions as nat,
        ),
    )
}

pub open spec fn review_issues_part(r: ReviewReport) -> Seq<char> {
    if r.issues@.len() == 0 {
        line("\nNo issues were generated from the available evidence."@)
    } else {
        line("\nIssues"@) + issue_blocks(r.issues@)
    }
}

pub open spec fn review_evidence_part(r: ReviewReport) -> Seq<char> {
    if r.evidence@.len() > 0 {
        line("\nEvidence"@) + evidence_lines(r.evidence@)
    } else {
        Seq::<char>::empty()
    }
}

pub open spec fn review_text(r: ReviewReport) -> Seq<char> {
    review_header(r) + review_summary_line(r.summary) + review_issues_part(r) + review_evidence_part(r)
}

fn push_issue_head(out: &mut String, i: &Issue)
    ensures
        final(out)@ == old(out)@ + issue_head(*i),
{
    let mut l = owned("- ");
    l.append(i.id.as_str());
    l.append(" [");
    l.append(i.severity.name());
    l.append(" / ");
    l.append(i.category.name());
    l.append(" / ");
    l.append(i.approval.name());
    l.append("] ");
    l.append(i.title.as_str());
    push_line(out, l.as_str());
}

fn push_labeled(out: &mut String, label: &str, value: &str)
    ensures
        final(out)@ == old(out)@ + line(label@ + value@),
{
    let mut l = owned(label);
    l.append(value);
    push_line(out, l.as_str());
}

fn push_issue_details(out: &mut String, i: &Issue)
    ensures
        final(out)@ == old(out)@ + issue_details(*i),
{
    let ghost o = out@;
    push_labeled(out, "  expected: ", i.expected.as_str());
    push_labeled(out, "  actual: ", i.actual.as_str());
    let e = join_strings(&i.evidence_ids, ", ");
    push_labeled(out, "  evidence: ", e.as_str());
    push_labeled(out, "  recommendation: ", i.recommendation.as_str());
    assert(out@ =~= o + issue_details(*i));
}

fn push_issue_block(out: &mut String, i: &Issue)
    ensures
        final(out)@ == old(out)@ + issue_block(*i),
{
    let ghost o = out@;
    push_issue_head(out, i);
    let ghost o1 = out@;
    match &i.related_requirement {
        Some(r) => {
            push_labeled(out, "  requirement: ", r.as_str());
        },
        None => {},
    }
    let ghost o2 = out@;
    push_issue_details(out, i);
    assert(out@ =~= o + issue_block(*i));
}

fn push_evidence_line(out: &mut String, e: &EvidenceItem)
    ensures
        final(out)@ == old(out)@ + evidence_line(*e),
{
    let mut l = owned("- ");
    l.append(e.id.as_str());
    l.append(" [");
    l.append(e.status.name());
    l.append(" / ");
    l.append(e.kind.name());
    l.append("]");
    match &e.related_requirement {
        Some(r) => {
            l.append(" ");
            l.append(r.as_str());
        },
        None => {},
    }
    l.append(" ");
    l.append(e.summary.as_str());
    push_line(out, l.as_str());
}

fn push_review_header(out: &mut String, report: &ReviewReport)
    ensures
        final(out)@ == old(out)@ + review_header(*report),
{
    let ghost o = out@;
    let c = &report.config;
    push_line(out, "SpecProbe review");
    push_line(out, "----------------");
    push_labeled(out, "Requirements: ", c.requirements_source.as_str());
    push_labeled(out, "Project: ", c.project_root.as_str());
    push_labeled(out, "Base URL: ", c.base_url.as_str());
    let mut l = owned("Mode: ");
    l.append(if c.execute { "execute" } else { "plan-only" });
    l.append(", launch=");
    l.append(yes_no(c.launch_enabled));
    l.append(", browser=");
    l.append(yes_no(c.browser_enabled));
    push_line(out, l.as_str());
    assert(out@ =~= o + review_header(*report));
}

fn append_number(l: &mut String, n: usize)
    ensures
        final(l)@ == old(l)@ + decimal(n as nat),
{
    let d = decimal_string(n as u128);
    l.append(d.as_str());
}

fn push_review_summary(out: &mut String, s: &crate::review::ReviewSummary)
    ensures
        final(out)@ == old(out)@ + review_summary_line(*s),
{
    let mut l = owned("Summary: requirements=");
    append_number(&mut l, s.requirements);
    l.append(", test-cases=");
    append_number(&mut l, s.test_cases);
    l.append(", evidence=");
    append_number(&mut l, s.evidence_items);
    l.append(", issues=");
    append_number(&mut l, s.issues);
    l.append(" (critical=");
    append_number(&mut l, s.critical);
    l.append(", high=");
    append_number(&mut l, s.high);
    l.append(", medium=");
    append_number(&mut l, s.medium);
    l.append(", low=");
    append_number(&mut l, s.low);
    l.append(", info=");
    append_number(&mut l, s.info);
    l.append("), pending-decisions=");
    append_number(&mut l, s.pending_decisions);
    push_line(out, l.as_str());
}

fn push_review_issues(out: &mut String, report: &ReviewReport)
    ensures
        final(out)@ == old(out)@ + review_issues_part(*report),
{
    let ghost o = out@;
    if report.issues.len() == 0 {
        push_line(out, "\nNo issues were generated from the available evidence.");
    } else {
        push_line(out, "\nIssues");
        let ghost h2 = out@;
        let mut i: usize = 0;
        while i < report.issues.len()
            invariant
                i <= report.issues@.len(),
                out@ == h2 + issue_blocks(report.issues@.take(i as int)),
            decreases report.issues.len() - i,
        {
            assert(report.issues@.take(i + 1).drop_last() == report.issues@.take(i as int));
            push_issue_block(out, &report.issues[i]);
            i = i + 1;
        }
        assert(report.issues@.take(report.issues@.len() as int) == report.issues@);
        assert(out@ =~= o + review_issues_part(*report));
    }
}

fn push_review_evidence(out: &mut String, report: &ReviewReport)
    ensures
        final(out)@ == old(out)@ + review_evidence_part(*report),
{
    let ghost o = out@;
    if report.evidence.len() > 0 {
        push_line(out, "\nEvidence");
        let ghost h3 = out@;
        let mut k: usize = 0;
        while k < report.evidence.len()
            invariant
                k <= report.evidence@.len(),
                out@ == h3 + evidence_lines(report.evidence@.take(k as int)),
            decreases report.evidence.len() - k,
        {
            assert(report.evidence@.take(k + 1).drop_last() == report.evidence@.take(k as int));
            push_evidence_line(out, &report.evidence[k]);
            k = k + 1;
        }
        assert(report.evidence@.take(report.evidence@.len() as int) == report.evidence@);
        assert(out@ =~= o + review_evidence_part(*report));
    }
}

/// The text form of a review.
pub fn render_review_report(report: &ReviewReport) -> (r: String)
    ensures
        r@ == review_text(*report),
{
    let mut out = String::new();
    push_review_header(&mut out, report);
    push_review_summary(&mut out, &report.summary);
    push_review_issues(&mut out, report);
    push_review_evidence(&mut out, report);
    assert(out@ =~= review_text(*report));
    out
}

// ---------------------------------------------------------------------------
// Remediation
// ---------------------------------------------------------------------------

pub open spec fn proposal_head(p: PatchProposal) -> Seq<char> {
    line(
        "- "@ + p.id@ + " -> "@ + p.issue_id@ + " ["@ + strategy_name(p.strategy) + " / "@
            + safety_name(p.safety) + " / "@ + approval_name(p.approval) + "] "@ + p.title@,
    )
}

pub open spec fn proposal_block(p: PatchProposal) -> Seq<char> {
    proposal_head(p) + line("  target files: "@ + join_or_none_spec(string_views(p.target_files@)))
        + line("  rationale: "@ + p.rationale@) + line("  steps:"@) + prefixed_lines(
        string_views(p.steps@),
        "    - "@,
    ) + (match p.patch_preview {
        Some(preview) => line("  patch preview:"@) + prefixed_lines(lines(preview@), "    "@),
        None => Seq::<char>::empty(),
    }) + (if p.risk_notes@.len() > 0 {
        line("  risks:"@) + prefixed_lines(string_views(p.risk_notes@), "    - "@)
    } else {
        Seq::<char>::empty()
    })
}

pub open spec fn proposal_blocks(v: Seq<PatchProposal>) -> Seq<char>
    decreases v.len(),
{
    if v.len() == 0 {
        Seq::empty()
    } else {
        proposal_blocks(v.drop_last()) + proposal_block(v.last())
    }
}

pub open spec fn check_block(c: RegressionCheck) -> Seq<char> {
    line(
        "- "@ + c.id@ + (match c.proposal_id {
            Some(p) => " "@ + p@,
            None => Seq::<char>::empty(),
        }) + " ["@ + (if c.required {
            "required"@
        } else {
            "optional"@
        }) + "] "@ + c.command@,
    ) + line("  reason: "@ + c.reason@)
}

pub open spec fn check_blocks(v: Seq<RegressionCheck>) -> Seq<char>
    decreases v.len(),
{
    if v.len() == 0 {
        Seq::empty()
    } else {
        check_blocks(v.drop_last()) + check_block(v.last())
    }
}

pub open spec fn remediation_header(r: RemediationReport) -> Seq<char> {
    let s = r.summary;
    line("SpecProbe proposals"@) + line("-------------------"@) + line(
        "Review source: "@ + r.review.config.requirements_source@,
    ) + line("Project: "@ + r.review.config.project_root@) + line(
        "Summary: issues="@ + decimal(s.issues as nat) + ", proposals="@ + decimal(
            s.proposals as nat,
        ) + ", patch-previews="@ + decimal(s.patch_previews as nat) + ", regression-checks="@
            + decimal(s.regression_checks as nat) + ", auto-apply="@ + yes_no_spec(
            s.auto_apply_supported,
        ),
    ) + line("Approval required: "@ + yes_no_spec(s.requires_user_approval))
}

pub open spec fn remediation_proposals_part(r: RemediationReport) -> Seq<char> {
    if r.proposals@.len() == 0 {
        line("\nNo patch proposals were generated from the current review issues."@)
    } else {
        line("\nPatch proposals"@) + proposal_blocks(r.proposals@)
    }
}

pub open spec fn remediation_checks_part(r: RemediationReport) -> Seq<char> {
    if r.regression_plan.checks@.len() > 0 {
        line("\nRegression checks"@) + check_blocks(r.regression_plan.checks@)
    } else {
        Seq::<char>::empty()
    }
}

/// The text form of the proposals: the summary, each proposal with its
/// target files, steps, patch preview and risks, then the regression checks.
pub open spec fn remediation_text(r: RemediationReport) -> Seq<char> {
    remediation_header(r) + remediation_proposals_part(r) + remediation_checks_part(r)
}

fn push_proposal_head(out: &mut String, p: &PatchProposal)
    ensures
        final(out)@ == old(out)@ + proposal_head(*p),
{
    let mut l = owned("- ");
    l.append(p.id.as_str());
    l.append(" -> ");
    l.append(p.issue_id.as_str());
    l.append(" [");
    l.append(p.strategy.name());
    l.append(" / ");
    l.append(p.safety.name());
    l.append(" / ");
    l.append(p.approval.name());
    l.append("] ");
    l.append(p.title.as_str());
    push_line(out, l.as_str());
}

fn push_proposal_block(out: &mut String, p: &PatchProposal)
    ensures
        final(out)@ == old(out)@ + proposal_block(*p),
{
    let ghost o = out@;
    push_proposal_head(out, p);
    let files = join_or_none(&p.target_files);
    push_labeled(out, "  target files: ", files.as_str());
    push_labeled(out, "  rationale: ", p.rationale.as_str());
    push_line(out, "  steps:");
    push_prefixed_lines(out, &p.steps, "    - ");
    let ghost o1 = out@;
    match &p.patch_preview {
        Some(preview) => {
            push_line(out, "  patch preview:");
            let ls = line_strings(preview.as_str());
            push_prefixed_lines(out, &ls, "    ");
        },
        None => {},
    }
    let ghost o2 = out@;
    if p.risk_notes.len() > 0 {
        push_line(out, "  risks:");
        push_prefixed_lines(out, &p.risk_notes, "    - ");
    }
    assert(out@ =~= o + proposal_block(*p));
}

fn push_check_block(out: &mut String, c: &RegressionCheck)
    ensures
        final(out)@ == old(out)@ + check_block(*c),
{
    let mut l = owned("- ");
    l.append(c.id.as_str());
    match &c.proposal_id {
        Some(p) => {
            l.append(" ");
            l.append(p.as_str());
        },
        None => {},
    }
    l.append(" [");
    l.append(if c.required { "required" } else { "optional" });
    l.append("] ");
    l.append(c.command.as_str());
    push_line(out, l.as_str());
    push_labeled(out, "  reason: ", c.reason.as_str());
}

fn push_remediation_header(out: &mut String, r: &RemediationReport)
    ensures
        final(out)@ == old(out)@ + remediation_header(*r),
{
    let ghost o = out@;
    let s = &r.summary;
    push_line(out, "SpecProbe proposals");
    push_line(out, "-------------------");
    push_labeled(out, "Review source: ", r.review.config.requirements_source.as_str());
    push_labeled(out, "Project: ", r.review.config.project_root.as_str());
    let mut l = owned("Summary: issues=");
    append_number(&mut l, s.issues);
    l.append(", proposals=");
    append_number(&mut l, s.proposals);
    l.append(", patch-previews=");
    append_number(&mut l, s.patch_previews);
    l.append(", regression-checks=");
    append_number(&mut l, s.regression_checks);
    l.append(", auto-apply=");
    l.append(yes_no(s.auto_apply_supported));
    push_line(out, l.as_str());
    push_labeled(out, "Approval required: ", yes_no(s.requires_user_approval));
    assert(out@ =~= o + remediation_header(*r));
}

/// The text form of the proposals.
pub fn render_remediation_report(report: &RemediationReport) -> (r: String)
    ensures
        r@ == remediation_text(*report),
{
    let mut out = String::new();
    push_remediation_header(&mut out, report);
    let ghost o1 = out@;
    if report.proposals.len() == 0 {
        push_line(&mut out, "\nNo patch proposals were generated from the current review issues.");
    } else {
        push_line(&mut out, "\nPatch proposals");
        let ghost h = out@;
        let mut i: usize = 0;
        while i < report.proposals.len()
            invariant
                i <= report.proposals@.len(),
                out@ == h + proposal_blocks(report.proposals@.take(i as int)),
            decreases report.proposals.len() - i,
        {
            assert(report.proposals@.take(i + 1).drop_last() == report.proposals@.take(i as int));
            push_proposal_block(&mut out, &report.proposals[i]);
            i = i + 1;
        }
        assert(report.proposals@.take(report.proposals@.len() as int) == report.proposals@);
    }
    assert(out@ =~= o1 + remediation_proposals_part(*report));
    let ghost o2 = out@;
    let checks = &report.regression_plan.checks;
    if checks.len() > 0 {
        push_line(&mut out, "\nRegression checks");
        let ghost h = out@;
        let mut k: usize = 0;
        while k < checks.len()
            invariant
                k <= checks@.len(),
                out@ == h + check_blocks(checks@.take(k as int)),
            decreases checks.len() - k,
        {
            assert(checks@.take(k + 1).drop_last() == checks@.take(k as int));
            push_check_block(&mut out, &checks[k]);
            k = k + 1;
        }
        assert(checks@.take(checks@.len() as int) == checks@);
    }
    assert(out@ =~= o2 + remediation_checks_part(*report));
    assert(out@ =~= remediation_text(*report));
    out
}

// ---------------------------------------------------------------------------
// Browser run
// ---------------------------------------------------------------------------

/// The name of an executor hint as `{:?}` writes it.
pub open spec fn executor_hint_debug(h: ExecutorHint) -> Seq<char> {
    match h {
        ExecutorHint::Browser => "Browser"@,
        ExecutorHint::Api => "Api"@,
        ExecutorHint::Cli => "Cli"@,
        ExecutorHint::Generic => "Generic"@,
        ExecutorHint::ManualReview => "ManualReview"@,
    }
}

fn executor_hint_text(h: ExecutorHint) -> (r: &'static str)
    ensures
        r@ == executor_hint_debug(h),
{
    match h {
        ExecutorHint::Browser => "Browser",
        ExecutorHint::Api => "Api",
        ExecutorHint::Cli => "Cli",
        ExecutorHint::Generic => "Generic",
        ExecutorHint::ManualReview => "ManualReview",
    }
}

pub open spec fn browser_diagnostic_line(d: BrowserDiagnostic) -> Seq<char> {
    line("- ["@ + browser_severity_name(d.severity) + "] "@ + d.message@)
}

pub open spec fn browser_diagnostic_lines(v: Seq<BrowserDiagnostic>) -> Seq<char>
    decreases v.len(),
{
    if v.len() == 0 {
        Seq::empty()
    } else {
        browser_diagnostic_lines(v.drop_last()) + browser_diagnostic_line(v.last())
    }
}

pub open spec fn page_part(p: PageProbeEvidence) -> Seq<char> {
    line("\nPage evidence"@) + line("URL: "@ + p.url@) + line(
        "Status: "@ + match p.status_code {
            Some(c) => decimal(c as nat),
            None => "unknown"@,
        },
    ) + line("Status line: "@ + p.status_text@) + (match p.title {
        Some(t) => line("Title: "@ + t@),
        None => Seq::<char>::empty(),
    }) + line("Response bytes: "@ + decimal(p.response_bytes as nat)) + (if p.body_excerpt@.len()
        > 0 {
        line("Body excerpt: "@ + p.body_excerpt@)
    } else {
        Seq::<char>::empty()
    })
}

pub open spec fn browser_action_line(a: BrowserAction) -> Seq<char> {
    line("  - "@ + action_kind_name(a.action) + " "@ + a.target@) + match a.assertion {
        Some(s) => line("    assert: "@ + s@),
        None => Seq::<char>::empty(),
    }
}

pub open spec fn browser_action_lines(v: Seq<BrowserAction>) -> Seq<char>
    decreases v.len(),
{
    if v.len() == 0 {
        Seq::empty()
    } else {
        browser_action_lines(v.drop_last()) + browser_action_line(v.last())
    }
}

pub open spec fn browser_case_block(c: BrowserCase) -> Seq<char> {
    line(
        "- "@ + c.id@ + " -> "@ + c.requirement_id@ + " ("@ + executor_hint_debug(
            c.source_executor_hint,
        ) + ")"@,
    ) + browser_action_lines(c.actions@)
}

pub open spec fn browser_case_blocks(v: Seq<BrowserCase>) -> Seq<char>
    decreases v.len(),
{
    if v.len() == 0 {
        Seq::empty()
    } else {
        browser_case_blocks(v.drop_last()) + browser_case_block(v.last())
    }
}

pub open spec fn browser_header(r: BrowserRunReport) -> Seq<char> {
    let e = r.execution;
    line("Browser test execution"@) + line("----------------------"@) + line(
        "Requirements: "@ + r.requirement_source@,
    ) + line("Base URL: "@ + r.base_url@) + line(
        "Execution: attempted="@ + yes_no_spec(e.attempted) + ", dry-run="@ + yes_no_spec(
            e.dry_run,
        ) + ", success="@ + yes_no_spec(e.success) + ", duration="@ + decimal(e.duration_ms as nat)
            + " ms, timeout="@ + decimal(e.timeout_secs as nat) + " s"@,
    ) + line("Browser cases: "@ + decimal(r.plan.cases@.len()))
}

/// The text form of a browser run: the run, its diagnostics, the page that
/// was probed and the action plan.
pub open spec fn browser_text(r: BrowserRunReport) -> Seq<char> {
    browser_header(r) + (if r.diagnostics@.len() > 0 {
        line("\nDiagnostics"@) + browser_diagnostic_lines(r.diagnostics@)
    } else {
        Seq::<char>::empty()
    }) + (match r.page {
        Some(p) => page_part(p),
        None => Seq::<char>::empty(),
    }) + (if r.plan.cases@.len() > 0 {
        line("\nAction plan"@) + browser_case_blocks(r.plan.cases@)
    } else {
        Seq::<char>::empty()
    })
}

fn append_u128(l: &mut String, n: u128)
    ensures
        final(l)@ == old(l)@ + decimal(n as nat),
{
    let d = decimal_string(n);
    l.append(d.as_str());
}

fn push_browser_header(out: &mut String, r: &BrowserRunReport)
    ensures
        final(out)@ == old(out)@ + browser_header(*r),
{
    let ghost o = out@;
    let e = &r.execution;
    push_line(out, "Browser test execution");
    push_line(out, "----------------------");
    push_labeled(out, "Requirements: ", r.requirement_source.as_str());
    push_labeled(out, "Base URL: ", r.base_url.as_str());
    let mut l = owned("Execution: attempted=");
    l.append(yes_no(e.attempted));
    l.append(", dry-run=");
    l.append(yes_no(e.dry_run));
    l.append(", success=");
    l.append(yes_no(e.success));
    l.append(", duration=");
    append_u128(&mut l, e.duration_ms);
    l.append(" ms, timeout=");
    append_u128(&mut l, e.timeout_secs as u128);
    l.append(" s");
    push_line(out, l.as_str());
    let mut c = owned("Browser cases: ");
    append_number(&mut c, r.plan.cases.len());
    push_line(out, c.as_str());
    assert(out@ =~= o + browser_header(*r));
}

fn push_page_part(out: &mut String, p: &PageProbeEvidence)
    ensures
        final(out)@ == old(out)@ + page_part(*p),
{
    let ghost o = out@;
    push_line(out, "\nPage evidence");
    push_labeled(out, "URL: ", p.url.as_str());
    let mut l = owned("Status: ");
    match p.status_code {
        Some(c) => append_u128(&mut l, c as u128),
        None => l.append("unknown"),
    }
    push_line(out, l.as_str());
    push_labeled(out, "Status line: ", p.status_text.as_str());
    let ghost o1 = out@;
    match &p.title {
        Some(t) => push_labeled(out, "Title: ", t.as_str()),
        None => {},
    }
    let ghost o2 = out@;
    let mut b = owned("Response bytes: ");
    append_number(&mut b, p.response_bytes);
    push_line(out, b.as_str());
    if p.body_excerpt.as_str().unicode_len() > 0 {
        push_labeled(out, "Body excerpt: ", p.body_excerpt.as_str());
    }
    assert(out@ =~= o + page_part(*p));
}

fn push_browser_case_block(out: &mut String, c: &BrowserCase)
    ensures
        final(out)@ == old(out)@ + browser_case_block(*c),
{
    let ghost o = out@;
    let mut l = owned("- ");
    l.append(c.id.as_str());
    l.append(" -> ");
    l.append(c.requirement_id.as_str());
    l.append(" (");
    l.append(executor_hint_text(c.source_executor_hint));
    l.append(")");
    push_line(out, l.as_str());
    let ghost h = out@;
    let mut i: usize = 0;
    while i < c.actions.len()
        invariant
            i <= c.actions@.len(),
            out@ == h + browser_action_lines(c.actions@.take(i as int)),
        decreases c.actions.len() - i,
    {
        assert(c.actions@.take(i + 1).drop_last() == c.actions@.take(i as int));
        let a = &c.actions[i];
        let ghost before = out@;
        let mut al = owned("  - ");
        al.append(a.action.name());
        al.append(" ");
        al.append(a.target.as_str());
        push_line(out, al.as_str());
        match &a.assertion {
            Some(s) => push_labeled(out, "    assert: ", s.as_str()),
            None => {},
        }
        assert(out@ =~= before + browser_action_line(*a));
        i = i + 1;
    }
    assert(c.actions@.take(c.actions@.len() as int) == c.actions@);
    assert(out@ =~= o + browser_case_block(*c));
}

/// The text form of a browser run.
pub fn render_browser_report(report: &BrowserRunReport) -> (r: String)
    ensures
        r@ == browser_text(*report),
{
    let mut out = String::new();
    push_browser_header(&mut out, report);
    let ghost o1 = out@;
    if report.diagnostics.len() > 0 {
        push_line(&mut out, "\nDiagnostics");
        let ghost h = out@;
        let mut i: usize = 0;
        while i < report.diagnostics.len()
            invariant
                i <= report.diagnostics@.len(),
                out@ == h + browser_diagnostic_lines(report.diagnostics@.take(i as int)),
            decreases report.diagnostics.len() - i,
        {
            assert(report.diagnostics@.take(i + 1).drop_last() == report.diagnostics@.take(i as int));
            let d = &report.diagnostics[i];
            let mut l = owned("- [");
            l.append(d.severity.name());
            l.append("] ");
            l.append(d.message.as_str());
            push_line(&mut out, l.as_str());
            i = i + 1;
        }
        assert(report.diagnostics@.take(report.diagnostics@.len() as int) == report.diagnostics@);
    }
    let ghost o2 = out@;
    match &report.page {
        Some(p) => push_page_part(&mut out, p),
        None => {},
    }
    let ghost o3 = out@;
    if report.plan.cases.len() > 0 {
        push_line(&mut out, "\nAction plan");
        let ghost h = out@;
        let mut k: usize = 0;
        while k < report.plan.cases.len()
            invariant
                k <= report.plan.cases@.len(),
                out@ == h + browser_case_blocks(report.plan.cases@.take(k as int)),
            decreases report.plan.cases.len() - k,
        {
            assert(report.plan.cases@.take(k + 1).drop_last() == report.plan.cases@.take(k as int));
            push_browser_case_block(&mut out, &report.plan.cases[k]);
            k = k + 1;
        }
        assert(report.plan.cases@.take(report.plan.cases@.len() as int) == report.plan.cases@);
    }
    assert(out@ =~= browser_text(*report));
    out
}

// ---------------------------------------------------------------------------
// Launch
// ---------------------------------------------------------------------------

pub open spec fn launch_diagnostic_lines(v: Seq<LaunchDiagnostic>) -> Seq<char>
    decreases v.len(),
{
    if v.len() == 0 {
        Seq::empty()
    } else {
        launch_diagnostic_lines(v.drop_last()) + line(
            "- ["@ + runtime_severity_name(v.last().severity) + "] "@ + v.last().message@,
        )
    }
}

pub open spec fn exit_code_text(code: Option<i32>) -> Seq<char> {
    match code {
        Some(c) => crate::text::signed_decimal(c as int),
        None => "none"@,
    }
}

pub open spec fn execution_text(e: crate::runtime::LaunchExecution) -> Seq<char> {
    "Execution: attempted="@ + yes_no_spec(e.attempted) + ", dry-run="@ + yes_no_spec(e.dry_run)
        + ", success="@ + yes_no_spec(e.success) + ", timed-out="@ + yes_no_spec(e.timed_out)
        + ", exit-code="@ + exit_code_text(e.exit_code)
}

pub open spec fn duration_text(e: crate::runtime::LaunchExecution) -> Seq<char> {
    "Duration: "@ + decimal(e.duration_ms as nat) + " ms (timeout: "@ + decimal(e.timeout_secs as nat)
        + " s)"@
}

pub open spec fn command_text(c: crate::runtime::LaunchCommand) -> Seq<char> {
    "Command: "@ + c.program@ + " "@ + join(string_views(c.args@), " "@)
}

pub open spec fn source_text(c: crate::runtime::LaunchCommand) -> Seq<char> {
    "Source: "@ + c.source@ + " ("@ + crate::runtime::confidence_name(c.confidence) + ")"@
}

pub open spec fn launch_header(r: LaunchReport) -> Seq<char> {
    line("Project launch"@) + line("--------------"@) + line("Project: "@ + r.project_root@) + line(
        "Adapter: "@ + adapter_name(r.adapter),
    ) + line(command_text(r.command)) + line("Working directory: "@ + r.command.working_directory@)
        + line(source_text(r.command)) + line(execution_text(r.execution)) + line(
        duration_text(r.execution),
    )
}

/// The text form of a launch: the command and how it ran, the diagnostics
/// and the captured output.
pub open spec fn launch_text(r: LaunchReport) -> Seq<char> {
    launch_header(r) + (if r.diagnostics@.len() > 0 {
        line("\nDiagnostics"@) + launch_diagnostic_lines(r.diagnostics@)
    } else {
        Seq::<char>::empty()
    }) + (if r.stdout_excerpt@.len() > 0 {
        line("\nstdout"@) + line(r.stdout_excerpt@)
    } else {
        Seq::<char>::empty()
    }) + (if r.stderr_excerpt@.len() > 0 {
        line("\nstderr"@) + line(r.stderr_excerpt@)
    } else {
        Seq::<char>::empty()
    })
}

fn execution_string(e: &crate::runtime::LaunchExecution) -> (r: String)
    ensures
        r@ == execution_text(*e),
{
    let mut l = owned("Execution: attempted=");
    l.append(yes_no(e.attempted));
    l.append(", dry-run=");
    l.append(yes_no(e.dry_run));
    l.append(", success=");
    l.append(yes_no(e.success));
    l.append(", timed-out=");
    l.append(yes_no(e.timed_out));
    l.append(", exit-code=");
    match e.exit_code {
        Some(code) => {
            let d = crate::text::signed_decimal_string(code as i64);
            l.append(d.as_str());
        },
        None => l.append("none"),
    }
    l
}

fn duration_string(e: &crate::runtime::LaunchExecution) -> (r: String)
    ensures
        r@ == duration_text(*e),
{
    let mut dl = owned("Duration: ");
    append_u128(&mut dl, e.duration_ms);
    dl.append(" ms (timeout: ");
    append_u128(&mut dl, e.timeout_secs as u128);
    dl.append(" s)");
    dl
}

fn command_string(c: &crate::runtime::LaunchCommand) -> (r: String)
    ensures
        r@ == command_text(*c),
{
    let mut l = owned("Command: ");
    l.append(c.program.as_str());
    l.append(" ");
    let args = join_strings(&c.args, " ");
    l.append(args.as_str());
    l
}

fn source_string(c: &crate::runtime::LaunchCommand) -> (r: String)
    ensures
        r@ == source_text(*c),
{
    let mut l = owned("Source: ");
    l.append(c.source.as_str());
    l.append(" (");
    l.append(c.confidence.name());
    l.append(")");
    l
}

fn push_launch_header(out: &mut String, r: &LaunchReport)
    ensures
        final(out)@ == old(out)@ + launch_header(*r),
{
    let ghost o = out@;
    push_line(out, "Project launch");
    push_line(out, "--------------");
    push_labeled(out, "Project: ", r.project_root.as_str());
    push_labeled(out, "Adapter: ", r.adapter.name());
    let c = command_string(&r.command);
    push_line(out, c.as_str());
    push_labeled(out, "Working directory: ", r.command.working_directory.as_str());
    let sl = source_string(&r.command);
    push_line(out, sl.as_str());
    let el = execution_string(&r.execution);
    push_line(out, el.as_str());
    let dl = duration_string(&r.execution);
    push_line(out, dl.as_str());
    assert(out@ =~= o + launch_header(*r));
}

/// The text form of a launch.
pub fn render_launch_report(report: &LaunchReport) -> (r: String)
    ensures
        r@ == launch_text(*report),
{
    let mut out = String::new();
    push_launch_header(&mut out, report);
    let ghost o1 = out@;
    if report.diagnostics.len() > 0 {
        push_line(&mut out, "\nDiagnostics");
        let ghost h = out@;
        let mut i: usize = 0;
        while i < report.diagnostics.len()
            invariant
                i <= report.diagnostics@.len(),
                out@ == h + launch_diagnostic_lines(report.diagnostics@.take(i as int)),
            decreases report.diagnostics.len() - i,
        {
            assert(report.diagnostics@.take(i + 1).drop_last() == report.diagnostics@.take(i as int));
            let d = &report.diagnostics[i];
            let mut l = owned("- [");
            l.append(d.severity.name());
            l.append("] ");
            l.append(d.message.as_str());
            push_line(&mut out, l.as_str());
            i = i + 1;
        }
        assert(report.diagnostics@.take(report.diagnostics@.len() as int) == report.diagnostics@);
    }
    let ghost o2 = out@;
    if report.stdout_excerpt.as_str().unicode_len() > 0 {
        push_line(&mut out, "\nstdout");
        push_line(&mut out, report.stdout_excerpt.as_str());
    }
    let ghost o3 = out@;
    if report.stderr_excerpt.as_str().unicode_len() > 0 {
        push_line(&mut out, "\nstderr");
        push_line(&mut out, report.stderr_excerpt.as_str());
    }
    assert(out@ =~= launch_text(*report));
    out
}

// ---------------------------------------------------------------------------
// Requirements
// ---------------------------------------------------------------------------

pub open spec fn document_lines(v: Seq<RequirementDocument>) -> Seq<char>
    decreases v.len(),
{
    if v.len() == 0 {
        Seq::empty()
    } else {
        document_lines(v.drop_last()) + line(
            "- "@ + v.last().path@ + ": "@ + decimal(v.last().requirement_count as nat)
                + " requirement(s)"@,
        )
    }
}

pub open spec fn requirement_diagnostic_lines(v: Seq<RequirementDiagnostic>) -> Seq<char>
    decreases v.len(),
{
    if v.len() == 0 {
        Seq::empty()
    } else {
        requirement_diagnostic_lines(v.drop_last()) + line(
            "- ["@ + diagnostic_severity_name(v.last().severity) + "] "@ + v.last().message@,
        )
    }
}

pub open spec fn criterion_lines(v: Seq<AcceptanceCriterion>) -> Seq<char>
    decreases v.len(),
{
    if v.len() == 0 {
        Seq::empty()
    } else {
        criterion_lines(v.drop_last()) + line("  - "@ + v.last().id@ + " "@ + v.last().statement@)
    }
}

pub open spec fn flag_lines(v: Seq<RequirementQualityFlag>) -> Seq<char>
    decreases v.len(),
{
    if v.len() == 0 {
        Seq::empty()
    } else {
        flag_lines(v.drop_last()) + line(
            "  warning: "@ + flag_kind_name(v.last().kind) + " - "@ + v.last().message@,
        )
    }
}

pub open spec fn requirement_block(r: Requirement) -> Seq<char> {
    line(
        "- "@ + r.id@ + " ["@ + priority_name(r.priority) + " / "@ + category_name(r.category)
            + "] "@ + r.title@,
    ) + line("  source: "@ + r.source.path@ + ":"@ + decimal(r.source.line as nat)) + criterion_lines(
        r.acceptance_criteria@,
    ) + flag_lines(r.quality_flags@)
}

pub open spec fn requirement_blocks(v: Seq<Requirement>) -> Seq<char>
    decreases v.len(),
{
    if v.len() == 0 {
        Seq::empty()
    } else {
        requirement_blocks(v.drop_last()) + requirement_block(v.last())
    }
}

pub open spec fn requirements_header(r: RequirementReport) -> Seq<char> {
    line("Requirement analysis: "@ + r.source@) + line(
        "Documents: "@ + decimal(r.documents@.len()) + ", requirements: "@ + decimal(
            r.requirements@.len(),
        ) + ", test cases: "@ + decimal(r.test_plan.cases@.len()),
    ) + (if r.documents@.len() > 0 {
        line("\nDocuments"@) + document_lines(r.documents@)
    } else {
        Seq::<char>::empty()
    }) + (if r.diagnostics@.len() > 0 {
        line("\nDiagnostics"@) + requirement_diagnostic_lines(r.diagnostics@)
    } else {
        Seq::<char>::empty()
    })
}

/// The text form of a requirement analysis: the counts, the documents, the
/// diagnostics and each requirement with its criteria and warnings.
pub open spec fn requirements_text(r: RequirementReport) -> Seq<char> {
    requirements_header(r) + if r.requirements@.len() == 0 {
        line("\nNo requirements were extracted."@)
    } else {
        line("\nRequirements"@) + requirement_blocks(r.requirements@)
    }
}

fn push_requirement_block(out: &mut String, r: &Requirement)
    ensures
        final(out)@ == old(out)@ + requirement_block(*r),
{
    let ghost o = out@;
    let mut l = owned("- ");
    l.append(r.id.as_str());
    l.append(" [");
    l.append(r.priority.name());
    l.append(" / ");
    l.append(r.category.name());
    l.append("] ");
    l.append(r.title.as_str());
    push_line(out, l.as_str());
    let mut sl = owned("  source: ");
    sl.append(r.source.path.as_str());
    sl.append(":");
    append_number(&mut sl, r.source.line);
    push_line(out, sl.as_str());
    let ghost h = out@;
    let cs = &r.acceptance_criteria;
    let mut i: usize = 0;
    while i < cs.len()
        invariant
            i <= cs@.len(),
            out@ == h + criterion_lines(cs@.take(i as int)),
        decreases cs.len() - i,
    {
        assert(cs@.take(i + 1).drop_last() == cs@.take(i as int));
        let mut cl = owned("  - ");
        cl.append(cs[i].id.as_str());
        cl.append(" ");
        cl.append(cs[i].statement.as_str());
        push_line(out, cl.as_str());
        i = i + 1;
    }
    assert(cs@.take(cs@.len() as int) == cs@);
    let ghost h2 = out@;
    let fs = &r.quality_flags;
    let mut k: usize = 0;
    while k < fs.len()
        invariant
            k <= fs@.len(),
            out@ == h2 + flag_lines(fs@.take(k as int)),
        decreases fs.len() - k,
    {
        assert(fs@.take(k + 1).drop_last() == fs@.take(k as int));
        let mut fl = owned("  warning: ");
        fl.append(fs[k].kind.name());
        fl.append(" - ");
        fl.append(fs[k].message.as_str());
        push_line(out, fl.as_str());
        k = k + 1;
    }
    assert(fs@.take(fs@.len() as int) == fs@);
    assert(out@ =~= o + requirement_block(*r));
}

fn push_requirements_header(out: &mut String, r: &RequirementReport)
    ensures
        final(out)@ == old(out)@ + requirements_header(*r),
{
    let ghost o = out@;
    push_labeled(out, "Requirement analysis: ", r.source.as_str());
    let mut l = owned("Documents: ");
    append_number(&mut l, r.documents.len());
    l.append(", requirements: ");
    append_number(&mut l, r.requirements.len());
    l.append(", test cases: ");
    append_number(&mut l, r.test_plan.cases.len());
    push_line(out, l.as_str());
    let ghost o1 = out@;
    if r.documents.len() > 0 {
        push_line(out, "\nDocuments");
        let ghost h = out@;
        let mut i: usize = 0;
        while i < r.documents.len()
            invariant
                i <= r.documents@.len(),
                out@ == h + document_lines(r.documents@.take(i as int)),
            decreases r.documents.len() - i,
        {
            assert(r.documents@.take(i + 1).drop_last() == r.documents@.take(i as int));
            let d = &r.documents[i];
            let mut dl = owned("- ");
            dl.append(d.path.as_str());
            dl.append(": ");
            append_number(&mut dl, d.requirement_count);
            dl.append(" requirement(s)");
            push_line(out, dl.as_str());
            i = i + 1;
        }
        assert(r.documents@.take(r.documents@.len() as int) == r.documents@);
    }
    let ghost o2 = out@;
    if r.diagnostics.len() > 0 {
        push_line(out, "\nDiagnostics");
        let ghost h = out@;
        let mut k: usize = 0;
        while k < r.diagnostics.len()
            invariant
                k <= r.diagnostics@.len(),
                out@ == h + requirement_diagnostic_lines(r.diagnostics@.take(k as int)),
            decreases r.diagnostics.len() - k,
        {
            assert(r.diagnostics@.take(k + 1).drop_last() == r.diagnostics@.take(k as int));
            let d = &r.diagnostics[k];
            let mut dl = owned("- [");
            dl.append(d.severity.name());
            dl.append("] ");
            dl.append(d.message.as_str());
            push_line(out, dl.as_str());
            k = k + 1;
        }
        assert(r.diagnostics@.take(r.diagnostics@.len() as int) == r.diagnostics@);
    }
    assert(out@ =~= o + requirements_header(*r));
}

/// The text form of a requirement analysis.
pub fn render_requirement_report(report: &RequirementReport) -> (r: String)
    ensures
        r@ == requirements_text(*report),
{
    let mut out = String::new();
    push_requirements_header(&mut out, report);
    let ghost o1 = out@;
    if report.requirements.len() == 0 {
        push_line(&mut out, "\nNo requirements were extracted.");
    } else {
        push_line(&mut out, "\nRequirements");
        let ghost h = out@;
        let mut i: usize = 0;
        while i < report.requirements.len()
            invariant
                i <= report.requirements@.len(),
                out@ == h + requirement_blocks(report.requirements@.take(i as int)),
            decreases report.requirements.len() - i,
        {
            assert(report.requirements@.take(i + 1).drop_last() == report.requirements@.take(i as int));
            push_requirement_block(&mut out, &report.requirements[i]);
            i = i + 1;
        }
        assert(report.requirements@.take(report.requirements@.len() as int) == report.requirements@);
    }
    assert(out@ =~= requirements_text(*report));
    out
}

// ---------------------------------------------------------------------------
// AI analysis
// ---------------------------------------------------------------------------

pub open spec fn suggestion_block(s: AiSuggestion) -> Seq<char> {
    line(
        "- "@ + s.requirement_id@ + " ["@ + suggestion_severity_name(s.severity) + " / "@
            + suggestion_type_name(s.suggestion_type) + "] "@ + s.message@,
    ) + line("  rationale: "@ + s.rationale@)
}

pub open spec fn suggestion_blocks(v: Seq<AiSuggestion>) -> Seq<char>
    decreases v.len(),
{
    if v.len() == 0 {
        Seq::empty()
    } else {
        suggestion_blocks(v.drop_last()) + suggestion_block(v.last())
    }
}

pub open spec fn ai_header(r: AiAnalysisReport) -> Seq<char> {
    let p = r.provider;
    line("AI-assisted analysis"@) + line("--------------------"@) + line(
        "Provider: "@ + p.name@ + " ("@ + provider_name(p.kind) + ", model: "@ + p.model@
            + ", configured: "@ + yes_no_spec(p.configured) + ", offline: "@ + yes_no_spec(p.offline)
            + ")"@,
    ) + line(
        "Input: "@ + decimal(r.request.requirement_count as nat) + " requirement(s), schema: "@
            + r.request.schema_name@,
    ) + line("Summary: "@ + r.model_output.summary@) + line(
        "Confidence: "@ + confidence_name(r.model_output.confidence),
    )
}

/// The text form of an AI analysis: the provider, the summary, the
/// suggestions and the follow-up questions.
pub open spec fn ai_text(r: AiAnalysisReport) -> Seq<char> {
    let o = r.model_output;
    ai_header(r) + (if o.suggestions@.len() == 0 {
        line("\nNo AI suggestions were produced."@)
    } else {
        line("\nSuggestions"@) + suggestion_blocks(o.suggestions@)
    }) + (if o.follow_up_questions@.len() > 0 {
        line("\nFollow-up questions"@) + prefixed_lines(string_views(o.follow_up_questions@), "- "@)
    } else {
        Seq::<char>::empty()
    })
}

fn push_ai_header(out: &mut String, r: &AiAnalysisReport)
    ensures
        final(out)@ == old(out)@ + ai_header(*r),
{
    let ghost o = out@;
    let p = &r.provider;
    push_line(out, "AI-assisted analysis");
    push_line(out, "--------------------");
    let mut l = owned("Provider: ");
    l.append(p.name.as_str());
    l.append(" (");
    l.append(p.kind.name());
    l.append(", model: ");
    l.append(p.model.as_str());
    l.append(", configured: ");
    l.append(yes_no(p.configured));
    l.append(", offline: ");
    l.append(yes_no(p.offline));
    l.append(")");
    push_line(out, l.as_str());
    let mut il = owned("Input: ");
    append_number(&mut il, r.request.requirement_count);
    il.append(" requirement(s), schema: ");
    il.append(r.request.schema_name.as_str());
    push_line(out, il.as_str());
    push_labeled(out, "Summary: ", r.model_output.summary.as_str());
    push_labeled(out, "Confidence: ", r.model_output.confidence.name());
    assert(out@ =~= o + ai_header(*r));
}

/// The text form of an AI analysis.
pub fn render_ai_report(report: &AiAnalysisReport) -> (r: String)
    ensures
        r@ == ai_text(*report),
{
    let mut out = String::new();
    push_ai_header(&mut out, report);
    let o = &report.model_output;
    let ghost o1 = out@;
    if o.suggestions.len() == 0 {
        push_line(&mut out, "\nNo AI suggestions were produced.");
    } else {
        push_line(&mut out, "\nSuggestions");
        let ghost h = out@;
        let mut i: usize = 0;
        while i < o.suggestions.len()
            invariant
                i <= o.suggestions@.len(),
                out@ == h + suggestion_blocks(o.suggestions@.take(i as int)),
            decreases o.suggestions.len() - i,
        {
            assert(o.suggestions@.take(i + 1).drop_last() == o.suggestions@.take(i as int));
            let s = &o.suggestions[i];
            let ghost before = out@;
            let mut l = owned("- ");
            l.append(s.requirement_id.as_str());
            l.append(" [");
            l.append(s.severity.name());
            l.append(" / ");
            l.append(s.suggestion_type.name());
            l.append("] ");
            l.append(s.message.as_str());
            push_line(&mut out, l.as_str());
            push_labeled(&mut out, "  rationale: ", s.rationale.as_str());
            assert(out@ =~= before + suggestion_block(*s));
            i = i + 1;
        }
        assert(o.suggestions@.take(o.suggestions@.len() as int) == o.suggestions@);
    }
    let ghost o2 = out@;
    if o.follow_up_questions.len() > 0 {
        push_line(&mut out, "\nFollow-up questions");
        push_prefixed_lines(&mut out, &o.follow_up_questions, "- ");
    }
    assert(out@ =~= ai_text(*report));
    out
}

// ---------------------------------------------------------------------------
// Environment and project
// ---------------------------------------------------------------------------

/// `s` padded with spaces on the right to `width` characters, as `{:<width}`
/// pads.
pub open spec fn pad_right(s: Seq<char>, width: nat) -> Seq<char> {
    if s.len() >= width {
        s
    } else {
        s + Seq::new((width - s.len()) as nat, |i: int| ' ')
    }
}

fn append_padded(l: &mut String, s: &str, width: usize)
    ensures
        final(l)@ == old(l)@ + pad_right(s@, width as nat),
{
    let ghost start = l@;
    l.append(s);
    let n = s.unicode_len();
    let mut k = n;
    assert(l@ =~= start + s@ + Seq::new((k - n) as nat, |i: int| ' '));
    while k < width
        invariant
            n == s@.len(),
            n <= k <= width || (n > width && k == n),
            l@ == start + s@ + Seq::new((k - n) as nat, |i: int| ' '),
        decreases width - k,
    {
        let ghost before = l@;
        l.append(" ");
        proof {
            reveal_strlit(" ");
        }
        assert(Seq::new((k + 1 - n) as nat, |i: int| ' ') =~= Seq::new((k - n) as nat, |i: int| ' ').push(' '));
        assert(l@ =~= start + s@ + Seq::new((k + 1 - n) as nat, |i: int| ' '));
        k = k + 1;
    }
    assert(l@ =~= start + pad_right(s@, width as nat));
}

pub open spec fn tool_detail(t: ToolCheck) -> Seq<char> {
    match t.version {
        Some(v) => v@,
        None => match t.note {
            Some(n) => n@,
            None => "no details"@,
        },
    }
}

pub open spec fn tool_line(t: ToolCheck) -> Seq<char> {
    line(
        "["@ + pad_right(
            if t.available {
                "OK"@
            } else {
                "MISSING"@
            },
            7,
        ) + "] "@ + pad_right(t.name@, 8) + " "@ + tool_detail(t),
    )
}

pub open spec fn tool_lines(v: Seq<ToolCheck>) -> Seq<char>
    decreases v.len(),
{
    if v.len() == 0 {
        Seq::empty()
    } else {
        tool_lines(v.drop_last()) + tool_line(v.last())
    }
}

pub open spec fn provider_line(p: AiProviderCheck) -> Seq<char> {
    line(
        "["@ + pad_right(
            if p.configured {
                "CONFIGURED"@
            } else {
                "NOT SET"@
            },
            10,
        ) + "] "@ + p.name@ + " ("@ + p.source@ + ")"@,
    )
}

pub open spec fn provider_lines(v: Seq<AiProviderCheck>) -> Seq<char>
    decreases v.len(),
{
    if v.len() == 0 {
        Seq::empty()
    } else {
        provider_lines(v.drop_last()) + provider_line(v.last())
    }
}

/// The text form of the environment check: each tool, each provider, the
/// readiness and the notes.
pub open spec fn doctor_text(r: DoctorReport) -> Seq<char> {
    line("SpecProbe environment"@) + line("---------------------"@) + tool_lines(r.tools@) + line(
        "\nAI providers"@,
    ) + provider_lines(r.ai_providers@) + line(
        "\nReadiness: core="@ + yes_no_spec(r.core_ready) + ", web-testing="@ + yes_no_spec(
            r.web_testing_ready,
        ) + ", ai="@ + yes_no_spec(r.ai_ready),
    ) + prefixed_lines(string_views(r.notes@), "Note: "@)
}

fn push_tool_line(out: &mut String, t: &ToolCheck)
    ensures
        final(out)@ == old(out)@ + tool_line(*t),
{
    let mut l = owned("[");
    append_padded(&mut l, if t.available { "OK" } else { "MISSING" }, 7);
    l.append("] ");
    append_padded(&mut l, t.name.as_str(), 8);
    l.append(" ");
    match &t.version {
        Some(v) => l.append(v.as_str()),
        None => match &t.note {
            Some(n) => l.append(n.as_str()),
            None => l.append("no details"),
        },
    }
    push_line(out, l.as_str());
}

/// The text form of the environment check.
pub fn render_doctor_report(report: &DoctorReport) -> (r: String)
    ensures
        r@ == doctor_text(*report),
{
    let mut out = String::new();
    push_line(&mut out, "SpecProbe environment");
    push_line(&mut out, "---------------------");
    let ghost h = out@;
    let mut i: usize = 0;
    while i < report.tools.len()
        invariant
            i <= report.tools@.len(),
            out@ == h + tool_lines(report.tools@.take(i as int)),
        decreases report.tools.len() - i,
    {
        assert(report.tools@.take(i + 1).drop_last() == report.tools@.take(i as int));
        push_tool_line(&mut out, &report.tools[i]);
        i = i + 1;
    }
    assert(report.tools@.take(report.tools@.len() as int) == report.tools@);
    push_line(&mut out, "\nAI providers");
    let ghost h2 = out@;
    let mut k: usize = 0;
    while k < report.ai_providers.len()
        invariant
            k <= report.ai_providers@.len(),
            out@ == h2 + provider_lines(report.ai_providers@.take(k as int)),
        decreases report.ai_providers.len() - k,
    {
        assert(report.ai_providers@.take(k + 1).drop_last() == report.ai_providers@.take(k as int));
        let p = &report.ai_providers[k];
        let mut l = owned("[");
        append_padded(&mut l, if p.configured { "CONFIGURED" } else { "NOT SET" }, 10);
        l.append("] ");
        l.append(p.name.as_str());
        l.append(" (");
        l.append(p.source.as_str());
        l.append(")");
        push_line(&mut out, l.as_str());
        k = k + 1;
    }
    assert(report.ai_providers@.take(report.ai_providers@.len() as int) == report.ai_providers@);
    let mut l = owned("\nReadiness: core=");
    l.append(yes_no(report.core_ready));
    l.append(", web-testing=");
    l.append(yes_no(report.web_testing_ready));
    l.append(", ai=");
    l.append(yes_no(report.ai_ready));
    push_line(&mut out, l.as_str());
    push_prefixed_lines(&mut out, &report.notes, "Note: ");
    assert(out@ =~= doctor_text(*report));
    out
}

pub open spec fn language_text(l: LanguageStat) -> Seq<char> {
    l.language@ + " ("@ + decimal(l.files as nat) + ")"@
}

/// The text form of a project scan: the project, its manifests, requirement
/// documents, technologies and languages.
pub open spec fn profile_text(p: ProjectProfile) -> Seq<char> {
    line("Project: "@ + p.root@) + line("Git repository: "@ + yes_no_spec(p.git_repository)) + line(
        "Source files: "@ + decimal(p.source_file_count as nat) + " (tests: "@ + decimal(
            p.test_file_count as nat,
        ) + ")"@,
    ) + line("Manifests: "@ + join_or_none_spec(string_views(p.manifests@))) + line(
        "Requirement documents: "@ + join_or_none_spec(string_views(p.requirement_documents@)),
    ) + line("Technologies: "@ + join_or_none_spec(string_views(p.technologies@))) + if p.languages@.len()
        == 0 {
        line("Languages: none detected"@)
    } else {
        line(
            "Languages: "@ + join(
                p.languages@.map_values(|l: LanguageStat| language_text(l)),
                ", "@,
            ),
        )
    }
}

/// The text form of a project scan.
pub fn render_project_profile(profile: &ProjectProfile) -> (r: String)
    ensures
        r@ == profile_text(*profile),
{
    let mut out = String::new();
    push_labeled(&mut out, "Project: ", profile.root.as_str());
    push_labeled(&mut out, "Git repository: ", yes_no(profile.git_repository));
    let mut l = owned("Source files: ");
    append_number(&mut l, profile.source_file_count);
    l.append(" (tests: ");
    append_number(&mut l, profile.test_file_count);
    l.append(")");
    push_line(&mut out, l.as_str());
    let m = join_or_none(&profile.manifests);
    push_labeled(&mut out, "Manifests: ", m.as_str());
    let d = join_or_none(&profile.requirement_documents);
    push_labeled(&mut out, "Requirement documents: ", d.as_str());
    let t = join_or_none(&profile.technologies);
    push_labeled(&mut out, "Technologies: ", t.as_str());
    if profile.languages.len() == 0 {
        push_line(&mut out, "Languages: none detected");
    } else {
        let ghost ls = profile.languages@;
        let mut items: Vec<String> = Vec::new();
        let mut i: usize = 0;
        while i < profile.languages.len()
            invariant
                i <= ls.len(),
                ls == profile.languages@,
                items@.len() == i,
                string_views(items@) == ls.take(i as int).map_values(|l: LanguageStat| language_text(l)),
            decreases profile.languages.len() - i,
        {
            let lang = &profile.languages[i];
            let mut s = lang.language.clone();
            s.append(" (");
            append_number(&mut s, lang.files);
            s.append(")");
            let ghost prev = items@;
            items.push(s);
            assert forall|j: int| 0 <= j < i + 1 implies #[trigger] string_views(items@)[j] == ls.take(
                i + 1,
            ).map_values(|l: LanguageStat| language_text(l))[j] by {
                if j < i {
                    assert(items@[j] == prev[j]);
                    assert(string_views(prev)[j] == ls.take(i as int).map_values(
                        |l: LanguageStat| language_text(l),
                    )[j]);
                }
            }
            assert(string_views(items@) =~= ls.take(i + 1).map_values(
                |l: LanguageStat| language_text(l),
            ));
            i = i + 1;
        }
        assert(ls.take(ls.len() as int) == ls);
        let joined = join_strings(&items, ", ");
        push_labeled(&mut out, "Languages: ", joined.as_str());
    }
    assert(out@ =~= profile_text(*profile));
    out
}

} // verus!
