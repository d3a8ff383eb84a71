//! Browser evidence: the action plan derived from the test plan, the
//! decisions between the Playwright sidecar and the HTTP probe, and the
//! evidence each produced. Fetching pages and running the sidecar is left to
//! the caller.
use vstd::prelude::*;

use crate::ai::AiProviderKind;
use crate::playwright::{
    action_label, action_target, ActionOutcome, NetworkFailure, PlaywrightAction,
    PlaywrightOutcome,
};
use crate::requirements::{
    ExecutorHint, RequirementError, RequirementReport, TestAction, TestCase, TestCaseView,
    TestStepView, case_views,
};
use crate::scenario::Scenario;
use crate::text::{
    ascii_lower, ascii_lower_chars, chars_of, concat_string, decimal, decimal_string, excerpt,
    excerpt_string, find, find_chars, opt_string_view, owned, slice_vec, starts_with,
    starts_with_str, string_of, trim, trim_chars,
};

verus! {

/// Characters of a page body kept as evidence.
pub const BODY_EXCERPT_LIMIT: usize = 2000;

/// Seconds the whole sidecar run may take beyond the per-action timeout.
pub const PLAYWRIGHT_OVERHEAD_SECS: u64 = 10;

/// Options of a browser run: a provider other than the offline one makes
/// concrete scenarios; no cache directory disables the response cache.
#[derive(Debug, Default)]
pub struct BrowserOptions {
    pub provider: AiProviderKind,
    pub cache_dir: Option<String>,
}

/// Why a browser report could not be produced.
#[derive(Debug)]
pub enum BrowserError {
    Requirements(RequirementError),
    /// Only `http://` and `https://` can be probed.
    UnsupportedUrl(String),
    /// The HTTP client could not be built.
    Client(String),
    /// Fetching the page failed.
    Probe { target: String, message: String },
}

/// Which backend produced the evidence; `None` for a dry run.
#[derive(Clone, Copy, PartialEq, Eq, Structural, Debug)]
pub enum BrowserBackend {
    Playwright,
    HttpProbe,
    NotRun,
}

pub open spec fn backend_name(b: BrowserBackend) -> Seq<char> {
    match b {
        BrowserBackend::Playwright => "playwright"@,
        BrowserBackend::HttpProbe => "http-probe"@,
        BrowserBackend::NotRun => "none"@,
    }
}

impl BrowserBackend {
    pub fn name(self) -> (r: &'static str)
        ensures
            r@ == backend_name(self),
    {
        match self {
            BrowserBackend::Playwright => "playwright",
            BrowserBackend::HttpProbe => "http-probe",
            BrowserBackend::NotRun => "none",
        }
    }
}

/// A step of a planned browser case.
#[derive(Clone, Copy, PartialEq, Eq, Structural, Debug)]
pub enum BrowserActionKind {
    OpenPage,
    WaitForReady,
    PerformInteraction,
    AssertVisibleResult,
    CollectEvidence,
}

pub open spec fn action_kind_name(k: BrowserActionKind) -> Seq<char> {
    match k {
        BrowserActionKind::OpenPage => "open-page"@,
        BrowserActionKind::WaitForReady => "wait-for-ready"@,
        BrowserActionKind::PerformInteraction => "perform-interaction"@,
        BrowserActionKind::AssertVisibleResult => "assert-visible-result"@,
        BrowserActionKind::CollectEvidence => "collect-evidence"@,
    }
}

impl BrowserActionKind {
    pub fn name(self) -> (r: &'static str)
        ensures
            r@ == action_kind_name(self),
    {
        match self {
            BrowserActionKind::OpenPage => "open-page",
            BrowserActionKind::WaitForReady => "wait-for-ready",
            BrowserActionKind::PerformInteraction => "perform-interaction",
            BrowserActionKind::AssertVisibleResult => "assert-visible-result",
            BrowserActionKind::CollectEvidence => "collect-evidence",
        }
    }
}

#[derive(Clone, Copy, PartialEq, Eq, Structural, Debug)]
pub enum BrowserDiagnosticSeverity {
    Info,
    Warning,
    Error,
}

pub open spec fn browser_severity_name(s: BrowserDiagnosticSeverity) -> Seq<char> {
    match s {
        BrowserDiagnosticSeverity::Info => "info"@,
        BrowserDiagnosticSeverity::Warning => "warning"@,
        BrowserDiagnosticSeverity::Error => "error"@,
    }
}

impl BrowserDiagnosticSeverity {
    pub fn name(self) -> (r: &'static str)
        ensures
            r@ == browser_severity_name(self),
    {
        match self {
            BrowserDiagnosticSeverity::Info => "info",
            BrowserDiagnosticSeverity::Warning => "warning",
            BrowserDiagnosticSeverity::Error => "error",
        }
    }
}

#[derive(Debug)]
pub struct BrowserDiagnostic {
    pub severity: BrowserDiagnosticSeverity,
    pub message: String,
}

pub struct BrowserDiagnosticView {
    pub severity: BrowserDiagnosticSeverity,
    pub message: Seq<char>,
}

impl View for BrowserDiagnostic {
    type V = BrowserDiagnosticView;

    open spec fn view(&self) -> BrowserDiagnosticView {
        BrowserDiagnosticView { severity: self.severity, message: self.message@ }
    }
}

pub open spec fn diagnostic_views(v: Seq<BrowserDiagnostic>) -> Seq<BrowserDiagnosticView> {
    v.map_values(|d: BrowserDiagnostic| d@)
}

#[derive(Debug)]
pub struct BrowserAction {
    pub action: BrowserActionKind,
    pub target: String,
    pub input: Option<String>,
    pub assertion: Option<String>,
}

pub struct BrowserActionView {
    pub action: BrowserActionKind,
    pub target: Seq<char>,
    pub input: Option<Seq<char>>,
    pub assertion: Option<Seq<char>>,
}

impl View for BrowserAction {
    type V = BrowserActionView;

    open spec fn view(&self) -> BrowserActionView {
        BrowserActionView {
            action: self.action,
            target: self.target@,
            input: opt_string_view(self.input),
            assertion: opt_string_view(self.assertion),
        }
    }
}

#[derive(Debug)]
pub struct BrowserCase {
    pub id: String,
    pub requirement_id: String,
    pub title: String,
    pub source_executor_hint: ExecutorHint,
    pub actions: Vec<BrowserAction>,
    pub expected_result: String,
}

pub struct BrowserCaseView {
    pub id: Seq<char>,
    pub requirement_id: Seq<char>,
    pub title: Seq<char>,
    pub source_executor_hint: ExecutorHint,
    pub actions: Seq<BrowserActionView>,
    pub expected_result: Seq<char>,
}

impl View for BrowserCase {
    type V = BrowserCaseView;

    open spec fn view(&self) -> BrowserCaseView {
        BrowserCaseView {
            id: self.id@,
            requirement_id: self.requirement_id@,
            title: self.title@,
            source_executor_hint: self.source_executor_hint,
            actions: self.actions@.map_values(|a: BrowserAction| a@),
            expected_result: self.expected_result@,
        }
    }
}

#[derive(Debug)]
pub struct BrowserActionPlan {
    pub cases: Vec<BrowserCase>,
}

pub open spec fn browser_case_views(v: Seq<BrowserCase>) -> Seq<BrowserCaseView> {
    v.map_values(|c: BrowserCase| c@)
}

#[derive(Debug)]
pub struct BrowserExecution {
    pub attempted: bool,
    pub dry_run: bool,
    pub success: bool,
    pub duration_ms: u128,
    pub timeout_secs: u64,
}

#[derive(Debug)]
pub struct PageProbeEvidence {
    pub url: String,
    pub status_code: Option<u16>,
    pub status_text: String,
    pub title: Option<String>,
    pub body_excerpt: String,
    pub response_bytes: usize,
}

/// The archived run of the sidecar.
#[derive(Debug)]
pub struct PlaywrightEvidence {
    pub run_dir: String,
    pub outcome: PlaywrightOutcome,
}

#[derive(Debug)]
pub struct ScenarioStepReport {
    pub action: String,
    pub target: String,
    pub ok: bool,
    pub detail: Option<String>,
}

/// The result of one scenario.
#[derive(Debug)]
pub struct ScenarioResult {
    pub requirement_id: String,
    pub title: String,
    pub expected_observation: String,
    pub success: bool,
    pub screenshot: Option<String>,
    pub steps: Vec<ScenarioStepReport>,
}

#[derive(Debug)]
pub struct BrowserRunReport {
    pub requirement_source: String,
    pub base_url: String,
    pub backend: BrowserBackend,
    pub plan: BrowserActionPlan,
    pub execution: BrowserExecution,
    pub page: Option<PageProbeEvidence>,
    pub playwright: Option<PlaywrightEvidence>,
    /// Results of generated scenarios, when they ran.
    pub scenarios: Vec<ScenarioResult>,
    pub diagnostics: Vec<BrowserDiagnostic>,
}

/// What executing the plan produced.
#[derive(Debug)]
pub struct ExecutionOutcome {
    pub backend: BrowserBackend,
    pub success: bool,
    pub page: Option<PageProbeEvidence>,
    pub playwright: Option<PlaywrightEvidence>,
    pub scenarios: Vec<ScenarioResult>,
}

// ---------------------------------------------------------------------------
// Page probing
// ---------------------------------------------------------------------------

/// Only `http://` and `https://` pages can be probed.
pub fn is_supported_probe_url(url: &str) -> (r: bool)
    ensures
        r == (starts_with(url@, "http://"@) || starts_with(url@, "https://"@)),
{
    let v = chars_of(url);
    starts_with_str(v.as_slice(), "http://") || starts_with_str(v.as_slice(), "https://")
}

/// The page title: the text between the first `<title>` and the next
/// `</title>` (tags matched without regard to ASCII case), trimmed.
pub open spec fn title_spec(body: Seq<char>) -> Option<Seq<char>> {
    let lower = ascii_lower(body);
    match find(lower, "<title>"@) {
        Some(i) => {
            let start = i + 7;
            match find(lower.skip(start), "</title>"@) {
                Some(j) => Some(trim(body.subrange(start, start + j))),
                None => None,
            }
        },
        None => None,
    }
}

/// Extracts the page title.
pub fn extract_title(body: &str) -> (r: Option<String>)
    ensures
        opt_string_view(r) == title_spec(body@),
{
    let v = chars_of(body);
    let lower = ascii_lower_chars(v.as_slice());
    let open = chars_of("<title>");
    let close = chars_of("</title>");
    proof {
        reveal_strlit("<title>");
    }
    assert(open@.len() == 7);
    assert(lower@.len() == v@.len());
    match find_chars(lower.as_slice(), open.as_slice()) {
        Some(i) => {
            assert(i + open@.len() <= lower@.len());
            let n = lower.len();
            let start = i + 7;
            let rest = slice_vec(lower.as_slice(), start, lower.len());
            assert(rest@ == lower@.skip(start as int));
            match find_chars(rest.as_slice(), close.as_slice()) {
                Some(j) => {
                    let inner = slice_vec(v.as_slice(), start, start + j);
                    let t = trim_chars(inner.as_slice());
                    Some(string_of(t.as_slice()))
                },
                None => None,
            }
        },
        None => None,
    }
}

/// The evidence of a fetched page: its title and the trimmed body, cut to
/// `BODY_EXCERPT_LIMIT` characters.
pub fn page_evidence(
    url: &str,
    status_code: Option<u16>,
    status_text: String,
    body: &str,
    response_bytes: usize,
) -> (r: PageProbeEvidence)
    ensures
        r.url@ == url@,
        r.status_code == status_code,
        r.status_text@ == status_text@,
        opt_string_view(r.title) == title_spec(body@),
        r.body_excerpt@ == excerpt(trim(body@), BODY_EXCERPT_LIMIT as nat),
        r.response_bytes == response_bytes,
{
    let trimmed = trim_chars(chars_of(body).as_slice());
    PageProbeEvidence {
        url: owned(url),
        status_code,
        status_text,
        title: extract_title(body),
        body_excerpt: excerpt_string(trimmed.as_slice(), BODY_EXCERPT_LIMIT),
        response_bytes,
    }
}

// ---------------------------------------------------------------------------
// Action plan
// ---------------------------------------------------------------------------

/// Test cases that a browser can carry out or inspect.
pub open spec fn is_browser_hint(h: ExecutorHint) -> bool {
    h == ExecutorHint::Browser || h == ExecutorHint::Generic || h == ExecutorHint::ManualReview
}

/// The first step, from `i` on, that performs the requirement's action.
pub open spec fn interaction_step_from(steps: Seq<TestStepView>, i: int) -> Option<TestStepView>
    decreases steps.len() - i,
{
    if i < 0 || i >= steps.len() {
        None
    } else if steps[i].action == TestAction::PerformRequirementAction {
        Some(steps[i])
    } else {
        interaction_step_from(steps, i + 1)
    }
}

/// What the interaction acts on: the action step's target, else the page.
pub open spec fn action_target_spec(c: TestCaseView) -> Seq<char> {
    match interaction_step_from(c.steps, 0) {
        Some(st) => st.target,
        None => "page"@,
    }
}

/// The input of the interaction, if the action step has one.
pub open spec fn action_input_spec(c: TestCaseView) -> Option<Seq<char>> {
    match interaction_step_from(c.steps, 0) {
        Some(st) => st.input,
        None => None,
    }
}

pub open spec fn browser_actions_spec(c: TestCaseView, base_url: Seq<char>) -> Seq<BrowserActionView> {
    seq![
        BrowserActionView {
            action: BrowserActionKind::OpenPage,
            target: base_url,
            input: None,
            assertion: Some("page responds with a successful HTTP status"@),
        },
        BrowserActionView {
            action: BrowserActionKind::WaitForReady,
            target: "document"@,
            input: None,
            assertion: Some("page body is available for inspection"@),
        },
        BrowserActionView {
            action: BrowserActionKind::PerformInteraction,
            target: action_target_spec(c),
            input: action_input_spec(c),
            assertion: None,
        },
        BrowserActionView {
            action: BrowserActionKind::AssertVisibleResult,
            target: "page"@,
            input: None,
            assertion: Some(c.expected_result),
        },
        BrowserActionView {
            action: BrowserActionKind::CollectEvidence,
            target: "browser"@,
            input: None,
            assertion: Some(COLLECT_EVIDENCE_NOTE@),
        },
    ]
}

pub const COLLECT_EVIDENCE_NOTE: &'static str =
    "collect page status, title and body excerpt; console errors and screenshot require Playwright backend";

/// The browser case of a test case: open, wait, interact, assert, collect.
pub open spec fn browser_case_spec(c: TestCaseView, base_url: Seq<char>) -> BrowserCaseView {
    BrowserCaseView {
        id: "BROWSER-"@ + c.id,
        requirement_id: c.requirement_id,
        title: c.title,
        source_executor_hint: c.executor_hint,
        actions: browser_actions_spec(c, base_url),
        expected_result: c.expected_result,
    }
}

/// One browser case per test case suited to a browser, in order.
pub open spec fn browser_cases_spec(cases: Seq<TestCaseView>, base_url: Seq<char>) -> Seq<BrowserCaseView>
    decreases cases.len(),
{
    if cases.len() == 0 {
        Seq::empty()
    } else {
        let prev = browser_cases_spec(cases.drop_last(), base_url);
        if is_browser_hint(cases.last().executor_hint) {
            prev.push(browser_case_spec(cases.last(), base_url))
        } else {
            prev
        }
    }
}

fn interaction_step_index(case: &TestCase) -> (r: Option<usize>)
    ensures
        match r {
            Some(i) => i < case.steps@.len() && interaction_step_from(case@.steps, 0) == Some(
                case@.steps[i as int],
            ),
            None => interaction_step_from(case@.steps, 0) is None,
        },
{
    let ghost st = case@.steps;
    let mut i: usize = 0;
    while i < case.steps.len()
        invariant
            i <= case.steps@.len(),
            st == case@.steps,
            st.len() == case.steps@.len(),
            interaction_step_from(st, 0) == interaction_step_from(st, i as int),
        decreases case.steps.len() - i,
    {
        assert(st[i as int] == case.steps@[i as int]@);
        if case.steps[i].action == TestAction::PerformRequirementAction {
            return Some(i);
        }
        i = i + 1;
    }
    None
}

/// What the case's interaction acts on.
pub fn action_target_for_case(case: &TestCase) -> (r: String)
    ensures
        r@ == action_target_spec(case@),
{
    match interaction_step_index(case) {
        Some(i) => {
            assert(case@.steps[i as int] == case.steps@[i as int]@);
            case.steps[i].target.clone()
        },
        None => owned("page"),
    }
}

/// The input of the case's interaction.
pub fn action_input_for_case(case: &TestCase) -> (r: Option<String>)
    ensures
        opt_string_view(r) == action_input_spec(case@),
{
    match interaction_step_index(case) {
        Some(i) => {
            assert(case@.steps[i as int] == case.steps@[i as int]@);
            match &case.steps[i].input {
                Some(t) => Some(t.clone()),
                None => None,
            }
        },
        None => None,
    }
}

fn browser_case(case: &TestCase, base_url: &str) -> (r: BrowserCase)
    ensures
        r@ == browser_case_spec(case@, base_url@),
{
    let mut actions: Vec<BrowserAction> = Vec::new();
    actions.push(
        BrowserAction {
            action: BrowserActionKind::OpenPage,
            target: owned(base_url),
            input: None,
            assertion: Some(owned("page responds with a successful HTTP status")),
        },
    );
    actions.push(
        BrowserAction {
            action: BrowserActionKind::WaitForReady,
            target: owned("document"),
            input: None,
            assertion: Some(owned("page body is available for inspection")),
        },
    );
    actions.push(
        BrowserAction {
            action: BrowserActionKind::PerformInteraction,
            target: action_target_for_case(case),
            input: action_input_for_case(case),
            assertion: None,
        },
    );
    actions.push(
        BrowserAction {
            action: BrowserActionKind::AssertVisibleResult,
            target: owned("page"),
            input: None,
            assertion: Some(case.expected_result.clone()),
        },
    );
    actions.push(
        BrowserAction {
            action: BrowserActionKind::CollectEvidence,
            target: owned("browser"),
            input: None,
            assertion: Some(owned(COLLECT_EVIDENCE_NOTE)),
        },
    );
    let id = concat_string(&owned("BROWSER-"), case.id.as_str());
    let r = BrowserCase {
        id,
        requirement_id: case.requirement_id.clone(),
        title: case.title.clone(),
        source_executor_hint: case.executor_hint,
        actions,
        expected_result: case.expected_result.clone(),
    };
    assert(r@.actions =~= browser_actions_spec(case@, base_url@));
    r
}

/// The browser action plan of the requirement report's test plan.
pub fn build_browser_action_plan(requirement_report: &RequirementReport, base_url: &str) -> (r: BrowserActionPlan)
    ensures
        browser_case_views(r.cases@) == browser_cases_spec(
            requirement_report@.test_plan.cases,
            base_url@,
        ),
{
    let cases = &requirement_report.test_plan.cases;
    let ghost cv = case_views(cases@);
    assert(cv == requirement_report@.test_plan.cases);
    let mut out: Vec<BrowserCase> = Vec::new();
    let mut i: usize = 0;
    while i < cases.len()
        invariant
            i <= cases@.len(),
            cv == case_views(cases@),
            browser_case_views(out@) == browser_cases_spec(cv.take(i as int), base_url@),
        decreases cases.len() - i,
    {
        let case = &cases[i];
        assert(cv.take(i + 1).drop_last() == cv.take(i as int));
        assert(cv.take(i + 1).last() == case@);
        let h = case.executor_hint;
        if h == ExecutorHint::Browser || h == ExecutorHint::Generic || h == ExecutorHint::ManualReview {
            let ghost before = out@;
            out.push(browser_case(case, base_url));
            assert(browser_case_views(out@) == browser_case_views(before).push(
                browser_case_spec(case@, base_url@),
            ));
        }
        i = i + 1;
    }
    assert(cv.take(cases@.len() as int) == cv);
    BrowserActionPlan { cases: out }
}

/// The generic probe: open the page, wait for its body, take a screenshot.
pub fn probe_actions(base_url: &str) -> (r: Vec<PlaywrightAction>)
    ensures
        r@.len() == 3,
        r@[0] matches PlaywrightAction::Goto { url } && url@ == base_url@,
        r@[1] matches PlaywrightAction::WaitForSelector { selector } && selector@ == "body"@,
        r@[2] matches PlaywrightAction::Screenshot { name } && name@ == "page"@,
{
    let mut v: Vec<PlaywrightAction> = Vec::new();
    v.push(PlaywrightAction::Goto { url: owned(base_url) });
    v.push(PlaywrightAction::WaitForSelector { selector: owned("body") });
    v.push(PlaywrightAction::Screenshot { name: owned("page") });
    v
}

// ---------------------------------------------------------------------------
// Scenarios
// ---------------------------------------------------------------------------

/// Whether `a` is the browser action that opens `base_url`.
pub open spec fn is_goto(a: PlaywrightAction, base_url: Seq<char>) -> bool {
    a matches PlaywrightAction::Goto { url } && url@ == base_url
}

pub open spec fn is_wait_for_body(a: PlaywrightAction) -> bool {
    a matches PlaywrightAction::WaitForSelector { selector } && selector@ == "body"@
}

pub open spec fn is_screenshot_named(a: PlaywrightAction, name: Seq<char>) -> bool {
    a matches PlaywrightAction::Screenshot { name: n } && n@ == name
}

/// The block of scenario `sc` placed at `start` of `actions`: open the page,
/// wait for its body, the scenario's own steps, then a screenshot named after
/// the requirement.
pub open spec fn block_at(actions: Seq<PlaywrightAction>, start: int, sc: Scenario, base_url: Seq<char>) -> bool {
    let n = sc.steps@.len();
    &&& 0 <= start
    &&& start + n + 3 <= actions.len()
    &&& is_goto(actions[start], base_url)
    &&& is_wait_for_body(actions[start + 1])
    &&& forall|j: int| 0 <= j < n ==> actions[start + 2 + j] == #[trigger] sc.steps@[j]
    &&& is_screenshot_named(actions[start + n + 2], "scenario-"@ + sc.requirement_id@)
}

/// The actions and ranges run for `scenarios`: the blocks one after another,
/// each range being `[start, end)` of its block.
pub open spec fn scenario_actions_ok(
    scenarios: Seq<Scenario>,
    base_url: Seq<char>,
    actions: Seq<PlaywrightAction>,
    ranges: Seq<(usize, usize)>,
) -> bool {
    &&& ranges.len() == scenarios.len()
    &&& forall|k: int|
        0 <= k < ranges.len() ==> #[trigger] ranges[k].1 == ranges[k].0 + scenarios[k].steps@.len() + 3
            && block_at(actions, ranges[k].0 as int, scenarios[k], base_url)
    &&& forall|k: int| 0 < k < ranges.len() ==> #[trigger] ranges[k].0 == ranges[k - 1].1
    &&& ranges.len() > 0 ==> ranges[0].0 == 0
    &&& actions.len() == if ranges.len() == 0 {
        0
    } else {
        ranges.last().1 as int
    }
}

proof fn lemma_block_kept(
    before: Seq<PlaywrightAction>,
    actions: Seq<PlaywrightAction>,
    st: int,
    sc: Scenario,
    base_url: Seq<char>,
)
    requires
        block_at(before, st, sc, base_url),
        before.len() <= actions.len(),
        forall|i: int| 0 <= i < before.len() ==> actions[i] == before[i],
    ensures
        block_at(actions, st, sc, base_url),
{
    assert(actions[st] == before[st]);
    assert(actions[st + 1] == before[st + 1]);
    assert(actions[st + sc.steps@.len() + 2] == before[st + sc.steps@.len() + 2]);
    assert forall|j: int| 0 <= j < sc.steps@.len() implies actions[st + 2 + j] == #[trigger] sc.steps@[j] by {
        assert(before[st + 2 + j] == sc.steps@[j]);
    }
}

#[verifier::spinoff_prover]
proof fn lemma_extend_blocks(
    scenarios: Seq<Scenario>,
    k: int,
    base_url: Seq<char>,
    before: Seq<PlaywrightAction>,
    ranges: Seq<(usize, usize)>,
    actions: Seq<PlaywrightAction>,
    start: usize,
    end: usize,
)
    requires
        0 <= k < scenarios.len(),
        scenario_actions_ok(scenarios.take(k), base_url, before, ranges),
        start == before.len(),
        end == actions.len(),
        end == start + scenarios[k].steps@.len() + 3,
        forall|i: int| 0 <= i < before.len() ==> actions[i] == before[i],
        block_at(actions, start as int, scenarios[k], base_url),
    ensures
        scenario_actions_ok(scenarios.take(k + 1), base_url, actions, ranges.push((start, end))),
{
    let s1 = scenarios.take(k);
    let s2 = scenarios.take(k + 1);
    let r2 = ranges.push((start, end));
    assert forall|q: int| 0 <= q < r2.len() implies #[trigger] r2[q].1 == r2[q].0 + s2[q].steps@.len() + 3
        && block_at(actions, r2[q].0 as int, s2[q], base_url) by {
        if q < k {
            assert(s2[q] == s1[q]);
            assert(r2[q] == ranges[q]);
            assert(ranges[q].1 == ranges[q].0 + s1[q].steps@.len() + 3);
            lemma_block_kept(before, actions, ranges[q].0 as int, s1[q], base_url);
        } else {
            assert(s2[q] == scenarios[k]);
        }
    }
    assert forall|q: int| 0 < q < r2.len() implies #[trigger] r2[q].0 == r2[q - 1].1 by {
        assert(r2[q - 1] == ranges[q - 1]);
        if q < k {
            assert(r2[q] == ranges[q]);
        }
    }
}

/// Joins the scenarios into one action list (each isolated by opening the
/// page again) and returns where each scenario's block lies.
#[verifier::spinoff_prover]
#[verifier::rlimit(80)]
pub fn build_scenario_actions(scenarios: &Vec<Scenario>, base_url: &str) -> (r: (
    Vec<PlaywrightAction>,
    Vec<(usize, usize)>,
))
    ensures
        scenario_actions_ok(scenarios@, base_url@, r.0@, r.1@),
{
    let mut actions: Vec<PlaywrightAction> = Vec::new();
    let mut ranges: Vec<(usize, usize)> = Vec::new();
    let mut k: usize = 0;
    while k < scenarios.len()
        invariant
            k <= scenarios@.len(),
            scenario_actions_ok(scenarios@.take(k as int), base_url@, actions@, ranges@),
        decreases scenarios.len() - k,
    {
        let sc = &scenarios[k];
        let start = actions.len();
        let ghost before = actions@;
        actions.push(PlaywrightAction::Goto { url: owned(base_url) });
        actions.push(PlaywrightAction::WaitForSelector { selector: owned("body") });
        let mut j: usize = 0;
        while j < sc.steps.len()
            invariant
                j <= sc.steps@.len(),
                actions@.len() == before.len() + 2 + j,
                start == before.len(),
                forall|i: int| 0 <= i < before.len() ==> actions@[i] == before[i],
                is_goto(actions@[start as int], base_url@),
                is_wait_for_body(actions@[start + 1]),
                forall|i: int| 0 <= i < j ==> actions@[start + 2 + i] == #[trigger] sc.steps@[i],
            decreases sc.steps.len() - j,
        {
            actions.push(sc.steps[j].duplicate());
            j = j + 1;
        }
        let name = concat_string(&owned("scenario-"), sc.requirement_id.as_str());
        let ghost mid = actions@;
        actions.push(PlaywrightAction::Screenshot { name });
        let end = actions.len();
        let ghost rbefore = ranges@;
        ranges.push((start, end));
        proof {
            assert forall|i: int| 0 <= i < sc.steps@.len() implies actions@[start + 2 + i]
                == #[trigger] sc.steps@[i] by {
                assert(actions@[start + 2 + i] == mid[start + 2 + i]);
            }
            assert(block_at(actions@, start as int, *sc, base_url@));
            lemma_extend_blocks(scenarios@, k as int, base_url@, before, rbefore, actions@, start, end);
        }
        k = k + 1;
    }
    assert(scenarios@.take(scenarios@.len() as int) == scenarios@);
    (actions, ranges)
}

/// The first reported result of the action at `index`.
pub open spec fn result_at(acts: Seq<ActionOutcome>, index: int, from: int) -> Option<ActionOutcome>
    decreases acts.len() - from,
{
    if from < 0 || from >= acts.len() {
        None
    } else if acts[from].index == index {
        Some(acts[from])
    } else {
        result_at(acts, index, from + 1)
    }
}

/// The path of the last screenshot taken in `[start, end)`.
pub open spec fn last_screenshot(acts: Seq<ActionOutcome>, start: int, end: int) -> Option<Seq<char>>
    decreases acts.len(),
{
    if acts.len() == 0 {
        None
    } else {
        let a = acts.last();
        if start <= a.index < end && a.screenshot_path is Some {
            opt_string_view(a.screenshot_path)
        } else {
            last_screenshot(acts.drop_last(), start, end)
        }
    }
}

/// Every reported action in `[start, end)` passed.
pub open spec fn all_ok_in(acts: Seq<ActionOutcome>, start: int, end: int) -> bool {
    forall|i: int| 0 <= i < acts.len() && start <= #[trigger] acts[i].index < end ==> acts[i].ok
}

/// The report of step `j` of a scenario whose block starts at `start`.
pub open spec fn step_report_ok(
    step: PlaywrightAction,
    acts: Seq<ActionOutcome>,
    index: int,
    r: ScenarioStepReport,
) -> bool {
    &&& r.action@ == action_label(step)
    &&& r.target@ == action_target(step)
    &&& r.ok == match result_at(acts, index, 0) {
        Some(a) => a.ok,
        None => false,
    }
    &&& opt_string_view(r.detail) == match result_at(acts, index, 0) {
        Some(a) => opt_string_view(a.detail),
        None => None,
    }
}

/// The result of one scenario from the run: its own steps follow the opening
/// and waiting steps of its block; it succeeded when every reported action
/// of its block passed and it has steps.
pub open spec fn scenario_result_ok(
    sc: Scenario,
    range: (usize, usize),
    acts: Seq<ActionOutcome>,
    r: ScenarioResult,
) -> bool {
    &&& r.requirement_id@ == sc.requirement_id@
    &&& r.title@ == sc.title@
    &&& r.expected_observation@ == sc.expected_observation@
    &&& r.steps@.len() == sc.steps@.len()
    &&& forall|j: int|
        0 <= j < sc.steps@.len() ==> step_report_ok(
            #[trigger] sc.steps@[j],
            acts,
            range.0 + 2 + j,
            r.steps@[j],
        )
    &&& r.success == (all_ok_in(acts, range.0 as int, range.1 as int) && sc.steps@.len() > 0)
    &&& opt_string_view(r.screenshot) == last_screenshot(acts, range.0 as int, range.1 as int)
}

fn find_result(acts: &Vec<ActionOutcome>, start: usize, offset: usize) -> (r: Option<usize>)
    ensures
        match r {
            Some(i) => i < acts@.len() && result_at(acts@, start + 2 + offset, 0) == Some(acts@[i as int]),
            None => result_at(acts@, start + 2 + offset, 0) is None,
        },
{
    let mut i: usize = 0;
    while i < acts.len()
        invariant
            i <= acts@.len(),
            result_at(acts@, start + 2 + offset, 0) == result_at(acts@, start + 2 + offset, i as int),
        decreases acts.len() - i,
    {
        let idx = acts[i].index;
        if idx >= start && idx - start >= 2 && idx - start - 2 == offset {
            return Some(i);
        }
        i = i + 1;
    }
    None
}

fn scenario_result(sc: &Scenario, range: (usize, usize), acts: &Vec<ActionOutcome>) -> (r: ScenarioResult)
    ensures
        scenario_result_ok(*sc, range, acts@, r),
{
    let (start, end) = range;
    let mut steps: Vec<ScenarioStepReport> = Vec::new();
    let mut j: usize = 0;
    while j < sc.steps.len()
        invariant
            j <= sc.steps@.len(),
            steps@.len() == j,
            forall|q: int|
                0 <= q < j ==> step_report_ok(#[trigger] sc.steps@[q], acts@, start + 2 + q, steps@[q]),
        decreases sc.steps.len() - j,
    {
        let step = &sc.steps[j];
        let found = find_result(acts, start, j);
        let report = match found {
            Some(i) => ScenarioStepReport {
                action: owned(step.label()),
                target: step.target(),
                ok: acts[i].ok,
                detail: match &acts[i].detail {
                    Some(d) => Some(d.clone()),
                    None => None,
                },
            },
            None => ScenarioStepReport {
                action: owned(step.label()),
                target: step.target(),
                ok: false,
                detail: None,
            },
        };
        steps.push(report);
        j = j + 1;
    }
    let mut all_ok = true;
    let mut i: usize = 0;
    while i < acts.len()
        invariant
            i <= acts@.len(),
            all_ok == forall|q: int| 0 <= q < i && start <= #[trigger] acts@[q].index < end ==> acts@[q].ok,
        decreases acts.len() - i,
    {
        let a = &acts[i];
        if a.index >= start && a.index < end && !a.ok {
            all_ok = false;
        }
        i = i + 1;
    }
    let mut screenshot: Option<String> = None;
    let mut n: usize = acts.len();
    assert(acts@.take(n as int) == acts@);
    while n > 0 && screenshot.is_none()
        invariant
            n <= acts@.len(),
            screenshot is None ==> last_screenshot(acts@, start as int, end as int)
                == last_screenshot(acts@.take(n as int), start as int, end as int),
            screenshot is Some ==> opt_string_view(screenshot) == last_screenshot(
                acts@,
                start as int,
                end as int,
            ),
        decreases n,
    {
        let a = &acts[n - 1];
        assert(acts@.take(n as int).drop_last() == acts@.take(n - 1));
        assert(acts@.take(n as int).last() == acts@[n - 1]);
        if a.index >= start && a.index < end {
            match &a.screenshot_path {
                Some(p) => {
                    screenshot = Some(p.clone());
                },
                None => {},
            }
        }
        n = n - 1;
    }
    assert(screenshot is None ==> acts@.take(n as int) == Seq::<ActionOutcome>::empty());
    ScenarioResult {
        requirement_id: sc.requirement_id.clone(),
        title: sc.title.clone(),
        expected_observation: sc.expected_observation.clone(),
        success: all_ok && sc.steps.len() > 0,
        screenshot,
        steps,
    }
}

/// Cuts the run's results back into one result per scenario (as many as
/// there are both scenarios and ranges).
pub fn split_scenario_results(
    scenarios: &Vec<Scenario>,
    ranges: &Vec<(usize, usize)>,
    outcome: &PlaywrightOutcome,
) -> (r: Vec<ScenarioResult>)
    ensures
        r@.len() == if scenarios@.len() < ranges@.len() {
            scenarios@.len()
        } else {
            ranges@.len()
        },
        forall|k: int|
            0 <= k < r@.len() ==> scenario_result_ok(
                scenarios@[k],
                ranges@[k],
                outcome.actions@,
                #[trigger] r@[k],
            ),
{
    let mut out: Vec<ScenarioResult> = Vec::new();
    let mut k: usize = 0;
    while k < scenarios.len() && k < ranges.len()
        invariant
            k <= scenarios@.len(),
            k <= ranges@.len(),
            out@.len() == k,
            forall|q: int|
                0 <= q < k ==> scenario_result_ok(scenarios@[q], ranges@[q], outcome.actions@, #[trigger] out@[q]),
        decreases scenarios.len() - k,
    {
        out.push(scenario_result(&scenarios[k], ranges[k], &outcome.actions));
        k = k + 1;
    }
    out
}

// ---------------------------------------------------------------------------
// Outcomes and reports
// ---------------------------------------------------------------------------

pub open spec fn diag(severity: BrowserDiagnosticSeverity, message: Seq<char>) -> BrowserDiagnosticView {
    BrowserDiagnosticView { severity, message }
}

/// The text of a browser error.
pub open spec fn browser_error_message(e: BrowserError) -> Seq<char> {
    match e {
        BrowserError::Requirements(r) => crate::requirements::requirement_error_message(r),
        BrowserError::UnsupportedUrl(u) => "browser base URL is not supported: "@ + u@,
        BrowserError::Client(m) => "failed to build the probe client: "@ + m@,
        BrowserError::Probe { target, message } => "failed to probe "@ + target@ + ": "@ + message@,
    }
}

impl BrowserError {
    pub fn message(&self) -> (r: String)
        ensures
            r@ == browser_error_message(*self),
    {
        match self {
            BrowserError::Requirements(e) => e.message(),
            BrowserError::UnsupportedUrl(u) => {
                let mut r = owned("browser base URL is not supported: ");
                r.append(u.as_str());
                r
            },
            BrowserError::Client(m) => {
                let mut r = owned("failed to build the probe client: ");
                r.append(m.as_str());
                r
            },
            BrowserError::Probe { target, message } => {
                let mut r = owned("failed to probe ");
                r.append(target.as_str());
                r.append(": ");
                r.append(message.as_str());
                r
            },
        }
    }
}

/// The diagnostic of a failed action.
pub open spec fn failed_action_message(a: ActionOutcome) -> Seq<char> {
    "Action "@ + decimal(a.index as nat) + " ("@ + a.action@ + ") failed: "@ + match a.detail {
        Some(d) => d@,
        None => "no detail"@,
    }
}

pub open spec fn failed_action_diagnostics(acts: Seq<ActionOutcome>) -> Seq<BrowserDiagnosticView>
    decreases acts.len(),
{
    if acts.len() == 0 {
        Seq::empty()
    } else {
        let prev = failed_action_diagnostics(acts.drop_last());
        if !acts.last().ok {
            prev.push(diag(BrowserDiagnosticSeverity::Error, failed_action_message(acts.last())))
        } else {
            prev
        }
    }
}

/// The diagnostic of a failed request: its HTTP status, else the failure text.
pub open spec fn network_failure_message(f: NetworkFailure) -> Seq<char> {
    "Network failure: "@ + f.url@ + match f.status {
        Some(st) => " (HTTP "@ + decimal(st as nat) + ")"@,
        None => match f.failure {
            Some(t) => " ("@ + t@ + ")"@,
            None => Seq::<char>::empty(),
        },
    }
}

/// Every reported diagnostic of a sidecar run: a fatal error, each failed
/// action, each failed request, each page error, in that order.
pub open spec fn playwright_diagnostics(o: PlaywrightOutcome) -> Seq<BrowserDiagnosticView> {
    let fatal = match o.fatal {
        Some(f) => seq![diag(BrowserDiagnosticSeverity::Error, "Playwright runner reported a fatal error: "@ + f@)],
        None => Seq::<BrowserDiagnosticView>::empty(),
    };
    fatal + failed_action_diagnostics(o.actions@) + o.network_failures@.map_values(
        |f: NetworkFailure| diag(BrowserDiagnosticSeverity::Error, network_failure_message(f)),
    ) + o.page_errors@.map_values(
        |e: String| diag(BrowserDiagnosticSeverity::Error, "Page error: "@ + e@),
    )
}

fn error_diag(message: String) -> (r: BrowserDiagnostic)
    ensures
        r@ == diag(BrowserDiagnosticSeverity::Error, message@),
{
    BrowserDiagnostic { severity: BrowserDiagnosticSeverity::Error, message }
}

fn failed_action_text(a: &ActionOutcome) -> (r: String)
    ensures
        r@ == failed_action_message(*a),
{
    let mut m = owned("Action ");
    let n = decimal_string(a.index as u128);
    m.append(n.as_str());
    m.append(" (");
    m.append(a.action.as_str());
    m.append(") failed: ");
    match &a.detail {
        Some(d) => m.append(d.as_str()),
        None => m.append("no detail"),
    }
    m
}

fn network_failure_text(f: &NetworkFailure) -> (r: String)
    ensures
        r@ == network_failure_message(*f),
{
    let mut m = owned("Network failure: ");
    m.append(f.url.as_str());
    match f.status {
        Some(st) => {
            m.append(" (HTTP ");
            let n = decimal_string(st as u128);
            m.append(n.as_str());
            m.append(")");
        },
        None => match &f.failure {
            Some(t) => {
                m.append(" (");
                m.append(t.as_str());
                m.append(")");
            },
            None => {},
        },
    }
    m
}

/// Records the diagnostics of a sidecar run and makes its outcome.
pub fn finish_playwright(
    evidence: PlaywrightEvidence,
    scenarios: Vec<ScenarioResult>,
    diagnostics: &mut Vec<BrowserDiagnostic>,
) -> (r: ExecutionOutcome)
    ensures
        diagnostic_views(final(diagnostics)@) == diagnostic_views(old(diagnostics)@)
            + playwright_diagnostics(evidence.outcome),
        r.backend == BrowserBackend::Playwright,
        r.success == (evidence.outcome.fatal is None && evidence.outcome.finished_ok == Some(true)),
        r.page is None,
        r.playwright == Some(evidence),
        r.scenarios == scenarios,
{
    let ghost start = diagnostic_views(diagnostics@);
    let ghost o = evidence.outcome;
    let success = evidence.outcome.success();
    match &evidence.outcome.fatal {
        Some(f) => {
            let mut m = owned("Playwright runner reported a fatal error: ");
            m.append(f.as_str());
            diagnostics.push(error_diag(m));
        },
        None => {},
    }
    let ghost fatal_part = diagnostic_views(diagnostics@);
    assert(fatal_part == start + match o.fatal {
        Some(f) => seq![diag(BrowserDiagnosticSeverity::Error, "Playwright runner reported a fatal error: "@ + f@)],
        None => Seq::<BrowserDiagnosticView>::empty(),
    });
    let acts = &evidence.outcome.actions;
    let mut i: usize = 0;
    while i < acts.len()
        invariant
            i <= acts@.len(),
            acts@ == o.actions@,
            diagnostic_views(diagnostics@) == fatal_part + failed_action_diagnostics(acts@.take(i as int)),
        decreases acts.len() - i,
    {
        let a = &acts[i];
        assert(acts@.take(i + 1).drop_last() == acts@.take(i as int));
        assert(acts@.take(i + 1).last() == acts@[i as int]);
        if !a.ok {
            let ghost before = diagnostic_views(diagnostics@);
            diagnostics.push(error_diag(failed_action_text(a)));
            assert(diagnostic_views(diagnostics@) == before.push(
                diag(BrowserDiagnosticSeverity::Error, failed_action_message(*a)),
            ));
        }
        i = i + 1;
    }
    assert(acts@.take(acts@.len() as int) == acts@);
    let ghost action_part = diagnostic_views(diagnostics@);
    let nets = &evidence.outcome.network_failures;
    let mut i: usize = 0;
    while i < nets.len()
        invariant
            i <= nets@.len(),
            nets@ == o.network_failures@,
            diagnostic_views(diagnostics@) == action_part + nets@.take(i as int).map_values(
                |f: NetworkFailure| diag(BrowserDiagnosticSeverity::Error, network_failure_message(f)),
            ),
        decreases nets.len() - i,
    {
        let ghost before = diagnostic_views(diagnostics@);
        diagnostics.push(error_diag(network_failure_text(&nets[i])));
        assert(nets@.take(i + 1) == nets@.take(i as int).push(nets@[i as int]));
        assert(diagnostic_views(diagnostics@) == before.push(
            diag(BrowserDiagnosticSeverity::Error, network_failure_message(nets@[i as int])),
        ));
        i = i + 1;
    }
    assert(nets@.take(nets@.len() as int) == nets@);
    let ghost net_part = diagnostic_views(diagnostics@);
    let errs = &evidence.outcome.page_errors;
    let mut i: usize = 0;
    while i < errs.len()
        invariant
            i <= errs@.len(),
            errs@ == o.page_errors@,
            diagnostic_views(diagnostics@) == net_part + errs@.take(i as int).map_values(
                |e: String| diag(BrowserDiagnosticSeverity::Error, "Page error: "@ + e@),
            ),
        decreases errs.len() - i,
    {
        let ghost before = diagnostic_views(diagnostics@);
        let mut m = owned("Page error: ");
        m.append(errs[i].as_str());
        diagnostics.push(error_diag(m));
        assert(errs@.take(i + 1) == errs@.take(i as int).push(errs@[i as int]));
        assert(diagnostic_views(diagnostics@) == before.push(
            diag(BrowserDiagnosticSeverity::Error, "Page error: "@ + errs@[i as int]@),
        ));
        i = i + 1;
    }
    assert(errs@.take(errs@.len() as int) == errs@);
    ExecutionOutcome {
        backend: BrowserBackend::Playwright,
        success,
        page: None,
        playwright: Some(evidence),
        scenarios,
    }
}

/// An HTTP status counted as success: 2xx and 3xx.
pub open spec fn is_success_status(status: Option<u16>) -> bool {
    match status {
        Some(s) => 200 <= s < 400,
        None => false,
    }
}

/// The outcome of the HTTP probe: success on a 2xx/3xx page; otherwise an
/// error diagnostic with the page's status line or the probe's error.
pub fn http_outcome(
    probe: Result<PageProbeEvidence, BrowserError>,
    diagnostics: &mut Vec<BrowserDiagnostic>,
) -> (r: ExecutionOutcome)
    ensures
        r.backend == BrowserBackend::HttpProbe,
        r.playwright is None,
        r.scenarios@.len() == 0,
        match probe {
            Ok(page) => {
                &&& r.success == is_success_status(page.status_code)
                &&& r.page == Some(page)
                &&& diagnostic_views(final(diagnostics)@) == diagnostic_views(old(diagnostics)@) + if r.success {
                    Seq::<BrowserDiagnosticView>::empty()
                } else {
                    seq![diag(BrowserDiagnosticSeverity::Error, "Page returned non-success status: "@ + page.status_text@)]
                }
            },
            Err(e) => {
                &&& !r.success
                &&& r.page is None
                &&& diagnostic_views(final(diagnostics)@) == diagnostic_views(old(diagnostics)@).push(
                    diag(BrowserDiagnosticSeverity::Error, browser_error_message(e)),
                )
            },
        },
{
    match probe {
        Ok(page) => {
            let success = match page.status_code {
                Some(st) => 200 <= st && st < 400,
                None => false,
            };
            if !success {
                let mut m = owned("Page returned non-success status: ");
                m.append(page.status_text.as_str());
                diagnostics.push(error_diag(m));
            }
            ExecutionOutcome {
                backend: BrowserBackend::HttpProbe,
                success,
                page: Some(page),
                playwright: None,
                scenarios: Vec::new(),
            }
        },
        Err(e) => {
            diagnostics.push(error_diag(e.message()));
            ExecutionOutcome {
                backend: BrowserBackend::HttpProbe,
                success: false,
                page: None,
                playwright: None,
                scenarios: Vec::new(),
            }
        },
    }
}

/// Scenarios are worth generating when a model provider is chosen and the
/// probe saw interactive elements.
pub fn should_generate_scenarios(provider: AiProviderKind, outcome: &PlaywrightOutcome) -> (r: bool)
    ensures
        r == (provider != AiProviderKind::Mock && match outcome.snapshot {
            Some(snap) => snap.interactive@.len() > 0,
            None => false,
        }),
{
    provider != AiProviderKind::Mock && match &outcome.snapshot {
        Some(snap) => snap.interactive.len() > 0,
        None => false,
    }
}

/// A scenario run succeeds when the sidecar succeeded and every scenario did.
pub fn scenarios_succeeded(run_success: bool, scenarios: &Vec<ScenarioResult>) -> (r: bool)
    ensures
        r == (run_success && forall|k: int| 0 <= k < scenarios@.len() ==> #[trigger] scenarios@[k].success),
{
    let mut all = true;
    let mut k: usize = 0;
    while k < scenarios.len()
        invariant
            k <= scenarios@.len(),
            all == forall|q: int| 0 <= q < k ==> #[trigger] scenarios@[q].success,
        decreases scenarios.len() - k,
    {
        all = all && scenarios[k].success;
        k = k + 1;
    }
    run_success && all
}

/// The per-action timeout handed to the sidecar: the seconds in
/// milliseconds, at least one second.
pub fn runner_timeout_ms(timeout_secs: u64) -> (r: u64)
    ensures
        r == if timeout_secs * 1000 > u64::MAX {
            u64::MAX
        } else if timeout_secs * 1000 < 1000 {
            1000u64
        } else {
            (timeout_secs * 1000) as u64
        },
{
    let ms = if timeout_secs > u64::MAX / 1000 {
        u64::MAX
    } else {
        timeout_secs * 1000
    };
    if ms < 1000 {
        1000
    } else {
        ms
    }
}

/// How long the whole sidecar run may take, in seconds.
pub fn runner_overall_secs(timeout_secs: u64) -> (r: u64)
    ensures
        r == if timeout_secs == 0 {
            (1 + PLAYWRIGHT_OVERHEAD_SECS) as u64
        } else if timeout_secs + PLAYWRIGHT_OVERHEAD_SECS > u64::MAX {
            u64::MAX
        } else {
            (timeout_secs + PLAYWRIGHT_OVERHEAD_SECS) as u64
        },
{
    let base = if timeout_secs == 0 {
        1
    } else {
        timeout_secs
    };
    if base > u64::MAX - PLAYWRIGHT_OVERHEAD_SECS {
        u64::MAX
    } else {
        base + PLAYWRIGHT_OVERHEAD_SECS
    }
}

pub const NO_BROWSER_CASES: &'static str =
    "No browser-suitable test cases were generated from the requirements.";

pub const DRY_RUN_NOTE: &'static str =
    "Browser plan was generated without probing the page because --dry-run was set.";

/// The diagnostic of a plan without cases.
pub open spec fn plan_diagnostics(case_count: nat) -> Seq<BrowserDiagnosticView> {
    if case_count == 0 {
        seq![diag(BrowserDiagnosticSeverity::Warning, NO_BROWSER_CASES@)]
    } else {
        Seq::empty()
    }
}

/// The report of a dry run: the plan only, nothing executed.
pub fn browser_plan_report(requirement_report: RequirementReport, base_url: &str, timeout_secs: u64) -> (r: BrowserRunReport)
    ensures
        r.requirement_source@ == requirement_report.source@,
        r.base_url@ == base_url@,
        r.backend == BrowserBackend::NotRun,
        browser_case_views(r.plan.cases@) == browser_cases_spec(requirement_report@.test_plan.cases, base_url@),
        !r.execution.attempted && r.execution.dry_run && r.execution.success,
        r.execution.duration_ms == 0 && r.execution.timeout_secs == timeout_secs,
        r.page is None && r.playwright is None && r.scenarios@.len() == 0,
        diagnostic_views(r.diagnostics@) == plan_diagnostics(r.plan.cases@.len()).push(
            diag(BrowserDiagnosticSeverity::Info, DRY_RUN_NOTE@),
        ),
{
    let plan = build_browser_action_plan(&requirement_report, base_url);
    let mut diagnostics: Vec<BrowserDiagnostic> = Vec::new();
    if plan.cases.len() == 0 {
        diagnostics.push(BrowserDiagnostic { severity: BrowserDiagnosticSeverity::Warning, message: owned(NO_BROWSER_CASES) });
    }
    diagnostics.push(BrowserDiagnostic { severity: BrowserDiagnosticSeverity::Info, message: owned(DRY_RUN_NOTE) });
    let r = BrowserRunReport {
        requirement_source: requirement_report.source,
        base_url: owned(base_url),
        backend: BrowserBackend::NotRun,
        plan,
        execution: BrowserExecution { attempted: false, dry_run: true, success: true, duration_ms: 0, timeout_secs },
        page: None,
        playwright: None,
        scenarios: Vec::new(),
        diagnostics,
    };
    assert(diagnostic_views(r.diagnostics@) =~= plan_diagnostics(r.plan.cases@.len()).push(
        diag(BrowserDiagnosticSeverity::Info, DRY_RUN_NOTE@),
    ));
    r
}

/// The report of an executed run: the plan, then what execution produced;
/// the plan's own diagnostic comes before those of the execution.
pub fn browser_run_report(
    requirement_report: RequirementReport,
    base_url: &str,
    timeout_secs: u64,
    outcome: ExecutionOutcome,
    duration_ms: u128,
    execution_diagnostics: Vec<BrowserDiagnostic>,
) -> (r: BrowserRunReport)
    ensures
        r.requirement_source@ == requirement_report.source@,
        r.base_url@ == base_url@,
        r.backend == outcome.backend,
        browser_case_views(r.plan.cases@) == browser_cases_spec(requirement_report@.test_plan.cases, base_url@),
        r.execution.attempted && !r.execution.dry_run && r.execution.success == outcome.success,
        r.execution.duration_ms == duration_ms && r.execution.timeout_secs == timeout_secs,
        r.page == outcome.page && r.playwright == outcome.playwright && r.scenarios == outcome.scenarios,
        diagnostic_views(r.diagnostics@) == plan_diagnostics(r.plan.cases@.len()) + diagnostic_views(
            execution_diagnostics@,
        ),
{
    let plan = build_browser_action_plan(&requirement_report, base_url);
    let mut diagnostics: Vec<BrowserDiagnostic> = Vec::new();
    if plan.cases.len() == 0 {
        diagnostics.push(BrowserDiagnostic { severity: BrowserDiagnosticSeverity::Warning, message: owned(NO_BROWSER_CASES) });
    }
    let ghost head = diagnostic_views(diagnostics@);
    let mut rest = execution_diagnostics;
    let ghost tail = diagnostic_views(rest@);
    diagnostics.append(&mut rest);
    assert(diagnostic_views(diagnostics@) =~= head + tail);
    BrowserRunReport {
        requirement_source: requirement_report.source,
        base_url: owned(base_url),
        backend: outcome.backend,
        plan,
        execution: BrowserExecution {
            attempted: true,
            dry_run: false,
            success: outcome.success,
            duration_ms,
            timeout_secs,
        },
        page: outcome.page,
        playwright: outcome.playwright,
        scenarios: outcome.scenarios,
        diagnostics,
    }
}


/// The browser plan keeps, in order, exactly the test cases suited to a
/// browser (a browser, generic or manual-review hint), and makes each into
/// its browser case.
pub proof fn lemma_browser_plan_filters_cases(cases: Seq<TestCaseView>, base_url: Seq<char>)
    ensures
        browser_cases_spec(cases, base_url) == cases.filter(|c: TestCaseView| is_browser_hint(c.executor_hint)).map_values(
            |c: TestCaseView| browser_case_spec(c, base_url),
        ),
    decreases cases.len(),
{
    reveal(Seq::filter);
    if cases.len() > 0 {
        lemma_browser_plan_filters_cases(cases.drop_last(), base_url);
        let pred = |c: TestCaseView| is_browser_hint(c.executor_hint);
        let f = |c: TestCaseView| browser_case_spec(c, base_url);
        let sub = cases.drop_last().filter(pred);
        assert(cases.filter(pred) == if pred(cases.last()) { sub.push(cases.last()) } else { sub });
        if pred(cases.last()) {
            assert(sub.push(cases.last()).map_values(f) =~= sub.map_values(f).push(f(cases.last())));
        }
    }
}

} // verus!
