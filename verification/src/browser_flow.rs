//! The course of an executed browser run. With a Playwright runner the page
//! is probed through the sidecar; when a model provider is chosen and the
//! probe saw interactive elements, scenarios are generated and run as well.
//! Without a runner, or when it fails, the page is probed over HTTP. A failed
//! scenario step keeps the probe's evidence. Running the sidecar, asking the
//! model and fetching the page is left to the caller, which hands each
//! result back as an event.
use vstd::prelude::*;

use crate::ai::{ai_error_message, AiError, AiProviderKind};
use crate::browser::{
    browser_error_message, build_scenario_actions, diag, diagnostic_views, finish_playwright,
    http_outcome, is_success_status, playwright_diagnostics, probe_actions, scenario_actions_ok,
    scenario_result_ok, scenarios_succeeded, should_generate_scenarios, split_scenario_results,
    BrowserBackend, BrowserDiagnostic, BrowserDiagnosticSeverity, BrowserDiagnosticView,
    BrowserError, ExecutionOutcome, PageProbeEvidence, PlaywrightEvidence, ScenarioResult,
};
use crate::playwright::{
    playwright_error_message, PlaywrightAction, PlaywrightError, PlaywrightOutcome, RunnerLocation,
};
use crate::scenario::{Scenario, ScenarioPlan};
use crate::text::owned;

verus! {

pub const RUNNER_MISSING_NOTE: &'static str =
    "Playwright runner not detected; using HTTP probe. Run `specprobe setup-browser` to enable full browser testing.";

/// Where a browser run stands.
#[derive(Clone, Copy, PartialEq, Eq, Structural, Debug)]
pub enum BrowserStage {
    /// The sidecar probe of the page is awaited.
    AwaitProbe,
    /// The model's scenarios for the probed page are awaited.
    AwaitScenarios,
    /// The sidecar run of the scenarios is awaited.
    AwaitScenarioRun,
    /// The HTTP probe of the page is awaited.
    AwaitPage,
    Done,
}

/// What the last step's work gave.
#[derive(Debug)]
pub enum BrowserEvent {
    Probe(Result<PlaywrightEvidence, PlaywrightError>),
    Scenarios(Result<ScenarioPlan, AiError>),
    ScenarioRun(Result<PlaywrightEvidence, PlaywrightError>),
    Page(Result<PageProbeEvidence, BrowserError>),
}

/// What the caller does next.
#[derive(Debug)]
pub enum BrowserStep {
    /// Run the sidecar script `runner_js` with `actions`, in a run directory
    /// named after `prefix`.
    RunSidecar { runner_js: String, actions: Vec<PlaywrightAction>, prefix: String },
    /// Ask the model for scenarios of the page snapshot in `probe`.
    GenerateScenarios,
    /// Fetch the page over HTTP.
    ProbePage,
    /// The run is over with this outcome.
    Finished(ExecutionOutcome),
}

#[derive(Debug)]
pub struct BrowserFlow {
    pub base_url: String,
    pub provider: AiProviderKind,
    pub stage: BrowserStage,
    pub runner_js: String,
    /// The evidence of the sidecar probe, once it ran.
    pub probe: Option<PlaywrightEvidence>,
    /// The scenarios being run, and each one's range of actions.
    pub scenarios: Vec<Scenario>,
    pub ranges: Vec<(usize, usize)>,
    /// The diagnostics of the run so far.
    pub diagnostics: Vec<BrowserDiagnostic>,
}

impl BrowserFlow {
    /// Scenarios are only asked for, and run, once the probe's evidence is kept.
    pub open spec fn wf(&self) -> bool {
        (self.stage == BrowserStage::AwaitScenarios || self.stage == BrowserStage::AwaitScenarioRun)
            ==> self.probe is Some
    }
}

/// The three probe actions: open the page, wait for its body, take a screenshot.
pub open spec fn is_probe_plan(actions: Seq<PlaywrightAction>, base_url: Seq<char>) -> bool {
    &&& actions.len() == 3
    &&& actions[0] matches PlaywrightAction::Goto { url } && url@ == base_url
    &&& actions[1] matches PlaywrightAction::WaitForSelector { selector } && selector@ == "body"@
    &&& actions[2] matches PlaywrightAction::Screenshot { name } && name@ == "page"@
}

pub open spec fn probe_failed_diag(e: PlaywrightError) -> BrowserDiagnosticView {
    diag(
        BrowserDiagnosticSeverity::Warning,
        "Playwright runner failed ("@ + playwright_error_message(e) + "); falling back to HTTP probe."@,
    )
}

pub open spec fn generation_failed_diag(e: AiError) -> BrowserDiagnosticView {
    diag(
        BrowserDiagnosticSeverity::Warning,
        "Scenario generation failed ("@ + ai_error_message(e) + "); keeping probe evidence."@,
    )
}

pub open spec fn execution_failed_diag(e: PlaywrightError) -> BrowserDiagnosticView {
    diag(
        BrowserDiagnosticSeverity::Warning,
        "Scenario execution failed ("@ + playwright_error_message(e) + "); keeping probe evidence."@,
    )
}

pub open spec fn note_diag(note: String) -> BrowserDiagnosticView {
    diag(BrowserDiagnosticSeverity::Info, "Scenario note: "@ + note@)
}

/// `o` is the outcome of the sidecar evidence `ev` with the scenario results
/// `rs`, and `d1` is `d0` followed by the diagnostics of that run.
pub open spec fn playwright_finish(
    ev: PlaywrightEvidence,
    rs: Seq<ScenarioResult>,
    d0: Seq<BrowserDiagnosticView>,
    d1: Seq<BrowserDiagnosticView>,
    o: ExecutionOutcome,
) -> bool {
    &&& d1 == d0 + playwright_diagnostics(ev.outcome)
    &&& o.backend == BrowserBackend::Playwright
    &&& o.page is None
    &&& o.playwright == Some(ev)
    &&& o.scenarios@ == rs
}

/// The run succeeded: the sidecar finished with `ok` and reported no fatal error.
pub open spec fn run_succeeded(o: PlaywrightOutcome) -> bool {
    o.fatal is None && o.finished_ok == Some(true)
}

/// `o` is the outcome of the scenario run `ev` of `scs` (with `ranges`): its
/// results split by scenario, successful when the run and every scenario
/// succeeded.
pub open spec fn scenario_finish(
    scs: Seq<Scenario>,
    ranges: Seq<(usize, usize)>,
    ev: PlaywrightEvidence,
    d0: Seq<BrowserDiagnosticView>,
    d1: Seq<BrowserDiagnosticView>,
    o: ExecutionOutcome,
) -> bool {
    &&& d1 == d0 + playwright_diagnostics(ev.outcome)
    &&& o.backend == BrowserBackend::Playwright
    &&& o.page is None
    &&& o.playwright == Some(ev)
    &&& o.scenarios@.len() == if scs.len() < ranges.len() {
        scs.len()
    } else {
        ranges.len()
    }
    &&& forall|k: int|
        0 <= k < o.scenarios@.len() ==> scenario_result_ok(scs[k], ranges[k], ev.outcome.actions@, #[trigger] o.scenarios@[k])
    &&& o.success == (run_succeeded(ev.outcome) && forall|k: int|
        0 <= k < o.scenarios@.len() ==> #[trigger] o.scenarios@[k].success)
}

/// `o` is the outcome of the HTTP probe `probe`.
pub open spec fn http_finish(
    probe: Result<PageProbeEvidence, BrowserError>,
    d0: Seq<BrowserDiagnosticView>,
    d1: Seq<BrowserDiagnosticView>,
    o: ExecutionOutcome,
) -> bool {
    &&& o.backend == BrowserBackend::HttpProbe
    &&& o.playwright is None
    &&& o.scenarios@.len() == 0
    &&& match probe {
        Ok(page) => {
            &&& o.success == is_success_status(page.status_code)
            &&& o.page == Some(page)
            &&& d1 == d0 + if o.success {
                Seq::<BrowserDiagnosticView>::empty()
            } else {
                seq![diag(BrowserDiagnosticSeverity::Error, "Page returned non-success status: "@ + page.status_text@)]
            }
        },
        Err(e) => {
            &&& !o.success
            &&& o.page is None
            &&& d1 == d0.push(diag(BrowserDiagnosticSeverity::Error, browser_error_message(e)))
        },
    }
}

pub open spec fn finishes(s: BrowserStep, f: spec_fn(ExecutionOutcome) -> bool) -> bool {
    s matches BrowserStep::Finished(o) && f(o)
}

/// The event a stage awaits.
pub open spec fn event_fits(stage: BrowserStage, e: BrowserEvent) -> bool {
    match stage {
        BrowserStage::AwaitProbe => e is Probe,
        BrowserStage::AwaitScenarios => e is Scenarios,
        BrowserStage::AwaitScenarioRun => e is ScenarioRun,
        BrowserStage::AwaitPage => e is Page,
        BrowserStage::Done => false,
    }
}

/// One step of a browser run, given what the last step's work gave.
pub open spec fn flow_step_ok(old: BrowserFlow, ev: BrowserEvent, new: BrowserFlow, s: BrowserStep) -> bool {
    let d0 = diagnostic_views(old.diagnostics@);
    let d1 = diagnostic_views(new.diagnostics@);
    &&& new.base_url == old.base_url
    &&& new.provider == old.provider
    &&& new.runner_js == old.runner_js
    &&& match ev {
        BrowserEvent::Probe(Err(e)) => new.stage == BrowserStage::AwaitPage && s is ProbePage && d1 == d0.push(
            probe_failed_diag(e),
        ),
        BrowserEvent::Probe(Ok(x)) => if old.provider != AiProviderKind::Mock && match x.outcome.snapshot {
            Some(snap) => snap.interactive@.len() > 0,
            None => false,
        } {
            &&& new.stage == BrowserStage::AwaitScenarios
            &&& new.probe == Some(x)
            &&& s is GenerateScenarios
            &&& d1 == d0
        } else {
            new.stage == BrowserStage::Done && finishes(s, |o: ExecutionOutcome| playwright_finish(x, Seq::empty(), d0, d1, o))
        },
        BrowserEvent::Scenarios(Err(e)) => new.stage == BrowserStage::Done && finishes(
            s,
            |o: ExecutionOutcome| playwright_finish(old.probe->0, Seq::empty(), d0.push(generation_failed_diag(e)), d1, o),
        ),
        BrowserEvent::Scenarios(Ok(plan)) => if plan.scenarios@.len() == 0 {
            new.stage == BrowserStage::Done && finishes(
                s,
                |o: ExecutionOutcome| playwright_finish(old.probe->0, Seq::empty(), d0, d1, o),
            )
        } else {
            &&& new.stage == BrowserStage::AwaitScenarioRun
            &&& new.probe == old.probe
            &&& new.scenarios@ == plan.scenarios@
            &&& d1 == d0 + plan.notes@.map_values(|n: String| note_diag(n))
            &&& s matches BrowserStep::RunSidecar { runner_js, actions, prefix } && runner_js@ == old.runner_js@
                && prefix@ == "scenario"@ && scenario_actions_ok(plan.scenarios@, old.base_url@, actions@, new.ranges@)
        },
        BrowserEvent::ScenarioRun(Err(e)) => new.stage == BrowserStage::Done && finishes(
            s,
            |o: ExecutionOutcome| playwright_finish(old.probe->0, Seq::empty(), d0.push(execution_failed_diag(e)), d1, o),
        ),
        BrowserEvent::ScenarioRun(Ok(x)) => new.stage == BrowserStage::Done && finishes(
            s,
            |o: ExecutionOutcome| scenario_finish(old.scenarios@, old.ranges@, x, d0, d1, o),
        ),
        BrowserEvent::Page(r) => new.stage == BrowserStage::Done && finishes(
            s,
            |o: ExecutionOutcome| http_finish(r, d0, d1, o),
        ),
    }
}

/// Starts an executed browser run: the sidecar probe when a runner was
/// found, else the HTTP probe, with a note that no runner was found.
pub fn browser_flow_start(base_url: &str, provider: AiProviderKind, runner: Option<RunnerLocation>) -> (r: (
    BrowserFlow,
    BrowserStep,
))
    ensures
        r.0.wf(),
        r.0.base_url@ == base_url@,
        r.0.provider == provider,
        r.0.probe is None,
        match runner {
            None => {
                &&& r.0.stage == BrowserStage::AwaitPage
                &&& r.1 is ProbePage
                &&& diagnostic_views(r.0.diagnostics@) == seq![diag(BrowserDiagnosticSeverity::Info, RUNNER_MISSING_NOTE@)]
            },
            Some(loc) => {
                &&& r.0.stage == BrowserStage::AwaitProbe
                &&& r.0.runner_js@ == loc.runner_js@
                &&& r.0.diagnostics@.len() == 0
                &&& r.1 matches BrowserStep::RunSidecar { runner_js, actions, prefix } && runner_js@ == loc.runner_js@
                    && prefix@ == "probe"@ && is_probe_plan(actions@, base_url@)
            },
        },
{
    match runner {
        None => {
            let flow = BrowserFlow {
                base_url: owned(base_url),
                provider,
                stage: BrowserStage::AwaitPage,
                runner_js: String::new(),
                probe: None,
                scenarios: Vec::new(),
                ranges: Vec::new(),
                diagnostics: vec![
                    BrowserDiagnostic { severity: BrowserDiagnosticSeverity::Info, message: owned(RUNNER_MISSING_NOTE) },
                ],
            };
            assert(diagnostic_views(flow.diagnostics@) =~= seq![
                diag(BrowserDiagnosticSeverity::Info, RUNNER_MISSING_NOTE@),
            ]);
            (flow, BrowserStep::ProbePage)
        },
        Some(loc) => {
            let actions = probe_actions(base_url);
            let step = BrowserStep::RunSidecar {
                runner_js: loc.runner_js.clone(),
                actions,
                prefix: owned("probe"),
            };
            let flow = BrowserFlow {
                base_url: owned(base_url),
                provider,
                stage: BrowserStage::AwaitProbe,
                runner_js: loc.runner_js,
                probe: None,
                scenarios: Vec::new(),
                ranges: Vec::new(),
                diagnostics: Vec::new(),
            };
            (flow, step)
        },
    }
}

fn warning(message: String) -> (r: BrowserDiagnostic)
    ensures
        r@ == diag(BrowserDiagnosticSeverity::Warning, message@),
{
    BrowserDiagnostic { severity: BrowserDiagnosticSeverity::Warning, message }
}

fn failure_text(head: &str, detail: String, tail: &str) -> (r: String)
    ensures
        r@ == head@ + detail@ + tail@,
{
    let mut r = owned(head);
    r.append(detail.as_str());
    r.append(tail);
    r
}

/// Takes what the last step's work gave and gives the next step.
pub fn browser_flow_step(m: &mut BrowserFlow, event: BrowserEvent) -> (s: BrowserStep)
    requires
        old(m).wf(),
        event_fits(old(m).stage, event),
    ensures
        final(m).wf(),
        flow_step_ok(*old(m), event, *final(m), s),
{
    match event {
        BrowserEvent::Probe(Err(e)) => {
            let ghost ge = e;
            let text = failure_text("Playwright runner failed (", e.message(), "); falling back to HTTP probe.");
            m.diagnostics.push(warning(text));
            assert(diagnostic_views(m.diagnostics@) =~= diagnostic_views(old(m).diagnostics@).push(probe_failed_diag(ge)));
            m.stage = BrowserStage::AwaitPage;
            BrowserStep::ProbePage
        },
        BrowserEvent::Probe(Ok(x)) => {
            if should_generate_scenarios(m.provider, &x.outcome) {
                m.probe = Some(x);
                m.stage = BrowserStage::AwaitScenarios;
                BrowserStep::GenerateScenarios
            } else {
                let o = finish_playwright(x, Vec::new(), &mut m.diagnostics);
                m.stage = BrowserStage::Done;
            BrowserStep::Finished(o)
            }
        },
        BrowserEvent::Scenarios(Err(e)) => {
            let ghost ge = e;
            let text = failure_text("Scenario generation failed (", e.message(), "); keeping probe evidence.");
            m.diagnostics.push(warning(text));
            let ghost d0w = diagnostic_views(m.diagnostics@);
            assert(d0w =~= diagnostic_views(old(m).diagnostics@).push(generation_failed_diag(ge)));
            let probe = m.probe.take().unwrap();
            let o = finish_playwright(probe, Vec::new(), &mut m.diagnostics);
            m.stage = BrowserStage::Done;
            BrowserStep::Finished(o)
        },
        BrowserEvent::Scenarios(Ok(plan)) => {
            if plan.scenarios.len() == 0 {
                let probe = m.probe.take().unwrap();
                let o = finish_playwright(probe, Vec::new(), &mut m.diagnostics);
                m.stage = BrowserStage::Done;
            BrowserStep::Finished(o)
            } else {
                let ghost notes = plan.notes@;
                let mut k: usize = 0;
                while k < plan.notes.len()
                    invariant
                        k <= notes.len(),
                        notes == plan.notes@,
                        m.base_url == old(m).base_url,
                        m.provider == old(m).provider,
                        m.runner_js == old(m).runner_js,
                        m.probe == old(m).probe,
                        m.stage == old(m).stage,
                        old(m).wf(),
                        old(m).stage == BrowserStage::AwaitScenarios,
                        diagnostic_views(m.diagnostics@) == diagnostic_views(old(m).diagnostics@) + notes.take(k as int).map_values(|n: String| note_diag(n)),
                    decreases plan.notes.len() - k,
                {
                    let ghost before = diagnostic_views(m.diagnostics@);
                    let mut text = owned("Scenario note: ");
                    text.append(plan.notes[k].as_str());
                    m.diagnostics.push(BrowserDiagnostic { severity: BrowserDiagnosticSeverity::Info, message: text });
                    assert(notes.take(k + 1) == notes.take(k as int).push(notes[k as int]));
                    assert(diagnostic_views(m.diagnostics@) =~= before.push(note_diag(notes[k as int])));
                    k = k + 1;
                }
                assert(notes.take(notes.len() as int) == notes);
                let (actions, ranges) = build_scenario_actions(&plan.scenarios, m.base_url.as_str());
                m.scenarios = plan.scenarios;
                m.ranges = ranges;
                m.stage = BrowserStage::AwaitScenarioRun;
                BrowserStep::RunSidecar { runner_js: m.runner_js.clone(), actions, prefix: owned("scenario") }
            }
        },
        BrowserEvent::ScenarioRun(Err(e)) => {
            let ghost ge = e;
            let text = failure_text("Scenario execution failed (", e.message(), "); keeping probe evidence.");
            m.diagnostics.push(warning(text));
            assert(diagnostic_views(m.diagnostics@) =~= diagnostic_views(old(m).diagnostics@).push(execution_failed_diag(ge)));
            let probe = m.probe.take().unwrap();
            let o = finish_playwright(probe, Vec::new(), &mut m.diagnostics);
            m.stage = BrowserStage::Done;
            BrowserStep::Finished(o)
        },
        BrowserEvent::ScenarioRun(Ok(x)) => {
            let results = split_scenario_results(&m.scenarios, &m.ranges, &x.outcome);
            let ghost acts = x.outcome.actions@;
            let mut o = finish_playwright(x, results, &mut m.diagnostics);
            let ok = scenarios_succeeded(o.success, &o.scenarios);
            o.success = ok;
            m.stage = BrowserStage::Done;
            BrowserStep::Finished(o)
        },
        BrowserEvent::Page(r) => {
            let o = http_outcome(r, &mut m.diagnostics);
            m.stage = BrowserStage::Done;
            BrowserStep::Finished(o)
        },
    }
}

} // verus!
