//! The action protocol of the Playwright sidecar and the aggregation of the
//! events it reports. Running the sidecar is left to the caller.
use vstd::prelude::*;
use crate::text::{decimal, decimal_string, owned, opt_string_view};

verus! {

/// Protocol version shared with the sidecar.
pub const PROTOCOL_VERSION: u32 = 1;

/// Why the sidecar could not be used.
#[derive(Debug)]
pub enum PlaywrightError {
    /// The runner could not be started.
    Spawn(String),
    /// Talking to the runner failed.
    Io(String),
    /// The runner did not finish in time (seconds waited).
    Timeout(u64),
    /// Installing the runner failed.
    Setup(String),
}

pub open spec fn playwright_error_message(e: PlaywrightError) -> Seq<char> {
    match e {
        PlaywrightError::Spawn(m) => "failed to start the Playwright runner (is Node.js installed?): "@ + m@,
        PlaywrightError::Io(m) => "Playwright runner I/O failed: "@ + m@,
        PlaywrightError::Timeout(secs) => "Playwright runner timed out after "@ + decimal(secs as nat) + "s"@,
        PlaywrightError::Setup(m) => "browser setup failed: "@ + m@,
    }
}

impl PlaywrightError {
    /// The error's message.
    pub fn message(&self) -> (r: String)
        ensures
            r@ == playwright_error_message(*self),
    {
        match self {
            PlaywrightError::Spawn(m) => {
                let mut r = owned("failed to start the Playwright runner (is Node.js installed?): ");
                r.append(m.as_str());
                r
            },
            PlaywrightError::Io(m) => {
                let mut r = owned("Playwright runner I/O failed: ");
                r.append(m.as_str());
                r
            },
            PlaywrightError::Timeout(secs) => {
                let mut r = owned("Playwright runner timed out after ");
                let d = decimal_string(*secs as u128);
                r.append(d.as_str());
                r.append("s");
                r
            },
            PlaywrightError::Setup(m) => {
                let mut r = owned("browser setup failed: ");
                r.append(m.as_str());
                r
            },
        }
    }
}

/// Where the sidecar script is.
#[derive(Debug)]
pub struct RunnerLocation {
    pub runner_js: String,
}

/// A browser action primitive.
#[derive(Debug)]
pub enum PlaywrightAction {
    Goto { url: String },
    WaitForSelector { selector: String },
    Click { selector: String },
    Fill { selector: String, value: String },
    Press { selector: String, key: String },
    ExpectVisible { selector: String },
    /// The element is hidden or absent.
    ExpectHidden { selector: String },
    ExpectText { selector: String, text: String },
    Screenshot { name: String },
    Eval { expression: String },
}

/// The plan sent to the sidecar.
#[derive(Debug)]
pub struct BrowserPlanRequest {
    pub protocol_version: u32,
    pub base_url: String,
    pub timeout_ms: u64,
    pub screenshot_dir: String,
    pub actions: Vec<PlaywrightAction>,
}

/// A browser action with its text fields as character sequences.
pub enum PlaywrightActionView {
    Goto { url: Seq<char> },
    WaitForSelector { selector: Seq<char> },
    Click { selector: Seq<char> },
    Fill { selector: Seq<char>, value: Seq<char> },
    Press { selector: Seq<char>, key: Seq<char> },
    ExpectVisible { selector: Seq<char> },
    ExpectHidden { selector: Seq<char> },
    ExpectText { selector: Seq<char>, text: Seq<char> },
    Screenshot { name: Seq<char> },
    Eval { expression: Seq<char> },
}

impl View for PlaywrightAction {
    type V = PlaywrightActionView;

    open spec fn view(&self) -> PlaywrightActionView {
        match self {
            PlaywrightAction::Goto { url } => PlaywrightActionView::Goto { url: url@ },
            PlaywrightAction::WaitForSelector { selector } => PlaywrightActionView::WaitForSelector { selector: selector@ },
            PlaywrightAction::Click { selector } => PlaywrightActionView::Click { selector: selector@ },
            PlaywrightAction::Fill { selector, value } => PlaywrightActionView::Fill { selector: selector@, value: value@ },
            PlaywrightAction::Press { selector, key } => PlaywrightActionView::Press { selector: selector@, key: key@ },
            PlaywrightAction::ExpectVisible { selector } => PlaywrightActionView::ExpectVisible { selector: selector@ },
            PlaywrightAction::ExpectHidden { selector } => PlaywrightActionView::ExpectHidden { selector: selector@ },
            PlaywrightAction::ExpectText { selector, text } => PlaywrightActionView::ExpectText { selector: selector@, text: text@ },
            PlaywrightAction::Screenshot { name } => PlaywrightActionView::Screenshot { name: name@ },
            PlaywrightAction::Eval { expression } => PlaywrightActionView::Eval { expression: expression@ },
        }
    }
}

pub open spec fn action_views(v: Seq<PlaywrightAction>) -> Seq<PlaywrightActionView> {
    v.map_values(|a: PlaywrightAction| a@)
}

pub open spec fn action_label(a: PlaywrightAction) -> Seq<char> {
    match a {
        PlaywrightAction::Goto { .. } => "goto"@,
        PlaywrightAction::WaitForSelector { .. } => "wait_for_selector"@,
        PlaywrightAction::Click { .. } => "click"@,
        PlaywrightAction::Fill { .. } => "fill"@,
        PlaywrightAction::Press { .. } => "press"@,
        PlaywrightAction::ExpectVisible { .. } => "expect_visible"@,
        PlaywrightAction::ExpectHidden { .. } => "expect_hidden"@,
        PlaywrightAction::ExpectText { .. } => "expect_text"@,
        PlaywrightAction::Screenshot { .. } => "screenshot"@,
        PlaywrightAction::Eval { .. } => "eval"@,
    }
}

/// The main target of an action: its URL, screenshot name, expression or selector.
pub open spec fn action_target(a: PlaywrightAction) -> Seq<char> {
    match a {
        PlaywrightAction::Goto { url } => url@,
        PlaywrightAction::Screenshot { name } => name@,
        PlaywrightAction::Eval { expression } => expression@,
        PlaywrightAction::WaitForSelector { selector } => selector@,
        PlaywrightAction::Click { selector } => selector@,
        PlaywrightAction::ExpectVisible { selector } => selector@,
        PlaywrightAction::ExpectHidden { selector } => selector@,
        PlaywrightAction::Fill { selector, .. } => selector@,
        PlaywrightAction::Press { selector, .. } => selector@,
        PlaywrightAction::ExpectText { selector, .. } => selector@,
    }
}

pub open spec fn is_assertion_spec(a: PlaywrightAction) -> bool {
    match a {
        PlaywrightAction::ExpectVisible { .. } => true,
        PlaywrightAction::ExpectHidden { .. } => true,
        PlaywrightAction::ExpectText { .. } => true,
        _ => false,
    }
}

impl PlaywrightAction {
    /// The protocol name of the action.
    pub fn label(&self) -> (r: &'static str)
        ensures
            r@ == action_label(*self),
    {
        match self {
            PlaywrightAction::Goto { .. } => "goto",
            PlaywrightAction::WaitForSelector { .. } => "wait_for_selector",
            PlaywrightAction::Click { .. } => "click",
            PlaywrightAction::Fill { .. } => "fill",
            PlaywrightAction::Press { .. } => "press",
            PlaywrightAction::ExpectVisible { .. } => "expect_visible",
            PlaywrightAction::ExpectHidden { .. } => "expect_hidden",
            PlaywrightAction::ExpectText { .. } => "expect_text",
            PlaywrightAction::Screenshot { .. } => "screenshot",
            PlaywrightAction::Eval { .. } => "eval",
        }
    }

    /// The main target of the action (selector, URL or name), for reports.
    pub fn target(&self) -> (r: String)
        ensures
            r@ == action_target(*self),
    {
        match self {
            PlaywrightAction::Goto { url } => url.clone(),
            PlaywrightAction::Screenshot { name } => name.clone(),
            PlaywrightAction::Eval { expression } => expression.clone(),
            PlaywrightAction::WaitForSelector { selector } => selector.clone(),
            PlaywrightAction::Click { selector } => selector.clone(),
            PlaywrightAction::ExpectVisible { selector } => selector.clone(),
            PlaywrightAction::ExpectHidden { selector } => selector.clone(),
            PlaywrightAction::Fill { selector, .. } => selector.clone(),
            PlaywrightAction::Press { selector, .. } => selector.clone(),
            PlaywrightAction::ExpectText { selector, .. } => selector.clone(),
        }
    }

    /// Whether the action asserts something about the page.
    pub fn is_assertion(&self) -> (r: bool)
        ensures
            r == is_assertion_spec(*self),
    {
        match self {
            PlaywrightAction::ExpectVisible { .. } => true,
            PlaywrightAction::ExpectHidden { .. } => true,
            PlaywrightAction::ExpectText { .. } => true,
            _ => false,
        }
    }

    /// A copy of the action.
    pub fn duplicate(&self) -> (r: PlaywrightAction)
        ensures
            r == *self,
    {
        match self {
            PlaywrightAction::Goto { url } => PlaywrightAction::Goto { url: url.clone() },
            PlaywrightAction::WaitForSelector { selector } => PlaywrightAction::WaitForSelector {
                selector: selector.clone(),
            },
            PlaywrightAction::Click { selector } => PlaywrightAction::Click {
                selector: selector.clone(),
            },
            PlaywrightAction::Fill { selector, value } => PlaywrightAction::Fill {
                selector: selector.clone(),
                value: value.clone(),
            },
            PlaywrightAction::Press { selector, key } => PlaywrightAction::Press {
                selector: selector.clone(),
                key: key.clone(),
            },
            PlaywrightAction::ExpectVisible { selector } => PlaywrightAction::ExpectVisible {
                selector: selector.clone(),
            },
            PlaywrightAction::ExpectHidden { selector } => PlaywrightAction::ExpectHidden {
                selector: selector.clone(),
            },
            PlaywrightAction::ExpectText { selector, text } => PlaywrightAction::ExpectText {
                selector: selector.clone(),
                text: text.clone(),
            },
            PlaywrightAction::Screenshot { name } => PlaywrightAction::Screenshot {
                name: name.clone(),
            },
            PlaywrightAction::Eval { expression } => PlaywrightAction::Eval {
                expression: expression.clone(),
            },
        }
    }
}

/// The result of one action as the sidecar reported it.
#[derive(Debug)]
pub struct ActionOutcome {
    pub index: usize,
    pub action: String,
    pub ok: bool,
    pub detail: Option<String>,
    pub screenshot_path: Option<String>,
    /// Attempts made; more than one means the action was retried.
    pub attempts: u32,
}

/// A console message of the page.
#[derive(Debug)]
pub struct ConsoleMessage {
    pub level: String,
    pub text: String,
}

/// A failed network request of the page.
#[derive(Debug)]
pub struct NetworkFailure {
    pub url: String,
    pub status: Option<u16>,
    pub failure: Option<String>,
}

/// An interactive element of the page.
#[derive(Debug)]
pub struct InteractiveElement {
    pub tag: String,
    pub role: String,
    pub text: String,
    pub selector: String,
}

/// A summary of the page.
#[derive(Debug)]
pub struct PageSnapshot {
    pub title: Option<String>,
    pub interactive: Vec<InteractiveElement>,
}

/// The aggregated evidence of one sidecar run.
#[derive(Debug)]
pub struct PlaywrightOutcome {
    pub started: bool,
    pub protocol_version: Option<u32>,
    pub actions: Vec<ActionOutcome>,
    pub console: Vec<ConsoleMessage>,
    pub network_failures: Vec<NetworkFailure>,
    pub page_errors: Vec<String>,
    pub snapshot: Option<PageSnapshot>,
    /// Path of the archived trace.
    pub trace_path: Option<String>,
    pub finished_ok: Option<bool>,
    pub fatal: Option<String>,
}

impl PlaywrightOutcome {
    /// The run succeeded: the sidecar finished with `ok` and reported no fatal error.
    pub fn success(&self) -> (r: bool)
        ensures
            r == (self.fatal is None && self.finished_ok == Some(true)),
    {
        self.fatal.is_none() && match self.finished_ok {
            Some(ok) => ok,
            None => false,
        }
    }

    /// An outcome with nothing reported yet.
    pub fn empty() -> (r: PlaywrightOutcome)
        ensures
            !r.started && r.protocol_version is None && r.actions@.len() == 0,
            r.console@.len() == 0 && r.network_failures@.len() == 0,
            r.page_errors@.len() == 0 && r.snapshot is None && r.trace_path is None,
            r.finished_ok is None && r.fatal is None,
            outcome_view(r) == empty_outcome(),
    {
        PlaywrightOutcome {
            started: false,
            protocol_version: None,
            actions: Vec::new(),
            console: Vec::new(),
            network_failures: Vec::new(),
            page_errors: Vec::new(),
            snapshot: None,
            trace_path: None,
            finished_ok: None,
            fatal: None,
        }
    }
}

/// An event the sidecar reports, one per output line. Lines that are not an
/// event, and events of unknown type, are ignored by the caller.
#[derive(Debug)]
#[allow(inconsistent_fields)]
pub enum RunnerEvent {
    Started { protocol_version: u32 },
    ActionResult {
        index: usize,
        action: String,
        ok: bool,
        detail: Option<String>,
        path: Option<String>,
        attempts: Option<u32>,
    },
    Console { level: String, text: String },
    PageError { message: String },
    NetworkFailed { url: String, status: Option<u16>, failure: Option<String> },
    Snapshot { title: Option<String>, interactive: Vec<InteractiveElement> },
    Trace { path: String },
    Finished { ok: bool },
    Fatal { message: String },
    Unknown,
}

pub open spec fn crash_message() -> Seq<char> {
    "runner ended without a finish event (possible sidecar crash)"@
}

/// An outcome with its lists as sequences.
pub struct OutcomeView {
    pub started: bool,
    pub protocol_version: Option<u32>,
    pub actions: Seq<ActionOutcome>,
    pub console: Seq<ConsoleMessage>,
    pub network_failures: Seq<NetworkFailure>,
    pub page_errors: Seq<String>,
    pub snapshot: Option<PageSnapshot>,
    pub trace_path: Option<String>,
    pub finished_ok: Option<bool>,
    pub fatal: Option<String>,
}

pub open spec fn outcome_view(o: PlaywrightOutcome) -> OutcomeView {
    OutcomeView {
        started: o.started,
        protocol_version: o.protocol_version,
        actions: o.actions@,
        console: o.console@,
        network_failures: o.network_failures@,
        page_errors: o.page_errors@,
        snapshot: o.snapshot,
        trace_path: o.trace_path,
        finished_ok: o.finished_ok,
        fatal: o.fatal,
    }
}

/// The number of attempts an action reports: at least one.
pub open spec fn reported_attempts(attempts: Option<u32>) -> u32 {
    match attempts {
        Some(a) => if a == 0 {
            1
        } else {
            a
        },
        None => 1,
    }
}

/// What one event changes in the outcome: list events append, the others
/// record their value (a later event of the same kind wins).
pub open spec fn event_step(o: OutcomeView, e: RunnerEvent) -> OutcomeView {
    match e {
        RunnerEvent::Started { protocol_version } => OutcomeView {
            started: true,
            protocol_version: Some(protocol_version),
            ..o
        },
        RunnerEvent::ActionResult { index, action, ok, detail, path, attempts } => OutcomeView {
            actions: o.actions.push(
                ActionOutcome {
                    index,
                    action,
                    ok,
                    detail,
                    screenshot_path: path,
                    attempts: reported_attempts(attempts),
                },
            ),
            ..o
        },
        RunnerEvent::Console { level, text } => OutcomeView {
            console: o.console.push(ConsoleMessage { level, text }),
            ..o
        },
        RunnerEvent::PageError { message } => OutcomeView {
            page_errors: o.page_errors.push(message),
            ..o
        },
        RunnerEvent::NetworkFailed { url, status, failure } => OutcomeView {
            network_failures: o.network_failures.push(NetworkFailure { url, status, failure }),
            ..o
        },
        RunnerEvent::Snapshot { title, interactive } => OutcomeView {
            snapshot: Some(PageSnapshot { title, interactive }),
            ..o
        },
        RunnerEvent::Trace { path } => OutcomeView { trace_path: Some(path), ..o },
        RunnerEvent::Finished { ok } => OutcomeView { finished_ok: Some(ok), ..o },
        RunnerEvent::Fatal { message } => OutcomeView { fatal: Some(message), ..o },
        RunnerEvent::Unknown => o,
    }
}

/// The outcome of an empty stream.
pub open spec fn empty_outcome() -> OutcomeView {
    OutcomeView {
        started: false,
        protocol_version: None,
        actions: Seq::empty(),
        console: Seq::empty(),
        network_failures: Seq::empty(),
        page_errors: Seq::empty(),
        snapshot: None,
        trace_path: None,
        finished_ok: None,
        fatal: None,
    }
}

/// The events applied in order.
pub open spec fn events_outcome(events: Seq<RunnerEvent>) -> OutcomeView
    decreases events.len(),
{
    if events.len() == 0 {
        empty_outcome()
    } else {
        event_step(events_outcome(events.drop_last()), events.last())
    }
}

/// Closing a stream: one that reported neither a finish nor a fatal error
/// ended early and gets the crash message as its fatal error; any other is
/// kept.
pub open spec fn closed_outcome(o: OutcomeView, r: OutcomeView) -> bool {
    if o.finished_ok is None && o.fatal is None {
        &&& r == OutcomeView { fatal: r.fatal, ..o }
        &&& r.fatal matches Some(m) && m@ == crash_message()
    } else {
        r == o
    }
}

/// Records one event in the outcome.
pub fn apply_event(outcome: &mut PlaywrightOutcome, event: RunnerEvent)
    ensures
        outcome_view(*final(outcome)) == event_step(outcome_view(*old(outcome)), event),
{
    match event {
        RunnerEvent::Started { protocol_version } => {
            outcome.started = true;
            outcome.protocol_version = Some(protocol_version);
        },
        RunnerEvent::ActionResult { index, action, ok, detail, path, attempts } => {
            let attempts = match attempts {
                Some(a) => if a == 0 {
                    1
                } else {
                    a
                },
                None => 1,
            };
            outcome.actions.push(
                ActionOutcome { index, action, ok, detail, screenshot_path: path, attempts },
            );
        },
        RunnerEvent::Console { level, text } => {
            outcome.console.push(ConsoleMessage { level, text });
        },
        RunnerEvent::PageError { message } => {
            outcome.page_errors.push(message);
        },
        RunnerEvent::NetworkFailed { url, status, failure } => {
            outcome.network_failures.push(NetworkFailure { url, status, failure });
        },
        RunnerEvent::Snapshot { title, interactive } => {
            outcome.snapshot = Some(PageSnapshot { title, interactive });
        },
        RunnerEvent::Trace { path } => {
            outcome.trace_path = Some(path);
        },
        RunnerEvent::Finished { ok } => {
            outcome.finished_ok = Some(ok);
        },
        RunnerEvent::Fatal { message } => {
            outcome.fatal = Some(message);
        },
        RunnerEvent::Unknown => {},
    }
}

/// Closes an event stream: a stream that reported neither a finish nor a
/// fatal error ended early, which is recorded as a fatal error.
pub fn finish_event_stream(outcome: &mut PlaywrightOutcome)
    ensures
        closed_outcome(outcome_view(*old(outcome)), outcome_view(*final(outcome))),
{
    if outcome.finished_ok.is_none() && outcome.fatal.is_none() {
        outcome.fatal = Some(owned("runner ended without a finish event (possible sidecar crash)"));
    }
}

/// Aggregates the sidecar's events, in order, into an outcome.
pub fn build_outcome(events: Vec<RunnerEvent>) -> (r: PlaywrightOutcome)
    ensures
        closed_outcome(events_outcome(events@), outcome_view(r)),
{
    let ghost evs = events@;
    let mut outcome = PlaywrightOutcome::empty();
    let mut rest = events;
    let n = rest.len();
    let mut i: usize = 0;
    while rest.len() > 0
        invariant
            i <= evs.len(),
            n == evs.len(),
            rest@ == evs.skip(i as int),
            outcome_view(outcome) == events_outcome(evs.take(i as int)),
        decreases rest@.len(),
    {
        let event = rest.remove(0);
        assert(event == evs[i as int]);
        assert(evs.skip(i + 1) == evs.skip(i as int).remove(0));
        assert(evs.take(i + 1).drop_last() == evs.take(i as int));
        apply_event(&mut outcome, event);
        i = i + 1;
    }
    assert(evs.take(evs.len() as int) == evs);
    finish_event_stream(&mut outcome);
    outcome
}

/// What the file system says about one candidate runner script.
#[derive(Debug)]
pub struct RunnerCandidate {
    /// The candidate path of `runner.mjs`.
    pub runner_js: String,
    /// The directory that holds it, when the path has one.
    pub dir: Option<String>,
    /// Whether `runner_js` is a file.
    pub is_file: bool,
    /// Whether `dir/package.json` is a file.
    pub has_package_json: bool,
    /// Whether `dir/node_modules/playwright` is a directory.
    pub has_playwright: bool,
}

/// The relative path of the runner script in a checkout.
pub const RUNNER_RELATIVE_PATH: &'static str = "executors/playwright-runner/runner.mjs";

pub open spec fn runner_candidates_spec(
    explicit: Option<Seq<char>>,
    beside_binary: Option<Seq<char>>,
) -> Seq<Seq<char>> {
    let a = match explicit {
        Some(e) => seq![e],
        None => Seq::<Seq<char>>::empty(),
    };
    let b = a.push(RUNNER_RELATIVE_PATH@);
    match beside_binary {
        Some(p) => b.push(p),
        None => b,
    }
}

/// The places searched for the runner, in order: the path named by the
/// environment, the checkout-relative path, and the path beside the binary.
pub fn runner_candidates(explicit: Option<String>, beside_binary: Option<String>) -> (r: Vec<String>)
    ensures
        r@.map_values(|s: String| s@) == runner_candidates_spec(
            opt_string_view(explicit),
            opt_string_view(beside_binary),
        ),
{
    let mut out: Vec<String> = Vec::new();
    match explicit {
        Some(e) => out.push(e),
        None => {},
    }
    out.push(owned(RUNNER_RELATIVE_PATH));
    match beside_binary {
        Some(p) => out.push(p),
        None => {},
    }
    proof {
        let a = match opt_string_view(explicit) {
            Some(e) => seq![e],
            None => Seq::<Seq<char>>::empty(),
        };
        assert(out@.map_values(|s: String| s@) =~= runner_candidates_spec(
            opt_string_view(explicit),
            opt_string_view(beside_binary),
        ));
    }
    out
}

pub open spec fn usable_runner(c: RunnerCandidate) -> bool {
    c.is_file && c.dir is Some && c.has_playwright
}

pub open spec fn has_runner_dir(c: RunnerCandidate) -> bool {
    c.dir is Some && c.has_package_json
}

/// The first candidate whose script exists beside an installed Playwright.
pub fn detect_runner(disabled: bool, candidates: &Vec<RunnerCandidate>) -> (r: Option<RunnerLocation>)
    ensures
        disabled ==> r is None,
        !disabled ==> match r {
            Some(loc) => exists|i: int|
                0 <= i < candidates@.len() && usable_runner(#[trigger] candidates@[i])
                    && loc.runner_js@ == candidates@[i].runner_js@ && forall|j: int|
                    0 <= j < i ==> !usable_runner(#[trigger] candidates@[j]),
            None => forall|i: int|
                0 <= i < candidates@.len() ==> !usable_runner(#[trigger] candidates@[i]),
        },
{
    if disabled {
        return None;
    }
    let mut i: usize = 0;
    while i < candidates.len()
        invariant
            !disabled,
            i <= candidates@.len(),
            forall|j: int| 0 <= j < i ==> !usable_runner(#[trigger] candidates@[j]),
        decreases candidates.len() - i,
    {
        let c = &candidates[i];
        if c.is_file && c.dir.is_some() && c.has_playwright {
            return Some(RunnerLocation { runner_js: c.runner_js.clone() });
        }
        i = i + 1;
    }
    None
}

/// The directory (holding `package.json`) of the first candidate that has one;
/// dependencies of the runner are installed there.
pub fn runner_dir(candidates: &Vec<RunnerCandidate>) -> (r: Option<String>)
    ensures
        match r {
            Some(d) => exists|i: int|
                0 <= i < candidates@.len() && has_runner_dir(#[trigger] candidates@[i])
                    && Some(d@) == opt_string_view(candidates@[i].dir) && forall|j: int|
                    0 <= j < i ==> !has_runner_dir(#[trigger] candidates@[j]),
            None => forall|i: int|
                0 <= i < candidates@.len() ==> !has_runner_dir(#[trigger] candidates@[i]),
        },
{
    let mut i: usize = 0;
    while i < candidates.len()
        invariant
            i <= candidates@.len(),
            forall|j: int| 0 <= j < i ==> !has_runner_dir(#[trigger] candidates@[j]),
        decreases candidates.len() - i,
    {
        let c = &candidates[i];
        if c.has_package_json {
            match &c.dir {
                Some(d) => {
                    return Some(d.clone());
                },
                None => {},
            }
        }
        i = i + 1;
    }
    None
}


proof fn lemma_events_attempts(events: Seq<RunnerEvent>)
    ensures
        forall|k: int| 0 <= k < events_outcome(events).actions.len() ==> (#[trigger] events_outcome(events).actions[k]).attempts >= 1,
    decreases events.len(),
{
    if events.len() > 0 {
        lemma_events_attempts(events.drop_last());
        let prev = events_outcome(events.drop_last());
        assert forall|k: int| 0 <= k < events_outcome(events).actions.len() implies (#[trigger] events_outcome(events).actions[k]).attempts >= 1 by {
            if k < prev.actions.len() {
                assert(events_outcome(events).actions[k] == prev.actions[k]) by {
                    match events.last() {
                        RunnerEvent::ActionResult { .. } => {},
                        _ => {},
                    }
                }
            }
        }
    }
}

/// A stream of events, once closed, always ends with a finish or a fatal
/// error (a missing finish is reported as a crash), and every action counts
/// at least one attempt; the actions are those the events reported.
pub proof fn lemma_closed_outcome_is_settled(events: Seq<RunnerEvent>, r: OutcomeView)
    requires
        closed_outcome(events_outcome(events), r),
    ensures
        r.finished_ok is Some || r.fatal is Some,
        forall|k: int| 0 <= k < r.actions.len() ==> (#[trigger] r.actions[k]).attempts >= 1,
        r.actions == events_outcome(events).actions,
{
    lemma_events_attempts(events);
}

} // verus!
