//! Concrete browser scenarios for requirements, and the guard that keeps a
//! repaired scenario from weakening its assertions.
use vstd::prelude::*;
use vstd::multiset::Multiset;
use crate::playwright::{
    action_label, action_views, is_assertion_spec, InteractiveElement, PageSnapshot, PlaywrightAction, PlaywrightActionView,
};
use crate::requirements::{category_name, Requirement, RequirementReport};
use crate::text::{
    chars_of, copy_strings, decimal, decimal_string, join, join_strings, opt_string_view, owned,
    str_eq, string_views, trim, trim_chars,
};

verus! {

/// An executable browser scenario for one requirement.
#[derive(Debug)]
pub struct Scenario {
    pub requirement_id: String,
    pub title: String,
    pub expected_observation: String,
    pub steps: Vec<PlaywrightAction>,
}

pub struct ScenarioView {
    pub requirement_id: Seq<char>,
    pub title: Seq<char>,
    pub expected_observation: Seq<char>,
    pub steps: Seq<PlaywrightActionView>,
}

impl View for Scenario {
    type V = ScenarioView;

    open spec fn view(&self) -> ScenarioView {
        ScenarioView {
            requirement_id: self.requirement_id@,
            title: self.title@,
            expected_observation: self.expected_observation@,
            steps: action_views(self.steps@),
        }
    }
}

pub open spec fn scenario_views(v: Seq<Scenario>) -> Seq<ScenarioView> {
    v.map_values(|x: Scenario| x@)
}

/// Generated scenarios and the model's notes.
#[derive(Debug)]
pub struct ScenarioPlan {
    pub scenarios: Vec<Scenario>,
    pub notes: Vec<String>,
}

/// A scenario whose first failing step is an operation (not an assertion).
#[derive(Debug)]
pub struct BrokenScenario {
    pub scenario: Scenario,
    /// Index in `scenario.steps` of the first failing step.
    pub failed_step: usize,
    /// What the executor reported for the failure.
    pub failed_detail: String,
    /// The page when the step failed, if it was captured.
    pub page_at_failure: Option<PageSnapshot>,
}

/// One step as the model writes it: a flat record that is turned into a
/// [`PlaywrightAction`].
#[derive(Debug)]
pub struct ScenarioStepWire {
    pub action: String,
    pub selector: Option<String>,
    pub value: Option<String>,
    pub key: Option<String>,
    pub text: Option<String>,
    pub url: Option<String>,
    pub name: Option<String>,
}

/// One scenario as the model writes it.
#[derive(Debug)]
pub struct ScenarioWire {
    pub requirement_id: String,
    pub title: String,
    pub expected_observation: String,
    pub steps: Vec<ScenarioStepWire>,
}

/// The model's answer: scenarios and notes.
#[derive(Debug)]
pub struct ScenarioPlanWire {
    pub scenarios: Vec<ScenarioWire>,
    pub notes: Vec<String>,
}

// ---------------------------------------------------------------------------
// Converting one step
// ---------------------------------------------------------------------------

/// The selectors of the page's interactive elements, in order.
pub open spec fn page_selectors(snapshot: PageSnapshot) -> Seq<Seq<char>> {
    snapshot.interactive@.map_values(|e: InteractiveElement| e.selector@)
}

pub open spec fn string_result_view(r: Result<String, String>) -> Result<Seq<char>, Seq<char>> {
    match r {
        Ok(v) => Ok(v@),
        Err(e) => Err(e@),
    }
}

pub open spec fn action_result_view(r: Result<PlaywrightAction, String>) -> Result<
    PlaywrightActionView,
    Seq<char>,
> {
    match r {
        Ok(a) => Ok(a@),
        Err(e) => Err(e@),
    }
}

pub open spec fn step_prefix(i: nat) -> Seq<char> {
    "step "@ + decimal(i)
}

pub open spec fn selector_message(i: nat, action: Seq<char>) -> Seq<char> {
    step_prefix(i) + " ("@ + action + ") requires a selector"@
}

pub open spec fn unknown_selector_message(i: nat, selector: Seq<char>) -> Seq<char> {
    step_prefix(i) + " uses selector '"@ + selector
        + "' which is not in the page's interactive elements"@
}

pub open spec fn missing_key_message(i: nat) -> Seq<char> {
    step_prefix(i) + " (press) requires a key"@
}

pub open spec fn missing_text_message(i: nat) -> Seq<char> {
    step_prefix(i) + " (expect_text) requires text"@
}

pub open spec fn unsupported_action_message(i: nat, action: Seq<char>) -> Seq<char> {
    step_prefix(i) + " uses unsupported action '"@ + action + "'"@
}

/// The step's selector, when it holds more than whitespace.
pub open spec fn usable_selector(step: ScenarioStepWire) -> Option<Seq<char>> {
    match step.selector {
        Some(s) => if trim(s@).len() > 0 { Some(s@) } else { None },
        None => None,
    }
}

/// A selector for an assertion or a wait: any non-blank selector.
pub open spec fn any_selector(step: ScenarioStepWire, i: nat) -> Result<Seq<char>, Seq<char>> {
    match usable_selector(step) {
        Some(v) => Ok(v),
        None => Err(selector_message(i, step.action@)),
    }
}

/// A selector for an operation: it must be one of the page's selectors.
pub open spec fn page_selector(step: ScenarioStepWire, known: Seq<Seq<char>>, i: nat) -> Result<
    Seq<char>,
    Seq<char>,
> {
    match any_selector(step, i) {
        Ok(v) => if known.contains(v) { Ok(v) } else { Err(unknown_selector_message(i, v)) },
        Err(e) => Err(e),
    }
}

pub open spec fn or_empty(v: Option<String>) -> Seq<char> {
    match v {
        Some(s) => s@,
        None => Seq::<char>::empty(),
    }
}

/// The action that step `i` stands for, or why it cannot be run.
pub open spec fn step_action(
    step: ScenarioStepWire,
    known: Seq<Seq<char>>,
    base_url: Seq<char>,
    i: nat,
) -> Result<PlaywrightActionView, Seq<char>> {
    let a = step.action@;
    if a == "goto"@ {
        Ok(
            PlaywrightActionView::Goto {
                url: match step.url {
                    Some(u) => u@,
                    None => base_url,
                },
            },
        )
    } else if a == "screenshot"@ {
        Ok(
            PlaywrightActionView::Screenshot {
                name: match step.name {
                    Some(n) => n@,
                    None => "step-"@ + decimal(i),
                },
            },
        )
    } else if a == "click"@ {
        match page_selector(step, known, i) {
            Ok(s) => Ok(PlaywrightActionView::Click { selector: s }),
            Err(e) => Err(e),
        }
    } else if a == "fill"@ {
        match page_selector(step, known, i) {
            Ok(s) => Ok(PlaywrightActionView::Fill { selector: s, value: or_empty(step.value) }),
            Err(e) => Err(e),
        }
    } else if a == "press"@ {
        match page_selector(step, known, i) {
            Ok(s) => match step.key {
                Some(k) => Ok(PlaywrightActionView::Press { selector: s, key: k@ }),
                None => Err(missing_key_message(i)),
            },
            Err(e) => Err(e),
        }
    } else if a == "wait_for_selector"@ {
        match any_selector(step, i) {
            Ok(s) => Ok(PlaywrightActionView::WaitForSelector { selector: s }),
            Err(e) => Err(e),
        }
    } else if a == "expect_visible"@ {
        match any_selector(step, i) {
            Ok(s) => Ok(PlaywrightActionView::ExpectVisible { selector: s }),
            Err(e) => Err(e),
        }
    } else if a == "expect_hidden"@ {
        match any_selector(step, i) {
            Ok(s) => Ok(PlaywrightActionView::ExpectHidden { selector: s }),
            Err(e) => Err(e),
        }
    } else if a == "expect_text"@ {
        match any_selector(step, i) {
            Ok(s) => match step.text {
                Some(t) => Ok(PlaywrightActionView::ExpectText { selector: s, text: t@ }),
                None => Err(missing_text_message(i)),
            },
            Err(e) => Err(e),
        }
    } else {
        Err(unsupported_action_message(i, a))
    }
}

fn step_prefix_string(i: usize) -> (r: String)
    ensures
        r@ == step_prefix(i as nat),
{
    let mut r = owned("step ");
    let d = decimal_string(i as u128);
    r.append(d.as_str());
    r
}

/// Whether the page has an interactive element with this selector.
pub fn page_has_selector(snapshot: &PageSnapshot, selector: &String) -> (r: bool)
    ensures
        r == page_selectors(*snapshot).contains(selector@),
{
    let ghost known = page_selectors(*snapshot);
    let mut i: usize = 0;
    while i < snapshot.interactive.len()
        invariant
            i <= snapshot.interactive@.len(),
            known == page_selectors(*snapshot),
            forall|j: int| 0 <= j < i ==> known[j] != selector@,
        decreases snapshot.interactive.len() - i,
    {
        if str_eq(snapshot.interactive[i].selector.as_str(), selector.as_str()) {
            assert(known[i as int] == selector@);
            return true;
        }
        i = i + 1;
    }
    false
}

fn usable_selector_of(step: &ScenarioStepWire) -> (r: Option<String>)
    ensures
        opt_string_view(r) == usable_selector(*step),
{
    match &step.selector {
        Some(s) => {
            let v = chars_of(s.as_str());
            let t = trim_chars(v.as_slice());
            if t.len() == 0 {
                None
            } else {
                Some(s.clone())
            }
        },
        None => None,
    }
}

fn any_selector_of(step: &ScenarioStepWire, index: usize) -> (r: Result<String, String>)
    ensures
        string_result_view(r) == any_selector(*step, index as nat),
{
    match usable_selector_of(step) {
        Some(v) => Ok(v),
        None => {
            let mut m = step_prefix_string(index);
            m.append(" (");
            m.append(step.action.as_str());
            m.append(") requires a selector");
            Err(m)
        },
    }
}

fn page_selector_of(step: &ScenarioStepWire, snapshot: &PageSnapshot, index: usize) -> (r: Result<
    String,
    String,
>)
    ensures
        string_result_view(r) == page_selector(*step, page_selectors(*snapshot), index as nat),
{
    match any_selector_of(step, index) {
        Ok(v) => {
            if page_has_selector(snapshot, &v) {
                Ok(v)
            } else {
                let mut m = step_prefix_string(index);
                m.append(" uses selector '");
                m.append(v.as_str());
                m.append("' which is not in the page's interactive elements");
                Err(m)
            }
        },
        Err(e) => Err(e),
    }
}

fn string_or_empty(v: &Option<String>) -> (r: String)
    ensures
        r@ == or_empty(*v),
{
    match v {
        Some(s) => s.clone(),
        None => String::new(),
    }
}

/// Turns step `index` into an action, checking that operations (click, fill,
/// press) name a selector of the page; assertions and waits may name any
/// selector.
pub fn to_action(
    step: &ScenarioStepWire,
    snapshot: &PageSnapshot,
    base_url: &str,
    index: usize,
) -> (r: Result<PlaywrightAction, String>)
    ensures
        action_result_view(r) == step_action(*step, page_selectors(*snapshot), base_url@, index as nat),
{
    let a = step.action.as_str();
    if str_eq(a, "goto") {
        let url = match &step.url {
            Some(u) => u.clone(),
            None => owned(base_url),
        };
        Ok(PlaywrightAction::Goto { url })
    } else if str_eq(a, "screenshot") {
        let name = match &step.name {
            Some(n) => n.clone(),
            None => {
                let mut n = owned("step-");
                let d = decimal_string(index as u128);
                n.append(d.as_str());
                n
            },
        };
        Ok(PlaywrightAction::Screenshot { name })
    } else if str_eq(a, "click") {
        match page_selector_of(step, snapshot, index) {
            Ok(selector) => Ok(PlaywrightAction::Click { selector }),
            Err(e) => Err(e),
        }
    } else if str_eq(a, "fill") {
        match page_selector_of(step, snapshot, index) {
            Ok(selector) => Ok(PlaywrightAction::Fill { selector, value: string_or_empty(&step.value) }),
            Err(e) => Err(e),
        }
    } else if str_eq(a, "press") {
        match page_selector_of(step, snapshot, index) {
            Ok(selector) => match &step.key {
                Some(k) => Ok(PlaywrightAction::Press { selector, key: k.clone() }),
                None => {
                    let mut m = step_prefix_string(index);
                    m.append(" (press) requires a key");
                    Err(m)
                },
            },
            Err(e) => Err(e),
        }
    } else if str_eq(a, "wait_for_selector") {
        match any_selector_of(step, index) {
            Ok(selector) => Ok(PlaywrightAction::WaitForSelector { selector }),
            Err(e) => Err(e),
        }
    } else if str_eq(a, "expect_visible") {
        match any_selector_of(step, index) {
            Ok(selector) => Ok(PlaywrightAction::ExpectVisible { selector }),
            Err(e) => Err(e),
        }
    } else if str_eq(a, "expect_hidden") {
        match any_selector_of(step, index) {
            Ok(selector) => Ok(PlaywrightAction::ExpectHidden { selector }),
            Err(e) => Err(e),
        }
    } else if str_eq(a, "expect_text") {
        match any_selector_of(step, index) {
            Ok(selector) => match &step.text {
                Some(t) => Ok(PlaywrightAction::ExpectText { selector, text: t.clone() }),
                None => {
                    let mut m = step_prefix_string(index);
                    m.append(" (expect_text) requires text");
                    Err(m)
                },
            },
            Err(e) => Err(e),
        }
    } else {
        let mut m = step_prefix_string(index);
        m.append(" uses unsupported action '");
        m.append(a);
        m.append("'");
        Err(m)
    }
}

// ---------------------------------------------------------------------------
// Validating the model's scenarios
// ---------------------------------------------------------------------------

/// The scenarios that passed validation, and the model's notes.
#[derive(Debug)]
pub struct ParsedScenarios {
    pub scenarios: Vec<Scenario>,
    pub notes: Vec<String>,
}

pub struct ParsedScenariosView {
    pub scenarios: Seq<ScenarioView>,
    pub notes: Seq<Seq<char>>,
}

impl View for ParsedScenarios {
    type V = ParsedScenariosView;

    open spec fn view(&self) -> ParsedScenariosView {
        ParsedScenariosView { scenarios: scenario_views(self.scenarios@), notes: string_views(self.notes@) }
    }
}

/// The ids of the report's requirements, in order.
pub open spec fn requirement_ids(report: RequirementReport) -> Seq<Seq<char>> {
    report.requirements@.map_values(|r: Requirement| r.id@)
}

pub open spec fn scenario_prefix(k: nat) -> Seq<char> {
    "scenario "@ + decimal(k)
}

pub open spec fn unknown_requirement_message(k: nat, id: Seq<char>) -> Seq<char> {
    scenario_prefix(k) + " references unknown requirement_id "@ + id
}

pub open spec fn no_usable_steps_message(k: nat, id: Seq<char>) -> Seq<char> {
    scenario_prefix(k) + " ("@ + id + ") has no usable steps"@
}

pub open spec fn no_scenarios_message() -> Seq<char> {
    "no executable scenarios were produced"@
}

/// The actions of the steps that convert, in order (step `i` is numbered `i`).
pub open spec fn kept_steps(steps: Seq<ScenarioStepWire>, known: Seq<Seq<char>>, base_url: Seq<char>) -> Seq<
    PlaywrightActionView,
>
    decreases steps.len(),
{
    if steps.len() == 0 {
        Seq::empty()
    } else {
        let prev = kept_steps(steps.drop_last(), known, base_url);
        match step_action(steps.last(), known, base_url, (steps.len() - 1) as nat) {
            Ok(a) => prev.push(a),
            Err(_) => prev,
        }
    }
}

/// What is wrong with the steps of scenario `k`, in order.
pub open spec fn step_problems(
    steps: Seq<ScenarioStepWire>,
    known: Seq<Seq<char>>,
    base_url: Seq<char>,
    k: nat,
) -> Seq<Seq<char>>
    decreases steps.len(),
{
    if steps.len() == 0 {
        Seq::empty()
    } else {
        let prev = step_problems(steps.drop_last(), known, base_url, k);
        match step_action(steps.last(), known, base_url, (steps.len() - 1) as nat) {
            Ok(_) => prev,
            Err(e) => prev.push(scenario_prefix(k) + ": "@ + e),
        }
    }
}

/// Everything wrong with scenario `k`: an unknown requirement id, then the
/// steps' problems, then the lack of any usable step.
pub open spec fn scenario_problems(
    w: ScenarioWire,
    k: nat,
    ids: Seq<Seq<char>>,
    known: Seq<Seq<char>>,
    base_url: Seq<char>,
) -> Seq<Seq<char>> {
    (if ids.contains(w.requirement_id@) {
        Seq::<Seq<char>>::empty()
    } else {
        seq![unknown_requirement_message(k, w.requirement_id@)]
    }) + step_problems(w.steps@, known, base_url, k) + (if kept_steps(w.steps@, known, base_url).len()
        == 0 {
        seq![no_usable_steps_message(k, w.requirement_id@)]
    } else {
        Seq::<Seq<char>>::empty()
    })
}

/// A blank title becomes "验证 <id>".
pub open spec fn scenario_title(w: ScenarioWire) -> Seq<char> {
    if trim(w.title@).len() == 0 {
        "验证 "@ + w.requirement_id@
    } else {
        w.title@
    }
}

/// The scenario that `k` yields: one with a known id and at least one usable
/// step, whose steps all convert (or, when lenient, the steps that do).
pub open spec fn kept_scenario(
    w: ScenarioWire,
    ids: Seq<Seq<char>>,
    known: Seq<Seq<char>>,
    base_url: Seq<char>,
    k: nat,
    lenient: bool,
) -> Option<ScenarioView> {
    let steps = kept_steps(w.steps@, known, base_url);
    if steps.len() > 0 && ids.contains(w.requirement_id@) && (step_problems(
        w.steps@,
        known,
        base_url,
        k,
    ).len() == 0 || lenient) {
        Some(
            ScenarioView {
                requirement_id: w.requirement_id@,
                title: scenario_title(w),
                expected_observation: w.expected_observation@,
                steps,
            },
        )
    } else {
        None
    }
}

pub open spec fn plan_problems(
    ws: Seq<ScenarioWire>,
    ids: Seq<Seq<char>>,
    known: Seq<Seq<char>>,
    base_url: Seq<char>,
) -> Seq<Seq<char>>
    decreases ws.len(),
{
    if ws.len() == 0 {
        Seq::empty()
    } else {
        plan_problems(ws.drop_last(), ids, known, base_url) + scenario_problems(
            ws.last(),
            (ws.len() - 1) as nat,
            ids,
            known,
            base_url,
        )
    }
}

pub open spec fn plan_kept(
    ws: Seq<ScenarioWire>,
    ids: Seq<Seq<char>>,
    known: Seq<Seq<char>>,
    base_url: Seq<char>,
    lenient: bool,
) -> Seq<ScenarioView>
    decreases ws.len(),
{
    if ws.len() == 0 {
        Seq::empty()
    } else {
        let prev = plan_kept(ws.drop_last(), ids, known, base_url, lenient);
        match kept_scenario(ws.last(), ids, known, base_url, (ws.len() - 1) as nat, lenient) {
            Some(s) => prev.push(s),
            None => prev,
        }
    }
}

/// The outcome of validating the model's answer: in strict mode any problem
/// rejects the answer with all problems joined by "; "; in lenient mode the
/// usable part is kept; either way an answer with nothing to run is refused.
pub open spec fn validation(
    plan: ScenarioPlanWire,
    ids: Seq<Seq<char>>,
    known: Seq<Seq<char>>,
    base_url: Seq<char>,
    lenient: bool,
) -> Result<ParsedScenariosView, Seq<char>> {
    let problems = plan_problems(plan.scenarios@, ids, known, base_url);
    let kept = plan_kept(plan.scenarios@, ids, known, base_url, lenient);
    if problems.len() > 0 && !lenient {
        Err(join(problems, "; "@))
    } else if kept.len() == 0 {
        Err(no_scenarios_message())
    } else {
        Ok(ParsedScenariosView { scenarios: kept, notes: string_views(plan.notes@) })
    }
}

pub open spec fn parsed_result_view(r: Result<ParsedScenarios, String>) -> Result<
    ParsedScenariosView,
    Seq<char>,
> {
    match r {
        Ok(p) => Ok(p@),
        Err(e) => Err(e@),
    }
}

/// Whether the report has a requirement with this id.
pub fn requirement_known(report: &RequirementReport, id: &String) -> (r: bool)
    ensures
        r == requirement_ids(*report).contains(id@),
{
    let ghost ids = requirement_ids(*report);
    let mut i: usize = 0;
    while i < report.requirements.len()
        invariant
            i <= report.requirements@.len(),
            ids == requirement_ids(*report),
            forall|j: int| 0 <= j < i ==> ids[j] != id@,
        decreases report.requirements.len() - i,
    {
        if str_eq(report.requirements[i].id.as_str(), id.as_str()) {
            assert(ids[i as int] == id@);
            return true;
        }
        i = i + 1;
    }
    false
}

fn scenario_prefix_string(k: usize) -> (r: String)
    ensures
        r@ == scenario_prefix(k as nat),
{
    let mut r = owned("scenario ");
    let d = decimal_string(k as u128);
    r.append(d.as_str());
    r
}

fn push_string(v: &mut Vec<String>, s: String)
    ensures
        string_views(final(v)@) == string_views(old(v)@).push(s@),
{
    let ghost before = v@;
    v.push(s);
    assert(string_views(v@) =~= string_views(before).push(s@));
}

/// Validates scenario `k`: appends its problems and returns the scenario it
/// yields, if any.
fn convert_scenario(
    w: &ScenarioWire,
    k: usize,
    report: &RequirementReport,
    snapshot: &PageSnapshot,
    base_url: &str,
    lenient: bool,
    problems: &mut Vec<String>,
) -> (r: Option<Scenario>)
    ensures
        string_views(final(problems)@) == string_views(old(problems)@) + scenario_problems(
            *w,
            k as nat,
            requirement_ids(*report),
            page_selectors(*snapshot),
            base_url@,
        ),
        match r {
            Some(s) => kept_scenario(
                *w,
                requirement_ids(*report),
                page_selectors(*snapshot),
                base_url@,
                k as nat,
                lenient,
            ) == Some(s@),
            None => kept_scenario(
                *w,
                requirement_ids(*report),
                page_selectors(*snapshot),
                base_url@,
                k as nat,
                lenient,
            ) is None,
        },
{
    let ghost ids = requirement_ids(*report);
    let ghost known = page_selectors(*snapshot);
    let ghost start = string_views(problems@);
    let id_ok = requirement_known(report, &w.requirement_id);
    if !id_ok {
        let mut m = scenario_prefix_string(k);
        m.append(" references unknown requirement_id ");
        m.append(w.requirement_id.as_str());
        push_string(problems, m);
    }
    let ghost head = string_views(problems@);
    assert(head == start + (if ids.contains(w.requirement_id@) {
        Seq::<Seq<char>>::empty()
    } else {
        seq![unknown_requirement_message(k as nat, w.requirement_id@)]
    }));
    let ghost ws = w.steps@;
    let mut steps: Vec<PlaywrightAction> = Vec::new();
    let mut all_ok = true;
    let mut j: usize = 0;
    while j < w.steps.len()
        invariant
            j <= ws.len(),
            ws == w.steps@,
            known == page_selectors(*snapshot),
            action_views(steps@) == kept_steps(ws.take(j as int), known, base_url@),
            string_views(problems@) == head + step_problems(ws.take(j as int), known, base_url@, k as nat),
            all_ok == (step_problems(ws.take(j as int), known, base_url@, k as nat).len() == 0),
        decreases w.steps.len() - j,
    {
        assert(ws.take(j + 1).drop_last() == ws.take(j as int));
        assert(ws.take(j + 1).last() == ws[j as int]);
        let ghost before_steps = steps@;
        match to_action(&w.steps[j], snapshot, base_url, j) {
            Ok(action) => {
                steps.push(action);
                assert(action_views(steps@) =~= action_views(before_steps).push(action@));
            },
            Err(problem) => {
                let mut m = scenario_prefix_string(k);
                m.append(": ");
                m.append(problem.as_str());
                push_string(problems, m);
                all_ok = false;
            },
        }
        j = j + 1;
    }
    assert(ws.take(ws.len() as int) == ws);
    if steps.len() == 0 {
        let mut m = scenario_prefix_string(k);
        m.append(" (");
        m.append(w.requirement_id.as_str());
        m.append(") has no usable steps");
        push_string(problems, m);
        return None;
    }
    if id_ok && (all_ok || lenient) {
        let title = {
            let v = chars_of(w.title.as_str());
            let t = trim_chars(v.as_slice());
            if t.len() == 0 {
                let mut t = owned("验证 ");
                t.append(w.requirement_id.as_str());
                t
            } else {
                w.title.clone()
            }
        };
        Some(
            Scenario {
                requirement_id: w.requirement_id.clone(),
                title,
                expected_observation: w.expected_observation.clone(),
                steps,
            },
        )
    } else {
        None
    }
}

/// Validates the model's scenarios against the report's requirement ids and
/// the page's selectors. In strict mode any problem rejects the answer, with
/// every problem in the feedback; in lenient mode (the last round) the usable
/// scenarios and steps are kept. An answer with nothing to run is refused.
pub fn validate_scenarios(
    plan: &ScenarioPlanWire,
    report: &RequirementReport,
    snapshot: &PageSnapshot,
    base_url: &str,
    lenient: bool,
) -> (r: Result<ParsedScenarios, String>)
    ensures
        parsed_result_view(r) == validation(
            *plan,
            requirement_ids(*report),
            page_selectors(*snapshot),
            base_url@,
            lenient,
        ),
{
    let ghost ids = requirement_ids(*report);
    let ghost known = page_selectors(*snapshot);
    let ghost ws = plan.scenarios@;
    let mut problems: Vec<String> = Vec::new();
    let mut scenarios: Vec<Scenario> = Vec::new();
    let mut k: usize = 0;
    assert(string_views(problems@) =~= Seq::<Seq<char>>::empty());
    while k < plan.scenarios.len()
        invariant
            k <= ws.len(),
            ws == plan.scenarios@,
            ids == requirement_ids(*report),
            known == page_selectors(*snapshot),
            string_views(problems@) == plan_problems(ws.take(k as int), ids, known, base_url@),
            scenario_views(scenarios@) == plan_kept(ws.take(k as int), ids, known, base_url@, lenient),
        decreases plan.scenarios.len() - k,
    {
        assert(ws.take(k + 1).drop_last() == ws.take(k as int));
        assert(ws.take(k + 1).last() == ws[k as int]);
        let ghost before = scenarios@;
        match convert_scenario(&plan.scenarios[k], k, report, snapshot, base_url, lenient, &mut problems) {
            Some(s) => {
                scenarios.push(s);
                assert(scenario_views(scenarios@) =~= scenario_views(before).push(s@));
            },
            None => {},
        }
        k = k + 1;
    }
    assert(ws.take(ws.len() as int) == ws);
    if problems.len() > 0 && !lenient {
        return Err(join_strings(&problems, "; "));
    }
    if scenarios.len() == 0 {
        return Err(owned("no executable scenarios were produced"));
    }
    let notes = copy_strings(&plan.notes);
    Ok(ParsedScenarios { scenarios, notes })
}

// ---------------------------------------------------------------------------
// The assertion-strength guard for repaired scenarios
// ---------------------------------------------------------------------------

/// The labels of the assertion steps, in order.
pub open spec fn assertion_labels(steps: Seq<PlaywrightAction>) -> Seq<Seq<char>>
    decreases steps.len(),
{
    if steps.len() == 0 {
        Seq::empty()
    } else {
        let prev = assertion_labels(steps.drop_last());
        if is_assertion_spec(steps.last()) {
            prev.push(action_label(steps.last()))
        } else {
            prev
        }
    }
}

/// The texts that `expect_text` steps expect, in order.
pub open spec fn expected_texts(steps: Seq<PlaywrightAction>) -> Seq<Seq<char>>
    decreases steps.len(),
{
    if steps.len() == 0 {
        Seq::empty()
    } else {
        let prev = expected_texts(steps.drop_last());
        match steps.last() {
            PlaywrightAction::ExpectText { text, .. } => prev.push(text@),
            _ => prev,
        }
    }
}

/// Two step lists assert equally strongly: the same assertion kinds as often,
/// and the same expected texts as often, in any order and on any selector.
pub open spec fn same_assertions(a: Seq<PlaywrightAction>, b: Seq<PlaywrightAction>) -> bool {
    &&& assertion_labels(a).to_multiset() == assertion_labels(b).to_multiset()
    &&& expected_texts(a).to_multiset() == expected_texts(b).to_multiset()
}

pub open spec fn broken_ids(broken: Seq<BrokenScenario>) -> Seq<Seq<char>> {
    broken.map_values(|b: BrokenScenario| b.scenario.requirement_id@)
}

/// The first position of `x` in `s`.
pub open spec fn first_position(s: Seq<Seq<char>>, x: Seq<char>) -> Option<int>
    decreases s.len(),
{
    if s.len() == 0 {
        None
    } else {
        match first_position(s.drop_last(), x) {
            Some(j) => Some(j),
            None => if s.last() == x { Some(s.len() - 1) } else { None },
        }
    }
}

pub open spec fn not_repairable_message(id: Seq<char>) -> Seq<char> {
    "scenario "@ + id + " was not among the broken scenarios to repair"@
}

pub open spec fn weakened_message(id: Seq<char>) -> Seq<char> {
    "scenario "@ + id
        + ": the repaired steps weaken or change the assertions; keep the same expect_* actions and the same expect_text texts, only fix the failing operational step (and assertion selectors if needed)"@
}

/// The verdict on one repaired scenario, against the first broken scenario
/// with its requirement id.
pub open spec fn repair_verdict(repaired: Scenario, broken: Seq<BrokenScenario>) -> Result<(), Seq<char>> {
    let id = repaired.requirement_id@;
    match first_position(broken_ids(broken), id) {
        None => Err(not_repairable_message(id)),
        Some(j) => if same_assertions(repaired.steps@, broken[j].scenario.steps@) {
            Ok(())
        } else {
            Err(weakened_message(id))
        },
    }
}

/// The first refusal among the repaired scenarios, in order.
pub open spec fn repairs_verdict(repaired: Seq<Scenario>, broken: Seq<BrokenScenario>) -> Result<
    (),
    Seq<char>,
>
    decreases repaired.len(),
{
    if repaired.len() == 0 {
        Ok(())
    } else {
        match repairs_verdict(repaired.drop_last(), broken) {
            Err(e) => Err(e),
            Ok(()) => repair_verdict(repaired.last(), broken),
        }
    }
}

pub open spec fn unit_result_view(r: Result<(), String>) -> Result<(), Seq<char>> {
    match r {
        Ok(()) => Ok(()),
        Err(e) => Err(e@),
    }
}

/// The first position of a string in a list.
fn position_of(v: &Vec<String>, x: &String) -> (r: Option<usize>)
    ensures
        match r {
            Some(j) => j < v@.len() && string_views(v@)[j as int] == x@,
            None => !string_views(v@).contains(x@),
        },
{
    let ghost vv = string_views(v@);
    let mut j: usize = 0;
    while j < v.len()
        invariant
            j <= v@.len(),
            vv == string_views(v@),
            forall|t: int| 0 <= t < j ==> vv[t] != x@,
        decreases v.len() - j,
    {
        if str_eq(v[j].as_str(), x.as_str()) {
            return Some(j);
        }
        j = j + 1;
    }
    None
}

/// Whether two lists hold the same strings equally often.
pub fn same_string_counts(a: &Vec<String>, b: &Vec<String>) -> (r: bool)
    ensures
        r == (string_views(a@).to_multiset() == string_views(b@).to_multiset()),
{
    broadcast use vstd::seq_lib::group_to_multiset_ensures;
    broadcast use vstd::multiset::group_multiset_axioms;
    broadcast use vstd::multiset::group_multiset_properties;

    let ghost av = string_views(a@);
    let ghost bv = string_views(b@);
    let mut rest = copy_strings(b);
    let mut i: usize = 0;
    while i < a.len()
        invariant
            i <= a@.len(),
            av == string_views(a@),
            bv == string_views(b@),
            av.take(i as int).to_multiset().add(string_views(rest@).to_multiset()) == bv.to_multiset(),
        decreases a.len() - i,
    {
        let ghost rv = string_views(rest@);
        let ghost x = av[i as int];
        assert(x == a@[i as int]@);
        assert(av.take(i + 1) == av.take(i as int).push(x));
        proof {
            vstd::seq_lib::to_multiset_build(av.take(i as int), x);
            vstd::seq_lib::to_multiset_contains(rv, x);
        }
        proof {
            vstd::seq_lib::lemma_multiset_commutative(av.take(i + 1), av.skip(i + 1));
        }
        assert(av.take(i + 1) + av.skip(i + 1) == av);
        match position_of(&rest, &a[i]) {
            None => {
                // `a` holds one more copy of `a[i]` than `b` does.
                assert(rv.to_multiset().count(x) == 0);
                assert(av.to_multiset().count(x) >= av.take(i as int).to_multiset().count(x) + 1);
                assert(bv.to_multiset().count(x) == av.take(i as int).to_multiset().count(x));
                return false;
            },
            Some(j) => {
                rest.remove(j);
                assert(string_views(rest@) == rv.remove(j as int));
                proof {
                    vstd::seq_lib::to_multiset_remove(rv, j as int);
                }
                assert(av.take(i + 1).to_multiset().add(string_views(rest@).to_multiset())
                    =~= bv.to_multiset());
            },
        }
        i = i + 1;
    }
    assert(av.take(av.len() as int) == av);
    let ghost rv = string_views(rest@);
    assert(av.to_multiset().len() == av.len());
    assert(rv.to_multiset().len() == rv.len());
    assert(bv.to_multiset().len() == bv.len());
    assert(bv.len() == av.len() + rv.len());
    if rest.len() == 0 {
        assert(rv.to_multiset() =~= Multiset::<Seq<char>>::empty());
        assert(av.to_multiset().add(rv.to_multiset()) =~= av.to_multiset());
        true
    } else {
        false
    }
}

fn assertion_label_strings(steps: &Vec<PlaywrightAction>) -> (r: Vec<String>)
    ensures
        string_views(r@) == assertion_labels(steps@),
{
    let mut out: Vec<String> = Vec::new();
    let mut i: usize = 0;
    while i < steps.len()
        invariant
            i <= steps@.len(),
            string_views(out@) == assertion_labels(steps@.take(i as int)),
        decreases steps.len() - i,
    {
        assert(steps@.take(i + 1).drop_last() == steps@.take(i as int));
        assert(steps@.take(i + 1).last() == steps@[i as int]);
        if steps[i].is_assertion() {
            push_string(&mut out, owned(steps[i].label()));
        }
        i = i + 1;
    }
    assert(steps@.take(steps@.len() as int) == steps@);
    out
}

fn expected_text_strings(steps: &Vec<PlaywrightAction>) -> (r: Vec<String>)
    ensures
        string_views(r@) == expected_texts(steps@),
{
    let mut out: Vec<String> = Vec::new();
    let mut i: usize = 0;
    while i < steps.len()
        invariant
            i <= steps@.len(),
            string_views(out@) == expected_texts(steps@.take(i as int)),
        decreases steps.len() - i,
    {
        assert(steps@.take(i + 1).drop_last() == steps@.take(i as int));
        assert(steps@.take(i + 1).last() == steps@[i as int]);
        match &steps[i] {
            PlaywrightAction::ExpectText { text, .. } => {
                push_string(&mut out, text.clone());
            },
            _ => {},
        }
        i = i + 1;
    }
    assert(steps@.take(steps@.len() as int) == steps@);
    out
}

/// Whether two step lists assert equally strongly.
pub fn assertions_match(a: &Vec<PlaywrightAction>, b: &Vec<PlaywrightAction>) -> (r: bool)
    ensures
        r == same_assertions(a@, b@),
{
    let la = assertion_label_strings(a);
    let lb = assertion_label_strings(b);
    if !same_string_counts(&la, &lb) {
        return false;
    }
    let ta = expected_text_strings(a);
    let tb = expected_text_strings(b);
    same_string_counts(&ta, &tb)
}

proof fn lemma_first_position_prefix(s: Seq<Seq<char>>, x: Seq<char>, n: int)
    requires
        0 <= n <= s.len(),
        first_position(s.take(n), x) is Some,
    ensures
        first_position(s, x) == first_position(s.take(n), x),
    decreases s.len() - n,
{
    if n == s.len() {
        assert(s.take(n) == s);
    } else {
        assert(s.take(n + 1).drop_last() == s.take(n));
        lemma_first_position_prefix(s, x, n + 1);
    }
}

fn first_broken(broken: &Vec<BrokenScenario>, id: &String) -> (r: Option<usize>)
    ensures
        match r {
            Some(j) => j < broken@.len() && first_position(broken_ids(broken@), id@) == Some(j as int),
            None => first_position(broken_ids(broken@), id@) is None,
        },
{
    let ghost ids = broken_ids(broken@);
    let mut i: usize = 0;
    while i < broken.len()
        invariant
            i <= broken@.len(),
            ids == broken_ids(broken@),
            first_position(ids.take(i as int), id@) is None,
        decreases broken.len() - i,
    {
        assert(ids.take(i + 1).drop_last() == ids.take(i as int));
        assert(ids.take(i + 1).last() == ids[i as int]);
        if str_eq(broken[i].scenario.requirement_id.as_str(), id.as_str()) {
            proof {
                lemma_first_position_prefix(ids, id@, i + 1);
            }
            return Some(i);
        }
        i = i + 1;
    }
    assert(ids.take(ids.len() as int) == ids);
    None
}

/// The guard of the repair loop: every repaired scenario must answer a broken
/// one (the first with its requirement id) and keep its assertions: the same
/// assertion kinds as often and the same expected texts as often. Selectors
/// and operational steps may change. The first refusal is returned as
/// feedback for the model.
pub fn enforce_assertion_strength(repaired: &Vec<Scenario>, broken: &Vec<BrokenScenario>) -> (r:
    Result<(), String>)
    ensures
        unit_result_view(r) == repairs_verdict(repaired@, broken@),
{
    let mut i: usize = 0;
    while i < repaired.len()
        invariant
            i <= repaired@.len(),
            repairs_verdict(repaired@.take(i as int), broken@) == Ok::<(), Seq<char>>(()),
        decreases repaired.len() - i,
    {
        assert(repaired@.take(i + 1).drop_last() == repaired@.take(i as int));
        assert(repaired@.take(i + 1).last() == repaired@[i as int]);
        let item = &repaired[i];
        match first_broken(broken, &item.requirement_id) {
            None => {
                let mut m = owned("scenario ");
                m.append(item.requirement_id.as_str());
                m.append(" was not among the broken scenarios to repair");
                proof {
                    lemma_verdict_stops(repaired@, broken@, i as int);
                }
                return Err(m);
            },
            Some(j) => {
                if !assertions_match(&item.steps, &broken[j].scenario.steps) {
                    let mut m = owned("scenario ");
                    m.append(item.requirement_id.as_str());
                    m.append(
                        ": the repaired steps weaken or change the assertions; keep the same expect_* actions and the same expect_text texts, only fix the failing operational step (and assertion selectors if needed)",
                    );
                    proof {
                        lemma_verdict_stops(repaired@, broken@, i as int);
                    }
                    return Err(m);
                }
            },
        }
        i = i + 1;
    }
    assert(repaired@.take(repaired@.len() as int) == repaired@);
    Ok(())
}

/// Once a prefix's verdict is a refusal, the whole list's verdict is that
/// refusal.
proof fn lemma_verdict_stops(repaired: Seq<Scenario>, broken: Seq<BrokenScenario>, i: int)
    requires
        0 <= i < repaired.len(),
        repairs_verdict(repaired.take(i + 1), broken) is Err,
    ensures
        repairs_verdict(repaired, broken) == repairs_verdict(repaired.take(i + 1), broken),
    decreases repaired.len() - i,
{
    if i + 1 == repaired.len() {
        assert(repaired.take(i + 1) == repaired);
    } else {
        assert(repaired.take(i + 2).drop_last() == repaired.take(i + 1));
        lemma_verdict_stops(repaired, broken, i + 1);
    }
}

// ---------------------------------------------------------------------------
// Laws
// ---------------------------------------------------------------------------

/// An operation (click, fill, press) names one of the page's selectors.
pub open spec fn operation_selector_known(a: PlaywrightActionView, known: Seq<Seq<char>>) -> bool {
    match a {
        PlaywrightActionView::Click { selector } => known.contains(selector),
        PlaywrightActionView::Fill { selector, .. } => known.contains(selector),
        PlaywrightActionView::Press { selector, .. } => known.contains(selector),
        _ => true,
    }
}

proof fn lemma_step_action_known(
    step: ScenarioStepWire,
    known: Seq<Seq<char>>,
    base_url: Seq<char>,
    i: nat,
)
    requires
        step_action(step, known, base_url, i) is Ok,
    ensures
        operation_selector_known(step_action(step, known, base_url, i)->Ok_0, known),
{
    let a = step.action@;
    reveal_strlit("goto");
    reveal_strlit("screenshot");
    reveal_strlit("click");
    reveal_strlit("fill");
    reveal_strlit("press");
    if a == "click"@ || a == "fill"@ || a == "press"@ {
        assert(a[0] != 'g' && a[0] != 's');
        assert(a != "goto"@);
        assert(a != "screenshot"@);
        if a == "fill"@ {
            assert(a != "click"@);
        }
        if a == "press"@ {
            assert(a != "click"@);
            assert(a[1] != 'i');
            assert(a != "fill"@);
        }
        assert(page_selector(step, known, i) is Ok);
        assert(known.contains(page_selector(step, known, i)->Ok_0));
    }
}

proof fn lemma_kept_steps_known(steps: Seq<ScenarioStepWire>, known: Seq<Seq<char>>, base_url: Seq<char>)
    ensures
        forall|i: int|
            0 <= i < kept_steps(steps, known, base_url).len() ==> operation_selector_known(
                #[trigger] kept_steps(steps, known, base_url)[i],
                known,
            ),
    decreases steps.len(),
{
    if steps.len() > 0 {
        let prev = kept_steps(steps.drop_last(), known, base_url);
        lemma_kept_steps_known(steps.drop_last(), known, base_url);
        let r = step_action(steps.last(), known, base_url, (steps.len() - 1) as nat);
        if r is Ok {
            lemma_step_action_known(steps.last(), known, base_url, (steps.len() - 1) as nat);
        }
        let cur = kept_steps(steps, known, base_url);
        assert forall|i: int| 0 <= i < cur.len() implies operation_selector_known(
            #[trigger] cur[i],
            known,
        ) by {
            if i < prev.len() {
                assert(cur[i] == prev[i]);
            }
        }
    }
}

proof fn lemma_plan_kept_known(
    ws: Seq<ScenarioWire>,
    ids: Seq<Seq<char>>,
    known: Seq<Seq<char>>,
    base_url: Seq<char>,
    lenient: bool,
)
    ensures
        forall|i: int|
            0 <= i < plan_kept(ws, ids, known, base_url, lenient).len() ==> {
                let sc = #[trigger] plan_kept(ws, ids, known, base_url, lenient)[i];
                &&& ids.contains(sc.requirement_id)
                &&& sc.steps.len() > 0
                &&& forall|k: int|
                    0 <= k < sc.steps.len() ==> operation_selector_known(#[trigger] sc.steps[k], known)
            },
    decreases ws.len(),
{
    if ws.len() > 0 {
        let prev = plan_kept(ws.drop_last(), ids, known, base_url, lenient);
        lemma_plan_kept_known(ws.drop_last(), ids, known, base_url, lenient);
        lemma_kept_steps_known(ws.last().steps@, known, base_url);
        let cur = plan_kept(ws, ids, known, base_url, lenient);
        assert forall|i: int| 0 <= i < cur.len() implies {
            let sc = #[trigger] cur[i];
            &&& ids.contains(sc.requirement_id)
            &&& sc.steps.len() > 0
            &&& forall|k: int|
                0 <= k < sc.steps.len() ==> operation_selector_known(#[trigger] sc.steps[k], known)
        } by {
            if i < prev.len() {
                assert(cur[i] == prev[i]);
            }
        }
    }
}

/// Every scenario that validation accepts, strict or lenient, belongs to a
/// requirement of the report, has at least one step, and its operations
/// (click, fill, press) only name selectors of the page.
pub proof fn lemma_accepted_scenarios_are_grounded(
    plan: ScenarioPlanWire,
    report: RequirementReport,
    snapshot: PageSnapshot,
    base_url: Seq<char>,
    lenient: bool,
)
    requires
        validation(plan, requirement_ids(report), page_selectors(snapshot), base_url, lenient) is Ok,
    ensures
        ({
            let accepted = validation(
                plan,
                requirement_ids(report),
                page_selectors(snapshot),
                base_url,
                lenient,
            )->Ok_0.scenarios;
            forall|i: int|
                0 <= i < accepted.len() ==> {
                    &&& requirement_ids(report).contains(#[trigger] accepted[i].requirement_id)
                    &&& accepted[i].steps.len() > 0
                    &&& forall|k: int|
                        0 <= k < accepted[i].steps.len() ==> operation_selector_known(
                            #[trigger] accepted[i].steps[k],
                            page_selectors(snapshot),
                        )
                }
        }),
{
    lemma_plan_kept_known(
        plan.scenarios@,
        requirement_ids(report),
        page_selectors(snapshot),
        base_url,
        lenient,
    );
}

proof fn lemma_no_step_problems_keeps_all(
    steps: Seq<ScenarioStepWire>,
    known: Seq<Seq<char>>,
    base_url: Seq<char>,
    k: nat,
)
    requires
        step_problems(steps, known, base_url, k).len() == 0,
    ensures
        kept_steps(steps, known, base_url).len() == steps.len(),
    decreases steps.len(),
{
    if steps.len() > 0 {
        let prev = step_problems(steps.drop_last(), known, base_url, k);
        match step_action(steps.last(), known, base_url, (steps.len() - 1) as nat) {
            Ok(_) => {},
            Err(e) => {
                assert(step_problems(steps, known, base_url, k).len() == prev.len() + 1);
            },
        }
        lemma_no_step_problems_keeps_all(steps.drop_last(), known, base_url, k);
    }
}

proof fn lemma_no_problems_keeps_all(
    ws: Seq<ScenarioWire>,
    ids: Seq<Seq<char>>,
    known: Seq<Seq<char>>,
    base_url: Seq<char>,
)
    requires
        plan_problems(ws, ids, known, base_url).len() == 0,
    ensures
        plan_kept(ws, ids, known, base_url, false).len() == ws.len(),
    decreases ws.len(),
{
    if ws.len() > 0 {
        let w = ws.last();
        let k = (ws.len() - 1) as nat;
        let sp = scenario_problems(w, k, ids, known, base_url);
        assert(plan_problems(ws, ids, known, base_url) == plan_problems(ws.drop_last(), ids, known, base_url)
            + sp);
        assert(sp.len() == 0);
        if !ids.contains(w.requirement_id@) {
            assert(sp.len() > 0);
        }
        if step_problems(w.steps@, known, base_url, k).len() > 0 {
            assert(sp.len() > 0);
        }
        if kept_steps(w.steps@, known, base_url).len() == 0 {
            assert(sp.len() > 0);
        }
        lemma_no_problems_keeps_all(ws.drop_last(), ids, known, base_url);
    }
}

/// In strict mode validation keeps all or nothing: an accepted answer keeps
/// every scenario the model wrote.
pub proof fn lemma_strict_validation_keeps_every_scenario(
    plan: ScenarioPlanWire,
    report: RequirementReport,
    snapshot: PageSnapshot,
    base_url: Seq<char>,
)
    requires
        validation(plan, requirement_ids(report), page_selectors(snapshot), base_url, false) is Ok,
    ensures
        validation(
            plan,
            requirement_ids(report),
            page_selectors(snapshot),
            base_url,
            false,
        )->Ok_0.scenarios.len() == plan.scenarios@.len(),
{
    lemma_no_problems_keeps_all(
        plan.scenarios@,
        requirement_ids(report),
        page_selectors(snapshot),
        base_url,
    );
}

proof fn lemma_first_position_found(s: Seq<Seq<char>>, x: Seq<char>)
    requires
        first_position(s, x) is Some,
    ensures
        0 <= first_position(s, x)->0 < s.len(),
        s[first_position(s, x)->0] == x,
    decreases s.len(),
{
    if s.len() > 0 {
        match first_position(s.drop_last(), x) {
            Some(j) => {
                lemma_first_position_found(s.drop_last(), x);
            },
            None => {},
        }
    }
}

/// A repair that the guard accepts keeps, for every repaired scenario, the
/// assertions of a broken scenario with the same requirement id.
pub proof fn lemma_accepted_repairs_keep_assertions(repaired: Seq<Scenario>, broken: Seq<BrokenScenario>)
    requires
        repairs_verdict(repaired, broken) is Ok,
    ensures
        forall|i: int|
            0 <= i < repaired.len() ==> exists|j: int|
                0 <= j < broken.len() && broken[j].scenario.requirement_id@
                    == (#[trigger] repaired[i]).requirement_id@ && same_assertions(
                    repaired[i].steps@,
                    broken[j].scenario.steps@,
                ),
    decreases repaired.len(),
{
    if repaired.len() > 0 {
        let prefix = repaired.drop_last();
        lemma_accepted_repairs_keep_assertions(prefix, broken);
        let last = repaired.last();
        let ids = broken_ids(broken);
        lemma_first_position_found(ids, last.requirement_id@);
        let j = first_position(ids, last.requirement_id@)->0;
        assert(ids[j] == broken[j].scenario.requirement_id@);
        assert forall|i: int| 0 <= i < repaired.len() implies exists|j: int|
            0 <= j < broken.len() && broken[j].scenario.requirement_id@
                == (#[trigger] repaired[i]).requirement_id@ && same_assertions(
                repaired[i].steps@,
                broken[j].scenario.steps@,
            ) by {
            if i < repaired.len() - 1 {
                assert(repaired[i] == prefix[i]);
            }
        }
    }
}

// ---------------------------------------------------------------------------
// The selectors a repair may use
// ---------------------------------------------------------------------------

pub open spec fn element_selectors(es: Seq<InteractiveElement>) -> Seq<Seq<char>> {
    es.map_values(|e: InteractiveElement| e.selector@)
}

/// `acc` followed by the elements of `es` whose selector is not yet present,
/// first occurrence first.
pub open spec fn add_new_elements(acc: Seq<InteractiveElement>, es: Seq<InteractiveElement>) -> Seq<
    InteractiveElement,
>
    decreases es.len(),
{
    if es.len() == 0 {
        acc
    } else {
        let prev = add_new_elements(acc, es.drop_last());
        if element_selectors(prev).contains(es.last().selector@) {
            prev
        } else {
            prev.push(es.last())
        }
    }
}

/// The page's elements followed by the new elements of each failure page.
pub open spec fn merged_elements(base: Seq<InteractiveElement>, broken: Seq<BrokenScenario>) -> Seq<
    InteractiveElement,
>
    decreases broken.len(),
{
    if broken.len() == 0 {
        base
    } else {
        let prev = merged_elements(base, broken.drop_last());
        match broken.last().page_at_failure {
            Some(p) => add_new_elements(prev, p.interactive@),
            None => prev,
        }
    }
}

fn copy_element(e: &InteractiveElement) -> (r: InteractiveElement)
    ensures
        r == *e,
{
    InteractiveElement {
        tag: e.tag.clone(),
        role: e.role.clone(),
        text: e.text.clone(),
        selector: e.selector.clone(),
    }
}

fn has_element_selector(es: &Vec<InteractiveElement>, selector: &String) -> (r: bool)
    ensures
        r == element_selectors(es@).contains(selector@),
{
    let ghost known = element_selectors(es@);
    let mut i: usize = 0;
    while i < es.len()
        invariant
            i <= es@.len(),
            known == element_selectors(es@),
            forall|j: int| 0 <= j < i ==> known[j] != selector@,
        decreases es.len() - i,
    {
        if str_eq(es[i].selector.as_str(), selector.as_str()) {
            assert(known[i as int] == selector@);
            return true;
        }
        i = i + 1;
    }
    false
}

fn add_new_elements_to(acc: &mut Vec<InteractiveElement>, es: &Vec<InteractiveElement>)
    ensures
        final(acc)@ == add_new_elements(old(acc)@, es@),
{
    let ghost start = acc@;
    let mut i: usize = 0;
    while i < es.len()
        invariant
            i <= es@.len(),
            acc@ == add_new_elements(start, es@.take(i as int)),
        decreases es.len() - i,
    {
        assert(es@.take(i + 1).drop_last() == es@.take(i as int));
        assert(es@.take(i + 1).last() == es@[i as int]);
        if !has_element_selector(acc, &es[i].selector) {
            acc.push(copy_element(&es[i]));
        }
        i = i + 1;
    }
    assert(es@.take(es@.len() as int) == es@);
}

/// The page a repair may draw selectors from: the first page's elements and
/// the elements that appeared only on the pages where scenarios failed.
pub fn merge_failure_pages(snapshot: &PageSnapshot, broken: &Vec<BrokenScenario>) -> (r: PageSnapshot)
    ensures
        r.title == snapshot.title,
        r.interactive@ == merged_elements(snapshot.interactive@, broken@),
{
    let mut elements: Vec<InteractiveElement> = Vec::new();
    let mut k: usize = 0;
    while k < snapshot.interactive.len()
        invariant
            k <= snapshot.interactive@.len(),
            elements@ == snapshot.interactive@.take(k as int),
        decreases snapshot.interactive.len() - k,
    {
        elements.push(copy_element(&snapshot.interactive[k]));
        assert(snapshot.interactive@.take(k + 1) == snapshot.interactive@.take(k as int).push(
            snapshot.interactive@[k as int],
        ));
        k = k + 1;
    }
    assert(snapshot.interactive@.take(snapshot.interactive@.len() as int) == snapshot.interactive@);
    let mut i: usize = 0;
    while i < broken.len()
        invariant
            i <= broken@.len(),
            elements@ == merged_elements(snapshot.interactive@, broken@.take(i as int)),
        decreases broken.len() - i,
    {
        assert(broken@.take(i + 1).drop_last() == broken@.take(i as int));
        assert(broken@.take(i + 1).last() == broken@[i as int]);
        match &broken[i].page_at_failure {
            Some(page) => add_new_elements_to(&mut elements, &page.interactive),
            None => {},
        }
        i = i + 1;
    }
    assert(broken@.take(broken@.len() as int) == broken@);
    let title = match &snapshot.title {
        Some(t) => Some(t.clone()),
        None => None,
    };
    PageSnapshot { title, interactive: elements }
}

// ---------------------------------------------------------------------------
// Prompts
// ---------------------------------------------------------------------------

/// The system prompt for generating scenarios.
pub const SCENARIO_SYSTEM_PROMPT: &'static str = "You generate concrete browser test steps for an evidence-driven testing tool.\nGiven requirements and the interactive elements found on the page, produce one scenario per\nrequirement that can be executed with Playwright.\n\nRespond with a single JSON object and nothing else, matching this schema exactly:\n{\n  \"scenarios\": [\n    {\n      \"requirement_id\": string,        // must be an id from the input list\n      \"title\": string,\n      \"expected_observation\": string,  // what a correct implementation should show\n      \"steps\": [\n        { \"action\": \"fill\", \"selector\": string, \"value\": string },\n        { \"action\": \"click\", \"selector\": string },\n        { \"action\": \"expect_text\", \"selector\": string, \"text\": string }\n      ]\n    }\n  ],\n  \"notes\": [string]\n}\n\nAllowed actions: goto, wait_for_selector, click, fill, press, expect_visible, expect_hidden, expect_text, screenshot.\nRules:\n- For click, fill and press you MUST use a selector taken verbatim from the provided interactive elements.\n- For assertions (expect_text / expect_visible / expect_hidden / wait_for_selector) you may target any CSS selector, but PREFER text-based checks: use expect_text with a container selector, or a `text=` selector, rather than guessing a class or id that is not in the provided elements. Guessed selectors like `.error-banner` cause false results — assert the visible TEXT the requirement promises instead.\n- Each scenario must perform the requirement's action and then assert the requirement's concrete observable OUTCOME — the changed value, count, or list content — NOT merely that a label or button exists.\n- When the requirement involves a count or statistic, assert the exact expected value with expect_text (e.g. the completed counter should read \"1\" after one item is completed). A bug that leaves the counter at 0 must make this assertion fail.\n- When the requirement involves filtering or hiding, use expect_hidden to assert that items which should be filtered OUT are no longer visible (e.g. after clicking the \"completed\" filter, an active/unfinished task must become hidden). A bug that still shows everything must make this assertion fail.\n- Prefer negative/edge cases when the requirement implies validation (e.g. submit an empty title and assert the specific validation message text appears).\n- Do not use the eval action. Do not invent requirement ids. Do not wrap the JSON in markdown fences.\n- Write title, expected_observation and notes in the requirements' language.";

/// The system prompt for repairing broken scenarios.
pub const REPAIR_SYSTEM_PROMPT: &'static str = "You repair broken browser test scenarios for an evidence-driven testing tool.\nEach scenario below failed at an OPERATIONAL step (navigation / clicking / filling) before its\nassertions could run — the test itself is broken, not the application.\n\nFix each scenario using the execution evidence (failing step, error, page state at failure):\ncorrect wrong selectors, add missing interaction steps, or reorder steps.\n\nHard rules:\n- Do NOT weaken assertions. Keep exactly the same expect_visible / expect_hidden / expect_text\n  actions and the same expect_text texts as the original scenario. You may fix an assertion's\n  selector, never its intent.\n- For click, fill and press use a selector taken verbatim from the provided interactive elements.\n- Respond with the same JSON schema as scenario generation:\n  {\"scenarios\": [{\"requirement_id\": ..., \"title\": ..., \"expected_observation\": ..., \"steps\": [...]}], \"notes\": [...]}\n  Return one repaired scenario per broken scenario, same requirement_id. No markdown fences.";

pub open spec fn element_line(e: InteractiveElement) -> Seq<char> {
    "- "@ + e.selector@ + " — "@ + e.role@ + " — "@ + e.text@ + "\n"@
}

pub open spec fn element_lines(es: Seq<InteractiveElement>) -> Seq<char>
    decreases es.len(),
{
    if es.len() == 0 {
        Seq::empty()
    } else {
        element_lines(es.drop_last()) + element_line(es.last())
    }
}

pub open spec fn requirement_line(r: Requirement) -> Seq<char> {
    r.id@ + " ["@ + category_name(r.category) + "]: "@ + r.description@ + "\n"@
}

pub open spec fn requirement_lines(rs: Seq<Requirement>) -> Seq<char>
    decreases rs.len(),
{
    if rs.len() == 0 {
        Seq::empty()
    } else {
        requirement_lines(rs.drop_last()) + requirement_line(rs.last())
    }
}

/// The user prompt for generating scenarios: the page title, the page's
/// interactive elements and the requirements to cover.
pub open spec fn scenario_prompt(report: RequirementReport, snapshot: PageSnapshot) -> Seq<char> {
    (match snapshot.title {
        Some(t) => "Page title: "@ + t@ + "\n"@,
        None => Seq::<char>::empty(),
    }) + "\nInteractive elements (selector — role — text):\n"@ + (if snapshot.interactive@.len() == 0 {
        "(none detected)\n"@
    } else {
        Seq::<char>::empty()
    }) + element_lines(snapshot.interactive@) + "\nRequirements to cover:\n"@ + requirement_lines(
        report.requirements@,
    )
}

fn push_element_lines(out: &mut String, es: &Vec<InteractiveElement>)
    ensures
        final(out)@ == old(out)@ + element_lines(es@),
{
    let ghost head = out@;
    let mut i: usize = 0;
    while i < es.len()
        invariant
            i <= es@.len(),
            out@ == head + element_lines(es@.take(i as int)),
        decreases es.len() - i,
    {
        assert(es@.take(i + 1).drop_last() == es@.take(i as int));
        assert(es@.take(i + 1).last() == es@[i as int]);
        let e = &es[i];
        out.append("- ");
        out.append(e.selector.as_str());
        out.append(" — ");
        out.append(e.role.as_str());
        out.append(" — ");
        out.append(e.text.as_str());
        out.append("\n");
        i = i + 1;
    }
    assert(es@.take(es@.len() as int) == es@);
}

/// The user prompt for generating scenarios.
pub fn user_prompt(report: &RequirementReport, snapshot: &PageSnapshot) -> (r: String)
    ensures
        r@ == scenario_prompt(*report, *snapshot),
{
    let mut prompt = String::new();
    match &snapshot.title {
        Some(t) => {
            prompt.append("Page title: ");
            prompt.append(t.as_str());
            prompt.append("\n");
        },
        None => {},
    }
    prompt.append("\nInteractive elements (selector — role — text):\n");
    if snapshot.interactive.len() == 0 {
        prompt.append("(none detected)\n");
    }
    push_element_lines(&mut prompt, &snapshot.interactive);
    prompt.append("\nRequirements to cover:\n");
    let ghost head = prompt@;
    let rs = &report.requirements;
    let mut i: usize = 0;
    while i < rs.len()
        invariant
            i <= rs@.len(),
            rs@ == report.requirements@,
            prompt@ == head + requirement_lines(rs@.take(i as int)),
        decreases rs.len() - i,
    {
        assert(rs@.take(i + 1).drop_last() == rs@.take(i as int));
        assert(rs@.take(i + 1).last() == rs@[i as int]);
        let r = &rs[i];
        prompt.append(r.id.as_str());
        prompt.append(" [");
        prompt.append(r.category.name());
        prompt.append("]: ");
        prompt.append(r.description.as_str());
        prompt.append("\n");
        i = i + 1;
    }
    assert(rs@.take(rs@.len() as int) == rs@);
    prompt
}

pub open spec fn step_line(index: nat, step: PlaywrightAction, failed: nat) -> Seq<char> {
    decimal(index) + ". "@ + action_label(step) + " "@ + crate::playwright::action_target(step) + (if index
        == failed {
        "  <-- FAILED HERE"@
    } else {
        Seq::<char>::empty()
    }) + "\n"@
}

pub open spec fn step_lines(steps: Seq<PlaywrightAction>, failed: nat) -> Seq<char>
    decreases steps.len(),
{
    if steps.len() == 0 {
        Seq::empty()
    } else {
        step_lines(steps.drop_last(), failed) + step_line((steps.len() - 1) as nat, steps.last(), failed)
    }
}

/// What the repair prompt says of one broken scenario.
pub open spec fn broken_block(item: BrokenScenario) -> Seq<char> {
    let sc = item.scenario;
    "\nBroken scenario for "@ + sc.requirement_id@ + " — "@ + sc.title@ + "\nExpected observation: "@
        + sc.expected_observation@ + "\nSteps:\n"@ + step_lines(sc.steps@, item.failed_step as nat)
        + "Failure detail: "@ + item.failed_detail@ + "\n"@ + match item.page_at_failure {
        Some(p) => "Page state at failure (interactive elements):\n"@ + element_lines(p.interactive@),
        None => Seq::<char>::empty(),
    }
}

pub open spec fn broken_blocks(items: Seq<BrokenScenario>) -> Seq<char>
    decreases items.len(),
{
    if items.len() == 0 {
        Seq::empty()
    } else {
        broken_blocks(items.drop_last()) + broken_block(items.last())
    }
}

/// The user prompt for repairing broken scenarios.
pub open spec fn repair_prompt(broken: Seq<BrokenScenario>, snapshot: PageSnapshot) -> Seq<char> {
    "Interactive elements (selector — role — text):\n"@ + element_lines(snapshot.interactive@)
        + broken_blocks(broken)
}

fn push_step_lines(out: &mut String, steps: &Vec<PlaywrightAction>, failed: usize)
    ensures
        final(out)@ == old(out)@ + step_lines(steps@, failed as nat),
{
    let ghost head = out@;
    let mut i: usize = 0;
    while i < steps.len()
        invariant
            i <= steps@.len(),
            out@ == head + step_lines(steps@.take(i as int), failed as nat),
        decreases steps.len() - i,
    {
        assert(steps@.take(i + 1).drop_last() == steps@.take(i as int));
        assert(steps@.take(i + 1).last() == steps@[i as int]);
        let step = &steps[i];
        let d = decimal_string(i as u128);
        out.append(d.as_str());
        out.append(". ");
        out.append(step.label());
        out.append(" ");
        let t = step.target();
        out.append(t.as_str());
        if i == failed {
            out.append("  <-- FAILED HERE");
        }
        out.append("\n");
        i = i + 1;
    }
    assert(steps@.take(steps@.len() as int) == steps@);
}

fn push_broken_block(out: &mut String, item: &BrokenScenario)
    ensures
        final(out)@ == old(out)@ + broken_block(*item),
{
    let sc = &item.scenario;
    out.append("\nBroken scenario for ");
    out.append(sc.requirement_id.as_str());
    out.append(" — ");
    out.append(sc.title.as_str());
    out.append("\nExpected observation: ");
    out.append(sc.expected_observation.as_str());
    out.append("\nSteps:\n");
    push_step_lines(out, &sc.steps, item.failed_step);
    out.append("Failure detail: ");
    out.append(item.failed_detail.as_str());
    out.append("\n");
    match &item.page_at_failure {
        Some(p) => {
            out.append("Page state at failure (interactive elements):\n");
            push_element_lines(out, &p.interactive);
        },
        None => {},
    }
}

/// The user prompt for repairing broken scenarios: the elements that may be
/// used, then each broken scenario with its steps, the failing step marked,
/// the failure and the page at the failure.
pub fn repair_user_prompt(broken: &Vec<BrokenScenario>, snapshot: &PageSnapshot) -> (r: String)
    ensures
        r@ == repair_prompt(broken@, *snapshot),
{
    let mut prompt = owned("Interactive elements (selector — role — text):\n");
    push_element_lines(&mut prompt, &snapshot.interactive);
    let ghost head = prompt@;
    let mut i: usize = 0;
    while i < broken.len()
        invariant
            i <= broken@.len(),
            prompt@ == head + broken_blocks(broken@.take(i as int)),
        decreases broken.len() - i,
    {
        assert(broken@.take(i + 1).drop_last() == broken@.take(i as int));
        assert(broken@.take(i + 1).last() == broken@[i as int]);
        push_broken_block(&mut prompt, &broken[i]);
        i = i + 1;
    }
    assert(broken@.take(broken@.len() as int) == broken@);
    prompt
}

} // verus!
