use specprobe::ai::{
    strip_code_fence, validate_model_output, AiModelOutput, AiSuggestion, Confidence,
    SuggestionSeverity, SuggestionType,
};
use specprobe::diagnosis::{validate_diagnoses, DiagnosisWire, LocationWire};
use specprobe::playwright::{
    build_outcome, InteractiveElement, PageSnapshot, PlaywrightAction, RunnerEvent,
};
use specprobe::refine::{
    validate_refined_document, RefinedCriterionWire, RefinedDocumentWire, RefinedFlagWire,
    RefinedRequirementWire,
};
use specprobe::requirements::{
    analyze_requirements, DocumentText, EvidenceKind, QualityFlagKind, RequirementCategory,
    RequirementPriority, RequirementReport,
};
use specprobe::scenario::{
    enforce_assertion_strength, validate_scenarios, BrokenScenario, ScenarioPlanWire,
    ScenarioStepWire, ScenarioWire,
};

fn report_of(text: &str) -> RequirementReport {
    analyze_requirements(
        "PRD.md",
        vec![DocumentText { path: "PRD.md".to_owned(), contents: text.to_owned() }],
    )
}

// ---------------------------------------------------------------------------
// Suggestions
// ---------------------------------------------------------------------------

const VALID_OUTPUT: &str = r#"{"summary":"分析完成","suggestions":[{"requirement_id":"REQ-001","suggestion_type":"clarify_requirement","severity":"high","message":"补充可观察的登录成功提示","rationale":"便于自动断言"}],"follow_up_questions":["登录成功后跳转到哪个页面?"],"confidence":"medium"}"#;

fn valid_output(requirement_id: &str) -> AiModelOutput {
    AiModelOutput {
        summary: "分析完成".to_owned(),
        suggestions: vec![AiSuggestion {
            requirement_id: requirement_id.to_owned(),
            suggestion_type: SuggestionType::ClarifyRequirement,
            severity: SuggestionSeverity::High,
            message: "补充可观察的登录成功提示".to_owned(),
            rationale: "便于自动断言".to_owned(),
        }],
        follow_up_questions: vec!["登录成功后跳转到哪个页面?".to_owned()],
        confidence: Confidence::Medium,
    }
}

#[test]
fn parse_output_strips_markdown_fences() {
    let report = report_of("- 用户登录成功后页面必须显示登录成功提示。");
    let fenced = format!("```json\n{VALID_OUTPUT}\n```");
    assert_eq!(strip_code_fence(&fenced), VALID_OUTPUT);

    let output = validate_model_output(valid_output("REQ-001"), &report, false)
        .expect("fenced json parses");
    assert_eq!(output.suggestions.len(), 1);
}

#[test]
fn parse_output_validates_requirement_ids() {
    let report = report_of("- 用户登录成功后页面必须显示登录成功提示。");

    let feedback = validate_model_output(valid_output("REQ-999"), &report, false)
        .expect_err("strict mode rejects");
    assert!(feedback.contains("REQ-999"));

    let output = validate_model_output(valid_output("REQ-999"), &report, true)
        .expect("lenient mode filters");
    assert!(output.suggestions.is_empty());
}

// ---------------------------------------------------------------------------
// Diagnoses
// ---------------------------------------------------------------------------

fn ghost_diagnosis() -> Vec<DiagnosisWire> {
    vec![DiagnosisWire {
        title: "空任务未校验".to_owned(),
        related_issue_ids: vec!["ISSUE-001".to_owned(), "ISSUE-999".to_owned()],
        root_cause: "addTask 未过滤空白输入".to_owned(),
        source_locations: vec![LocationWire {
            file: "ghost.js".to_owned(),
            line: Some(3),
            snippet: "...".to_owned(),
        }],
        confidence: Confidence::High,
        suggested_fix: "添加 trim 校验".to_owned(),
    }]
}

#[test]
fn parse_rejects_unknown_file_then_filters_leniently() {
    let known_issue_ids = vec!["ISSUE-001".to_owned()];
    let known_files = vec!["public/app.js".to_owned()];

    let feedback = validate_diagnoses(ghost_diagnosis(), &known_issue_ids, &known_files, false)
        .expect_err("strict rejects unknown file");
    assert!(feedback.contains("ghost.js"));

    let diagnoses = validate_diagnoses(ghost_diagnosis(), &known_issue_ids, &known_files, true)
        .expect("lenient filters");
    assert_eq!(diagnoses.len(), 1);
    assert!(diagnoses[0].source_locations.is_empty());
    assert_eq!(diagnoses[0].related_issue_ids, vec!["ISSUE-001".to_owned()]);
}

// ---------------------------------------------------------------------------
// Refined requirements
// ---------------------------------------------------------------------------

fn refined_document(source_line: usize) -> RefinedDocumentWire {
    RefinedDocumentWire {
        requirements: vec![
            RefinedRequirementWire {
                title: "登录成功提示".to_owned(),
                description: "用户使用有效凭据登录后,页面顶部必须显示“登录成功”提示条。".to_owned(),
                category: RequirementCategory::Ui,
                priority: RequirementPriority::Must,
                source_line,
                acceptance_criteria: vec![RefinedCriterionWire {
                    statement: "输入有效账号密码并点击登录后,页面顶部出现文字为“登录成功”的提示条。".to_owned(),
                    evidence: vec![EvidenceKind::RuntimeResult, EvidenceKind::Screenshot],
                }],
                quality_flags: vec![],
            },
            RefinedRequirementWire {
                title: "登录失败反馈".to_owned(),
                description: "使用错误密码登录时,系统必须在表单下方显示明确的错误信息。".to_owned(),
                category: RequirementCategory::Security,
                priority: RequirementPriority::Must,
                source_line,
                acceptance_criteria: vec![RefinedCriterionWire {
                    statement: "输入错误密码提交后,表单下方显示“账号或密码错误”。".to_owned(),
                    evidence: vec![],
                }],
                quality_flags: vec![RefinedFlagWire {
                    kind: QualityFlagKind::MissingObservableResult,
                    message: "原文未指明错误文案。".to_owned(),
                }],
            },
        ],
        notes: vec!["跳过了文档中的安装说明段落。".to_owned()],
    }
}

#[test]
fn parse_rejects_out_of_range_lines_then_filters_leniently() {
    let feedback = validate_refined_document(refined_document(99), 3, false)
        .expect_err("strict rejects");
    assert!(feedback.contains("source_line"));

    let wire = validate_refined_document(refined_document(99), 3, true).expect("lenient filters");
    assert!(wire.requirements.is_empty());
}

#[test]
fn parse_requires_acceptance_criteria() {
    let content = RefinedDocumentWire {
        requirements: vec![RefinedRequirementWire {
            title: "无验收标准".to_owned(),
            description: "系统必须显示结果。".to_owned(),
            category: RequirementCategory::Functional,
            priority: RequirementPriority::Must,
            source_line: 1,
            acceptance_criteria: vec![],
            quality_flags: vec![],
        }],
        notes: vec![],
    };

    let feedback = validate_refined_document(content, 5, false).expect_err("strict rejects");
    assert!(feedback.contains("no acceptance criteria"));
}

// ---------------------------------------------------------------------------
// Scenarios
// ---------------------------------------------------------------------------

fn snapshot() -> PageSnapshot {
    PageSnapshot {
        title: Some("FocusBoard".to_owned()),
        interactive: vec![
            InteractiveElement {
                tag: "input".to_owned(),
                role: "input".to_owned(),
                text: "新任务".to_owned(),
                selector: "#task-input".to_owned(),
            },
            InteractiveElement {
                tag: "button".to_owned(),
                role: "button".to_owned(),
                text: "添加任务".to_owned(),
                selector: "#add-task-btn".to_owned(),
            },
        ],
    }
}

fn scenario_report() -> RequirementReport {
    report_of("- 用户必须能够添加任务并在列表中看到它。")
}

fn step(action: &str, selector: Option<&str>) -> ScenarioStepWire {
    ScenarioStepWire {
        action: action.to_owned(),
        selector: selector.map(|s| s.to_owned()),
        value: None,
        key: None,
        text: None,
        url: None,
        name: None,
    }
}

fn fill(selector: &str, value: &str) -> ScenarioStepWire {
    ScenarioStepWire { value: Some(value.to_owned()), ..step("fill", Some(selector)) }
}

fn expect_text(selector: &str, text: &str) -> ScenarioStepWire {
    ScenarioStepWire { text: Some(text.to_owned()), ..step("expect_text", Some(selector)) }
}

fn plan_with(requirement_id: &str, steps: Vec<ScenarioStepWire>) -> ScenarioPlanWire {
    ScenarioPlanWire {
        scenarios: vec![ScenarioWire {
            requirement_id: requirement_id.to_owned(),
            title: "添加任务".to_owned(),
            expected_observation: "任务出现在列表中".to_owned(),
            steps,
        }],
        notes: vec!["覆盖了添加任务的主路径。".to_owned()],
    }
}

fn valid_steps(add_button: &str) -> Vec<ScenarioStepWire> {
    vec![
        fill("#task-input", "写周报"),
        step("click", Some(add_button)),
        expect_text("#task-list", "写周报"),
    ]
}

#[test]
fn parses_valid_scenarios_into_actions() {
    let report = scenario_report();
    let parsed = validate_scenarios(
        &plan_with("REQ-001", valid_steps("#add-task-btn")),
        &report,
        &snapshot(),
        "http://127.0.0.1:4173",
        false,
    )
    .expect("valid scenarios parse");

    assert_eq!(parsed.scenarios.len(), 1);
    let scenario = &parsed.scenarios[0];
    assert_eq!(scenario.requirement_id, "REQ-001");
    assert_eq!(scenario.steps.len(), 3);
    assert_eq!(scenario.steps[1].label(), "click");
    assert_eq!(scenario.steps[1].target(), "#add-task-btn");
}

#[test]
fn parses_expect_hidden_for_filtering() {
    let report = scenario_report();
    let plan = plan_with(
        "REQ-001",
        vec![
            step("click", Some("#add-task-btn")),
            step("expect_hidden", Some("ul li:not(.completed)")),
        ],
    );
    let parsed = validate_scenarios(&plan, &report, &snapshot(), "http://x", false)
        .expect("expect_hidden parses");
    let steps = &parsed.scenarios[0].steps;
    assert_eq!(steps.len(), 2);
    assert_eq!(steps[1].label(), "expect_hidden");
    assert_eq!(steps[1].target(), "ul li:not(.completed)");
}

#[test]
fn rejects_operation_selector_outside_page_elements() {
    let report = scenario_report();
    let plan = plan_with("REQ-001", valid_steps("#ghost-button"));

    let feedback = validate_scenarios(&plan, &report, &snapshot(), "http://x", false)
        .expect_err("strict mode rejects unknown selector");
    assert!(feedback.contains("#ghost-button"));

    let parsed = validate_scenarios(&plan, &report, &snapshot(), "http://x", true).expect("lenient");
    assert_eq!(parsed.scenarios[0].steps.len(), 2);
}

#[test]
fn rejects_unknown_requirement_id() {
    let report = scenario_report();
    let plan = plan_with("REQ-404", valid_steps("#add-task-btn"));
    let feedback = validate_scenarios(&plan, &report, &snapshot(), "http://x", false)
        .expect_err("unknown id rejected");
    assert!(feedback.contains("REQ-404"));
}

fn broken_original() -> Vec<BrokenScenario> {
    let report = scenario_report();
    let original = validate_scenarios(
        &plan_with("REQ-001", valid_steps("#add-task-btn")),
        &report,
        &snapshot(),
        "http://x",
        false,
    )
    .expect("original parses")
    .scenarios
    .remove(0);
    vec![BrokenScenario {
        scenario: original,
        failed_step: 1,
        failed_detail: "click timed out".to_owned(),
        page_at_failure: None,
    }]
}

fn repaired_with(assert_step: ScenarioStepWire) -> Vec<specprobe::scenario::Scenario> {
    let report = scenario_report();
    let plan = plan_with(
        "REQ-001",
        vec![fill("#task-input", "写周报"), step("click", Some("#add-task-btn")), assert_step],
    );
    validate_scenarios(&plan, &report, &snapshot(), "http://x", false)
        .expect("parses")
        .scenarios
}

#[test]
fn repair_guard_rejects_weakened_assertions() {
    let broken = broken_original();

    let weakened = repaired_with(step("expect_visible", Some("#task-list")));
    let feedback =
        enforce_assertion_strength(&weakened, &broken).expect_err("weakened assertion rejected");
    assert!(feedback.contains("weaken"));

    let changed_text = repaired_with(expect_text("#task-list", "别的内容"));
    assert!(enforce_assertion_strength(&changed_text, &broken).is_err());
}

#[test]
fn repair_guard_allows_selector_fix_with_same_assertions() {
    let broken = broken_original();
    let fixed = repaired_with(expect_text("#todo-list", "写周报"));
    assert!(enforce_assertion_strength(&fixed, &broken).is_ok());
}

// ---------------------------------------------------------------------------
// Runner events
// ---------------------------------------------------------------------------

#[test]
fn builds_outcome_from_event_stream() {
    let events = vec![
        RunnerEvent::Started { protocol_version: 1 },
        RunnerEvent::ActionResult {
            index: 0,
            action: "goto".to_owned(),
            ok: true,
            detail: Some("navigated".to_owned()),
            path: None,
            attempts: None,
        },
        RunnerEvent::Console { level: "error".to_owned(), text: "Task API returned HTTP 500".to_owned() },
        RunnerEvent::NetworkFailed { url: "http://x/api/tasks".to_owned(), status: Some(500), failure: None },
        RunnerEvent::ActionResult {
            index: 1,
            action: "expect_visible".to_owned(),
            ok: true,
            detail: Some("visible (passed on retry)".to_owned()),
            path: None,
            attempts: Some(2),
        },
        RunnerEvent::ActionResult {
            index: 2,
            action: "screenshot".to_owned(),
            ok: true,
            detail: None,
            path: Some("/tmp/run/home.png".to_owned()),
            attempts: None,
        },
        RunnerEvent::Snapshot {
            title: Some("FocusBoard".to_owned()),
            interactive: vec![InteractiveElement {
                tag: "button".to_owned(),
                role: "button".to_owned(),
                text: "添加任务".to_owned(),
                selector: "#add-task-btn".to_owned(),
            }],
        },
        RunnerEvent::Trace { path: "/tmp/run/trace.zip".to_owned() },
        RunnerEvent::Finished { ok: true },
    ];

    let outcome = build_outcome(events);

    assert!(outcome.started);
    assert_eq!(outcome.protocol_version, Some(1));
    assert_eq!(outcome.actions.len(), 3);
    assert_eq!(outcome.actions[0].attempts, 1);
    assert_eq!(outcome.actions[1].attempts, 2);
    assert_eq!(outcome.actions[2].screenshot_path.as_deref(), Some("/tmp/run/home.png"));
    assert_eq!(outcome.console.len(), 1);
    assert_eq!(outcome.network_failures.len(), 1);
    assert_eq!(outcome.network_failures[0].status, Some(500));
    let snapshot = outcome.snapshot.as_ref().expect("snapshot present");
    assert_eq!(snapshot.title.as_deref(), Some("FocusBoard"));
    assert_eq!(snapshot.interactive[0].selector, "#add-task-btn");
    assert_eq!(outcome.trace_path.as_deref(), Some("/tmp/run/trace.zip"));
    assert_eq!(outcome.finished_ok, Some(true));
    assert!(outcome.success());
}

#[test]
fn flags_missing_finish_as_crash() {
    let events = vec![
        RunnerEvent::Started { protocol_version: 1 },
        RunnerEvent::ActionResult {
            index: 0,
            action: "goto".to_owned(),
            ok: true,
            detail: None,
            path: None,
            attempts: None,
        },
    ];

    let outcome = build_outcome(events);

    assert!(outcome.started);
    assert!(outcome.finished_ok.is_none());
    assert!(outcome.fatal.as_deref().is_some_and(|message| message.contains("crash")));
    assert!(!outcome.success());
}

#[test]
fn ignores_malformed_and_unknown_events() {
    // A line that is not an event never becomes one; an event of unknown
    // type arrives as `Unknown`.
    let events = vec![RunnerEvent::Unknown, RunnerEvent::Fatal { message: "boom".to_owned() }];

    let outcome = build_outcome(events);

    assert!(!outcome.started);
    assert_eq!(outcome.fatal.as_deref(), Some("boom"));
    assert!(!outcome.success());
}

#[test]
fn action_duplicate_keeps_label_and_target() {
    let action = PlaywrightAction::Fill { selector: "#task-input".to_owned(), value: "x".to_owned() };
    let copy = action.duplicate();
    assert_eq!(copy.label(), "fill");
    assert_eq!(copy.target(), "#task-input");
}
