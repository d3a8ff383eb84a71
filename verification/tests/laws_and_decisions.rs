use specprobe::ai::{AiError, AiTransportInfo, ChatProtocol};
use specprobe::chat::{cache_key, chat_start, chat_step, ChatAction, ChatEvent};
use specprobe::check::{
    confirmation_accepted, confirmation_message, execution_decision, CheckOptions,
    ExecutionDecision,
};
use specprobe::output::{render_remediation_report, render_requirement_report, render_review_report};
use specprobe::refine::{
    add_refined_document, assemble_report, build_refined_requirement, candidate_lines,
    fall_back_to_rules, record_transport, refine_user_prompt, technology_hint, RefineRunStats,
    RefineState, RefinedCriterionWire, RefinedDocumentWire, RefinedRequirementWire,
};
use specprobe::remediation::{generate_remediation_report, PatchStrategy};
use specprobe::browser::{browser_run_report, http_outcome, BrowserError};
use specprobe::requirements::{
    analyze_requirements, classify_priority, AnalysisEngine, DiagnosticSeverity, DocumentText,
    EvidenceKind, RequirementCategory, RequirementPriority, RequirementReport,
};
use specprobe::review::{generate_review_report, ApprovalState, IssueCategory, IssueSeverity, ReviewOptions};
use specprobe::runtime::{package_scripts, CommandConfidence, CommandPlan, LaunchCommand, ProjectAdapterKind};
use specprobe::scenario::{merge_failure_pages, repair_user_prompt, to_action, user_prompt, BrokenScenario, ScenarioStepWire};
use specprobe::playwright::{InteractiveElement, PageSnapshot};
use specprobe::patch::{build_patch_input, ArchivedDiagnosis, ArchivedIssue, PatchInputError};
use specprobe::storage::{issue_fingerprint, issue_rows, run_id, summarize_run};

fn report_of(text: &str) -> RequirementReport {
    analyze_requirements(
        "PRD.md",
        vec![DocumentText { path: "PRD.md".to_owned(), contents: text.to_owned() }],
    )
}

fn plan_only_review(text: &str) -> specprobe::review::ReviewReport {
    let options = ReviewOptions {
        project_path: "/tmp/project".to_owned(),
        base_url: "http://127.0.0.1:3000".to_owned(),
        execute: false,
        skip_launch: true,
        skip_browser: true,
        launch_timeout_secs: 1,
        browser_timeout_secs: 1,
    };
    generate_review_report(report_of(text), &options, None, None)
}

// ---------------------------------------------------------------------------
// Trusted calls, seen through the library
// ---------------------------------------------------------------------------

#[test]
fn cache_key_is_hex_sha256_of_the_request() {
    let key = cache_key("openai", "http://x/v1/chat", "m", "[]");
    assert_eq!(key.len(), 64);
    assert!(key.chars().all(|c| c.is_ascii_hexdigit() && !c.is_ascii_uppercase()));
    assert_ne!(key, cache_key("openai", "http://x/v1/chat", "m", "[1]"));
    // SHA-256 of the empty string.
    assert_eq!(
        cache_key("", "", "", ""),
        "e3b0c44298fc1c149afbf4c8996fb92427ae41e4649b934ca495991b7852b855"
    );
}

#[test]
fn package_scripts_reads_script_names_through_json() {
    let scripts = package_scripts("\u{feff}{\"scripts\":{\"dev\":\"vite\",\"build\":\"vite build\"}}")
        .expect("scripts present");
    assert!(scripts.contains(&"dev".to_owned()));
    assert!(scripts.contains(&"build".to_owned()));
    assert_eq!(scripts.len(), 2);
    assert!(package_scripts("not json").is_none());
    assert!(package_scripts("{\"name\":\"x\"}").is_none());
}

#[test]
fn priority_words_match_in_any_case() {
    assert_eq!(classify_priority("The system MUST save data"), RequirementPriority::Must);
}

// ---------------------------------------------------------------------------
// Review and proposals
// ---------------------------------------------------------------------------

#[test]
fn review_summary_counts_every_issue_once() {
    let review = plan_only_review("- 页面应该简单友好。");
    let s = &review.summary;
    assert!(s.issues >= 1);
    assert_eq!(s.critical + s.high + s.medium + s.low + s.info, s.issues);
    assert_eq!(s.issues, review.issues.len());
    assert!(review.issues.iter().all(|i| i.approval.name() == "pending"));
}

#[test]
fn proposals_answer_each_issue_and_plan_two_checks_each_plus_one() {
    let review = plan_only_review("- 页面应该简单友好。");
    let issues = review.issues.len();
    let report = generate_remediation_report(review);
    assert_eq!(report.proposals.len(), issues);
    assert_eq!(report.regression_plan.checks.len(), 2 * issues + 1);
    assert!(!report.summary.auto_apply_supported);
    let text = render_remediation_report(&report);
    assert!(text.starts_with("SpecProbe proposals\n-------------------\n"));
    assert!(text.contains("\nPatch proposals\n"));
    assert!(text.contains("\nRegression checks\n"));
}

#[test]
fn review_text_lists_issues_and_evidence() {
    let review = plan_only_review("- 页面应该简单友好。");
    let text = render_review_report(&review);
    assert!(text.starts_with("SpecProbe review\n----------------\n"));
    assert!(text.contains("Mode: plan-only, launch=no, browser=no\n"));
    assert!(text.contains("\nIssues\n- ISSUE-001 ["));
    assert!(text.contains("\nEvidence\n- EV-001 ["));
}

#[test]
fn requirement_text_shows_each_requirement() {
    let report = report_of("- 系统必须保存用户数据。");
    let text = render_requirement_report(&report);
    assert!(text.starts_with("Requirement analysis: PRD.md\nDocuments: 1, requirements: 1, test cases: 1\n"));
    assert!(text.contains("\nRequirements\n- REQ-001 [must / "));
    assert!(text.contains("  source: PRD.md:1\n"));
    let empty = render_requirement_report(&report_of("just prose"));
    assert!(empty.ends_with("\nNo requirements were extracted.\n"));
}

// ---------------------------------------------------------------------------
// Refinement
// ---------------------------------------------------------------------------

fn item(evidence: Vec<EvidenceKind>, criteria: usize) -> RefinedRequirementWire {
    RefinedRequirementWire {
        title: "t".to_owned(),
        description: "系统必须显示结果。".to_owned(),
        category: RequirementCategory::Security,
        priority: RequirementPriority::Must,
        source_line: 1,
        acceptance_criteria: (0..criteria)
            .map(|_| RefinedCriterionWire { statement: "显示结果".to_owned(), evidence: evidence.clone() })
            .collect(),
        quality_flags: vec![],
    }
}

#[test]
fn refined_requirements_are_numbered_across_documents() {
    let rule = report_of("- 系统必须显示登录成功提示。");
    let mut state = RefineState::new();
    add_refined_document(
        &mut state,
        "PRD.md",
        RefinedDocumentWire { requirements: vec![item(vec![], 2), item(vec![EvidenceKind::Log], 1)], notes: vec!["n1".to_owned()] },
    );
    add_refined_document(
        &mut state,
        "OTHER.md",
        RefinedDocumentWire { requirements: vec![item(vec![], 1)], notes: vec![] },
    );
    let ids: Vec<&str> = state.requirements.iter().map(|r| r.id.as_str()).collect();
    assert_eq!(ids, vec!["REQ-001", "REQ-002", "REQ-003"]);
    assert_eq!(state.requirements[0].acceptance_criteria[1].id, "REQ-001-AC-02");
    assert!(!state.requirements[0].acceptance_criteria[0].evidence.is_empty());
    assert_eq!(state.requirements[1].acceptance_criteria[0].evidence, vec![EvidenceKind::Log]);
    assert_eq!(state.requirements[2].source.path, "OTHER.md");

    let stats = RefineRunStats { model: "m".to_owned(), attempts: 3, cache_hits: 1, total_tokens: 42 };
    let report = assemble_report(&rule, state, &stats);
    assert_eq!(report.engine, AnalysisEngine::LlmRefined);
    assert_eq!(report.requirements.len(), 3);
    assert_eq!(report.test_plan.cases.len(), 3);
    assert_eq!(report.documents[0].requirement_count, 2);
    assert_eq!(
        report.diagnostics[0].message,
        "Requirements refined by LLM (m): requests=3, cache_hits=1, total_tokens=42."
    );
    assert_eq!(report.diagnostics[1].message, "LLM note: n1");
}

#[test]
fn empty_refinement_warns() {
    let rule = report_of("- 系统必须显示登录成功提示。");
    let stats = RefineRunStats { model: "m".to_owned(), attempts: 0, cache_hits: 0, total_tokens: 0 };
    let report = assemble_report(&rule, RefineState::new(), &stats);
    assert!(report.requirements.is_empty());
    let last = report.diagnostics.last().expect("diagnostics");
    assert_eq!(last.severity, DiagnosticSeverity::Warning);
    assert_eq!(last.message, "LLM refinement returned no requirements.");
    assert_eq!(report.documents[0].requirement_count, 0);
}

#[test]
fn failed_refinement_keeps_rule_report_with_warning() {
    let mut report = report_of("- 系统必须显示登录成功提示。");
    let before = report.diagnostics.len();
    fall_back_to_rules(
        &mut report,
        &AiError::Http { provider: "openai".to_owned(), status: 500, detail: "boom".to_owned() },
    );
    assert_eq!(report.engine, AnalysisEngine::RuleBased);
    assert_eq!(report.requirements.len(), 1);
    assert_eq!(report.diagnostics.len(), before + 1);
    assert_eq!(
        report.diagnostics[before].message,
        "LLM refinement failed, falling back to rule-based extraction: openai request failed with HTTP 500: boom"
    );
}

#[test]
fn refine_prompt_numbers_document_lines() {
    let report = report_of("- 系统必须显示登录成功提示。");
    let lines = candidate_lines(&report, &"PRD.md".to_owned());
    assert_eq!(lines, vec![1]);
    let hint = technology_hint(&vec!["Node.js".to_owned(), "Vite".to_owned()]);
    assert_eq!(hint.as_deref(), Some("Node.js, Vite"));
    assert!(technology_hint(&Vec::new()).is_none());
    let prompt = refine_user_prompt("PRD.md", "a\nb", hint.as_deref(), &lines);
    assert_eq!(
        prompt,
        "Document: PRD.md\nProject technologies detected: Node.js, Vite\nRule-engine candidate lines (hints only, may be incomplete or wrong): 1\n\nNumbered document content:\n   1| a\n   2| b\n"
    );
}

#[test]
fn transport_counts_add_up() {
    let mut stats = RefineRunStats { model: "m".to_owned(), attempts: 1, cache_hits: 0, total_tokens: 5 };
    record_transport(&mut stats, &AiTransportInfo { attempts: 2, cache_hit: true, usage: None });
    assert_eq!((stats.attempts, stats.cache_hits, stats.total_tokens), (3, 1, 5));
}

#[test]
fn built_requirement_defaults_evidence_by_category() {
    let r = build_refined_requirement(item(vec![], 1), "PRD.md", 9);
    assert_eq!(r.id, "REQ-010");
    assert_eq!(r.acceptance_criteria[0].id, "REQ-010-AC-01");
    assert!(!r.acceptance_criteria[0].evidence.is_empty());
}

// ---------------------------------------------------------------------------
// Check decisions
// ---------------------------------------------------------------------------

fn npm_plan() -> CommandPlan {
    CommandPlan {
        adapter: ProjectAdapterKind::Node,
        command: LaunchCommand {
            program: "npm".to_owned(),
            args: vec!["run".to_owned(), "dev".to_owned()],
            working_directory: "/tmp/project".to_owned(),
            source: "package.json scripts.dev".to_owned(),
            confidence: CommandConfidence::High,
        },
    }
}

#[test]
fn launch_needs_confirmation_unless_assumed() {
    let plan = npm_plan();
    assert!(matches!(execution_decision(true, Some(&plan)), ExecutionDecision::Execute));
    assert!(matches!(execution_decision(false, None), ExecutionDecision::Execute));
    match execution_decision(false, Some(&plan)) {
        ExecutionDecision::Confirm(message) => {
            assert!(message.contains("npm run dev"));
            assert!(message.contains("package.json"));
            assert_eq!(message, confirmation_message(&plan.command));
        },
        ExecutionDecision::Execute => panic!("a detected command must be confirmed"),
    }
    assert!(confirmation_accepted(" Yes\n"));
    assert!(confirmation_accepted("y"));
    assert!(!confirmation_accepted(""));
    assert!(!confirmation_accepted("no"));
    let _ = CheckOptions {
        path: ".".to_owned(),
        requirements: None,
        base_url: "http://x".to_owned(),
        provider: specprobe::ai::AiProviderKind::Mock,
        cache_dir: None,
        assume_yes: false,
        launch_timeout_secs: 1,
        browser_timeout_secs: 1,
    };
}

// ---------------------------------------------------------------------------
// Archive rows
// ---------------------------------------------------------------------------

#[test]
fn archived_rows_follow_the_review() {
    let review = plan_only_review("- 页面应该简单友好。");
    assert_eq!(run_id(1700000000000), "run-1700000000000");
    let summary = summarize_run(1700000000000, "proj", "http://x", false, &review, "C:\\runs\\r\\report.json");
    assert_eq!(summary.id, "run-1700000000000");
    assert_eq!(summary.engine, "rule_based");
    assert_eq!(summary.report_path, "C:/runs/r/report.json");
    assert_eq!(summary.issues, review.summary.issues);
    let rows = issue_rows(&review);
    assert_eq!(rows.len(), review.issues.len());
    assert!(rows.iter().all(|row| row.approval == "pending"));
}

// ---------------------------------------------------------------------------
// Chat transport decisions
// ---------------------------------------------------------------------------

fn protocol() -> ChatProtocol {
    ChatProtocol {
        provider: "openai".to_owned(),
        endpoint: "http://x/v1/chat/completions".to_owned(),
        api_key: Some("k".to_owned()),
        model: "m".to_owned(),
        supports_format_fallback: true,
    }
}

#[test]
fn server_errors_are_retried_then_reported() {
    let (mut m, first) = chat_start(&protocol());
    assert!(matches!(first, ChatAction::Send { include_format: true, delay_ms: 0, follow_up: None }));
    let second = chat_step(&mut m, ChatEvent::Reply { status: 500, body: "boom".to_owned() });
    assert!(matches!(second, ChatAction::Send { delay_ms: 250, .. }));
    let third = chat_step(&mut m, ChatEvent::Reply { status: 500, body: "boom".to_owned() });
    assert!(matches!(third, ChatAction::Send { delay_ms: 750, .. }));
    let last = chat_step(&mut m, ChatEvent::Reply { status: 500, body: "boom".to_owned() });
    match last {
        ChatAction::Finished(Err(AiError::Http { status, .. })) => assert_eq!(status, 500),
        other => panic!("unexpected {other:?}"),
    }
}

#[test]
fn auth_errors_are_not_retried() {
    let (mut m, _) = chat_start(&protocol());
    let next = chat_step(&mut m, ChatEvent::Reply { status: 401, body: "no".to_owned() });
    assert!(matches!(next, ChatAction::Finished(Err(AiError::Http { status: 401, .. }))));
}

// ---------------------------------------------------------------------------
// Scenario prompts and steps
// ---------------------------------------------------------------------------

fn element(selector: &str) -> InteractiveElement {
    InteractiveElement {
        tag: "button".to_owned(),
        role: "button".to_owned(),
        text: "添加".to_owned(),
        selector: selector.to_owned(),
    }
}

#[test]
fn step_defaults_and_errors() {
    let snapshot = PageSnapshot { title: None, interactive: vec![element("#add")] };
    let blank = ScenarioStepWire {
        action: "goto".to_owned(),
        selector: None,
        value: None,
        key: None,
        text: None,
        url: None,
        name: None,
    };
    let goto = to_action(&blank, &snapshot, "http://base", 0).expect("goto");
    assert_eq!(goto.target(), "http://base");
    let shot = to_action(&ScenarioStepWire { action: "screenshot".to_owned(), ..clone_step(&blank) }, &snapshot, "", 4)
        .expect("screenshot");
    assert_eq!(shot.target(), "step-4");
    let press = to_action(
        &ScenarioStepWire { action: "press".to_owned(), selector: Some("#add".to_owned()), ..clone_step(&blank) },
        &snapshot,
        "",
        2,
    );
    assert_eq!(press.unwrap_err(), "step 2 (press) requires a key");
    let click = to_action(
        &ScenarioStepWire { action: "click".to_owned(), selector: Some("  ".to_owned()), ..clone_step(&blank) },
        &snapshot,
        "",
        1,
    );
    assert_eq!(click.unwrap_err(), "step 1 (click) requires a selector");
    let eval = to_action(&ScenarioStepWire { action: "eval".to_owned(), ..clone_step(&blank) }, &snapshot, "", 3);
    assert_eq!(eval.unwrap_err(), "step 3 uses unsupported action 'eval'");
}

fn clone_step(s: &ScenarioStepWire) -> ScenarioStepWire {
    ScenarioStepWire {
        action: s.action.clone(),
        selector: s.selector.clone(),
        value: s.value.clone(),
        key: s.key.clone(),
        text: s.text.clone(),
        url: s.url.clone(),
        name: s.name.clone(),
    }
}

#[test]
fn prompts_list_page_elements() {
    let report = report_of("- 用户必须能够添加任务。");
    let snapshot = PageSnapshot { title: Some("Board".to_owned()), interactive: vec![element("#add")] };
    let prompt = user_prompt(&report, &snapshot);
    assert!(prompt.starts_with("Page title: Board\n\nInteractive elements (selector — role — text):\n- #add — button — 添加\n"));
    assert!(prompt.contains("\nRequirements to cover:\nREQ-001 ["));
    let empty = user_prompt(&report, &PageSnapshot { title: None, interactive: vec![] });
    assert!(empty.contains("(none detected)\n"));
}

#[test]
fn repair_sees_elements_of_failure_pages_once() {
    let report = report_of("- 用户必须能够添加任务。");
    let snapshot = PageSnapshot { title: None, interactive: vec![element("#add")] };
    let scenario = specprobe::scenario::Scenario {
        requirement_id: "REQ-001".to_owned(),
        title: "t".to_owned(),
        expected_observation: "o".to_owned(),
        steps: vec![specprobe::playwright::PlaywrightAction::Click { selector: "#add".to_owned() }],
    };
    let broken = vec![BrokenScenario {
        scenario,
        failed_step: 0,
        failed_detail: "timeout".to_owned(),
        page_at_failure: Some(PageSnapshot { title: None, interactive: vec![element("#add"), element("#dialog-ok")] }),
    }];
    let merged = merge_failure_pages(&snapshot, &broken);
    let selectors: Vec<&str> = merged.interactive.iter().map(|e| e.selector.as_str()).collect();
    assert_eq!(selectors, vec!["#add", "#dialog-ok"]);
    let prompt = repair_user_prompt(&broken, &merged);
    assert!(prompt.contains("0. click #add  <-- FAILED HERE\n"));
    assert!(prompt.contains("Failure detail: timeout\n"));
    let _ = report;
}

fn archived_issue(id: Option<&str>, title: &str) -> ArchivedIssue {
    ArchivedIssue {
        id: id.map(str::to_owned),
        title: title.to_owned(),
        expected: format!("{title} expected"),
        actual: format!("{title} actual"),
    }
}

fn archived_diagnosis(ids: &[&str], files: &[&str]) -> ArchivedDiagnosis {
    ArchivedDiagnosis {
        related_issue_ids: ids.iter().map(|s| s.to_string()).collect(),
        source_files: files.iter().map(|s| s.to_string()).collect(),
    }
}

#[test]
fn patch_input_collects_located_files_once_in_order() {
    let issues = vec![
        archived_issue(None, "untitled"),
        archived_issue(Some("ISSUE-001"), "first"),
        archived_issue(Some("ISSUE-002"), "second"),
        archived_issue(Some("ISSUE-002"), "duplicate id"),
    ];
    let diagnoses = vec![
        archived_diagnosis(&["ISSUE-002"], &["src/b.ts", "src/a.ts"]),
        archived_diagnosis(&["ISSUE-001"], &["src/other.ts"]),
        archived_diagnosis(&["ISSUE-003", "ISSUE-002"], &["src/a.ts", "src/c.ts", "src/b.ts"]),
    ];
    let input = build_patch_input(&issues, &diagnoses, "ISSUE-002").unwrap();
    assert_eq!(input.issue_id, "ISSUE-002");
    assert_eq!(input.title, "second");
    assert_eq!(input.expected, "second expected");
    assert_eq!(input.actual, "second actual");
    assert_eq!(input.source_files, vec!["src/b.ts", "src/a.ts", "src/c.ts"]);
}

#[test]
fn patch_input_reports_unknown_issue_and_missing_locations() {
    let issues = vec![archived_issue(Some("ISSUE-001"), "first")];
    let diagnoses = vec![archived_diagnosis(&["ISSUE-009"], &["src/a.ts"])];
    match build_patch_input(&issues, &diagnoses, "ISSUE-404") {
        Err(e @ PatchInputError::IssueNotFound(_)) => {
            assert_eq!(e.message(), "issue ISSUE-404 was not found in the run report")
        }
        other => panic!("unexpected {other:?}"),
    }
    match build_patch_input(&issues, &diagnoses, "ISSUE-001") {
        Err(e @ PatchInputError::NoSourceLocations(_)) => assert_eq!(
            e.message(),
            "issue ISSUE-001 has no diagnosed source locations; re-run `check`/`review` with a real --provider so diagnosis can locate the source"
        ),
        other => panic!("unexpected {other:?}"),
    }
}

#[test]
fn review_report_includes_requirement_quality_issue() {
    let report = plan_only_review("- 页面应该简单友好。");

    assert_eq!(report.summary.requirements, 1);
    assert!(report.issues.iter().any(|issue| {
        issue.severity == IssueSeverity::High
            && issue.category == IssueCategory::RequirementGap
            && issue.approval == ApprovalState::Pending
    }));
}

#[test]
fn browser_probe_failure_becomes_issue_when_executed() {
    let options = ReviewOptions {
        project_path: "/tmp/project".to_owned(),
        base_url: "http://127.0.0.1:9".to_owned(),
        execute: true,
        skip_launch: true,
        skip_browser: false,
        launch_timeout_secs: 1,
        browser_timeout_secs: 1,
    };
    let mut diagnostics = Vec::new();
    let failure = BrowserError::Probe {
        target: "http://127.0.0.1:9".to_owned(),
        message: "connection refused".to_owned(),
    };
    let outcome = http_outcome(Err(failure), &mut diagnostics);
    let browser = browser_run_report(
        report_of("- 页面必须显示首页标题。"),
        "http://127.0.0.1:9",
        1,
        outcome,
        5,
        diagnostics,
    );

    let report = generate_review_report(report_of("- 页面必须显示首页标题。"), &options, None, Some(Ok(browser)));

    assert!(report.browser_report.is_some());
    assert!(report.issues.iter().any(|issue| issue.category == IssueCategory::BrowserFailure));
}

#[test]
fn generates_requirement_patch_preview() {
    let report = generate_remediation_report(plan_only_review("- 页面应该简单友好。"));

    let proposal = report
        .proposals
        .iter()
        .find(|proposal| proposal.strategy == PatchStrategy::RequirementClarification)
        .expect("requirement proposal exists");
    assert!(proposal
        .patch_preview
        .as_deref()
        .is_some_and(|preview| preview.contains("--- a/") && preview.contains("验收")));
    assert!(!report.regression_plan.checks.is_empty());
}

#[test]
fn clean_review_still_has_global_regression_check() {
    let report = generate_remediation_report(plan_only_review("- 系统必须显示登录成功提示。"));

    assert!(report.proposals.is_empty());
    assert_eq!(report.regression_plan.checks.len(), 1);
}

#[test]
fn confirmation_prompt_receives_launch_command() {
    match execution_decision(false, Some(&npm_plan())) {
        ExecutionDecision::Confirm(message) => {
            assert!(message.contains("npm run dev"), "got: {message}");
            assert!(message.contains("package.json"));
        }
        ExecutionDecision::Execute => panic!("a detected command must be confirmed"),
    }
}

#[test]
fn no_launch_command_skips_confirmation_and_allows_execution() {
    assert!(matches!(execution_decision(false, None), ExecutionDecision::Execute));
}

#[test]
fn every_cited_evidence_id_was_recorded() {
    let options = ReviewOptions {
        project_path: "/tmp/project".to_owned(),
        base_url: "http://127.0.0.1:9".to_owned(),
        execute: true,
        skip_launch: true,
        skip_browser: false,
        launch_timeout_secs: 1,
        browser_timeout_secs: 1,
    };
    let mut diagnostics = Vec::new();
    let failure = BrowserError::Probe { target: "http://127.0.0.1:9".to_owned(), message: "refused".to_owned() };
    let outcome = http_outcome(Err(failure), &mut diagnostics);
    let browser = browser_run_report(report_of("- 页面应该简单友好。"), "http://127.0.0.1:9", 1, outcome, 5, diagnostics);
    let report = generate_review_report(report_of("- 页面应该简单友好。"), &options, None, Some(Ok(browser)));
    assert!(report.issues.len() >= 2);
    for issue in &report.issues {
        assert!(!issue.evidence_ids.is_empty());
        for id in &issue.evidence_ids {
            assert!(report.evidence.iter().any(|e| &e.id == id), "{id} was not recorded");
        }
    }
}

#[test]
fn a_rejected_answer_is_asked_again_once_then_fails() {
    let (mut m, _) = chat_start(&protocol());
    assert!(matches!(chat_step(&mut m, ChatEvent::Reply { status: 200, body: "{}".to_owned() }), ChatAction::ReadBody));
    match chat_step(&mut m, ChatEvent::Body(Ok((Some("first".to_owned()), None)))) {
        ChatAction::Validate { content, lenient } => {
            assert_eq!(content, "first");
            assert!(!lenient);
        }
        other => panic!("unexpected {other:?}"),
    }
    match chat_step(&mut m, ChatEvent::Verdict(Err("missing field".to_owned()))) {
        ChatAction::Send { delay_ms: 0, follow_up: Some((answer, feedback)), .. } => {
            assert_eq!(answer, "first");
            assert!(feedback.contains("rejected: missing field"));
        }
        other => panic!("unexpected {other:?}"),
    }
    assert!(matches!(chat_step(&mut m, ChatEvent::Reply { status: 200, body: "{}".to_owned() }), ChatAction::ReadBody));
    match chat_step(&mut m, ChatEvent::Body(Ok((Some("second".to_owned()), None)))) {
        ChatAction::Validate { lenient, .. } => assert!(lenient),
        other => panic!("unexpected {other:?}"),
    }
    match chat_step(&mut m, ChatEvent::Verdict(Err("still wrong".to_owned()))) {
        ChatAction::Finished(Err(AiError::InvalidResponse { message, .. })) => assert_eq!(message, "still wrong"),
        other => panic!("unexpected {other:?}"),
    }
}

#[test]
fn fingerprints_name_category_requirement_and_title() {
    assert_eq!(
        issue_fingerprint("requirement-gap", &Some("REQ-001".to_owned()), "REQ-001 needs clearer acceptance criteria"),
        "requirement-gap|REQ-001|REQ-001 needs clearer acceptance criteria"
    );
    assert_eq!(issue_fingerprint("browser-failure", &None, "Browser probe failed"), "browser-failure||Browser probe failed");
}
