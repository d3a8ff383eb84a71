use specprobe::playwright::{detect_runner, RunnerCandidate};
use specprobe::diagnosis::{
    collect_source_context, is_skipped_source_directory, is_source_file, SourceFile,
};
use specprobe::ai::AiProviderKind;
use specprobe::config::{
    resolve_settings, CliOverrides, EnvOverrides, LoadedConfig, ProjectConfig, DEFAULT_BASE_URL,
};
use specprobe::requirements::{
    analyze_requirements, is_requirement_document, order_documents, path_less, DocumentText,
    ExecutorHint,
    RequirementCategory, RequirementPriority,
};
use specprobe::scanner::{
    add_node_techs, inspect_file, inspect_manifest_contents, is_skipped_directory, scan_project,
    ScanState,
};
use specprobe::runtime::{
    dry_run_report, run_outcome,
    detect_launch_command, package_scripts, CommandConfidence, ProjectAdapterKind, ProjectFiles,
};

fn document(path: &str, contents: &str) -> DocumentText {
    DocumentText { path: path.to_owned(), contents: contents.to_owned() }
}

fn node_project(manifest: &str) -> ProjectFiles {
    ProjectFiles {
        root: "demo".to_owned(),
        package_scripts: package_scripts(manifest),
        has_pnpm_lock: false,
        has_yarn_lock: false,
        has_bun_lock: false,
        has_bun_lockb: false,
        has_cargo_toml: false,
        has_app_py: false,
        has_main_py: false,
    }
}

#[test]
fn parses_markdown_requirements_into_criteria_and_test_cases() {
    let text = r#"# Demo Product

## 功能需求

- 用户必须可以登录系统，并在成功后跳转到首页。
- 系统应该支持导出 CSV 报表。

## 非功能需求

- 页面应该快速加载。
"#;
    let report = analyze_requirements("demo", vec![document("README.md", text)]);

    assert_eq!(report.documents.len(), 1);
    assert_eq!(report.requirements.len(), 3);
    assert_eq!(report.test_plan.cases.len(), 3);
    assert_eq!(report.requirements[0].id, "REQ-001");
    assert_eq!(report.requirements[0].priority, RequirementPriority::Must);
    assert_eq!(report.requirements[0].category, RequirementCategory::Security);
    assert_eq!(report.test_plan.cases[0].requirement_id, "REQ-001");
    assert!(report.requirements[2]
        .quality_flags
        .iter()
        .any(|flag| flag.message.contains("模糊词")));
}

#[test]
fn supports_direct_file_analysis() {
    let report = analyze_requirements("PRD.md", vec![document("PRD.md", "- API 必须返回用户列表。")]);

    assert_eq!(report.documents[0].path, "PRD.md");
    assert_eq!(report.requirements.len(), 1);
    assert_eq!(report.requirements[0].category, RequirementCategory::Api);
}

#[test]
fn ignores_code_fences() {
    let text = r#"# Requirements

```text
- 用户必须看到这行，但它只是示例代码。
```

- 用户必须看到真实结果。
"#;
    let report = analyze_requirements("demo", vec![document("README.md", text)]);

    assert_eq!(report.requirements.len(), 1);
    assert!(report.requirements[0].description.contains("真实结果"));
}

#[test]
fn directory_mode_ignores_project_journal_documents() {
    let files = [
        (
            "PROJECT.md",
            "# Project journal\n\n## 下一步任务\n\n- 实现 Markdown 需求文档的规则解析器。\n",
        ),
        ("README.md", "# Product\n\n## 当前能力\n\n- 用户必须可以导入需求文档，并显示解析结果。\n"),
    ];
    let documents: Vec<DocumentText> = files
        .iter()
        .filter(|(name, _)| is_requirement_document(name, name))
        .map(|(name, text)| document(name, text))
        .collect();

    let report = analyze_requirements("demo", documents);

    assert_eq!(report.documents.len(), 1);
    assert_eq!(report.documents[0].path, "README.md");
    assert_eq!(report.requirements.len(), 1);
}

#[test]
fn requirement_documents_are_named_or_under_docs() {
    assert!(is_requirement_document("README.md", "README.md"));
    assert!(is_requirement_document("sub/prd-v2.TXT", "prd-v2.TXT"));
    assert!(is_requirement_document("Docs/guide.md", "guide.md"));
    assert!(!is_requirement_document("PROJECT.md", "PROJECT.md"));
    assert!(!is_requirement_document("README", "README"));
    assert!(!is_requirement_document("notes/guide.md", "guide.md"));
    assert!(!is_requirement_document("docs/diagram.png", "diagram.png"));
}

#[test]
fn vague_requirements_use_manual_review_hint() {
    let report = analyze_requirements("demo", vec![document("README.md", "- 页面应该简单友好。")]);

    assert_eq!(report.test_plan.cases[0].executor_hint, ExecutorHint::ManualReview);
}

#[test]
fn detects_node_dev_script() {
    let files = node_project(r#"{"scripts":{"dev":"vite --host 127.0.0.1","start":"node server.js"}}"#);

    let plan = detect_launch_command(&files).expect("command should be detected");

    assert_eq!(plan.adapter, ProjectAdapterKind::Node);
    assert_eq!(plan.command.program, "npm");
    assert_eq!(plan.command.args, vec!["run", "dev"]);
    assert_eq!(plan.command.confidence, CommandConfidence::High);
}

#[test]
fn detects_node_manifest_with_utf8_bom() {
    let files = node_project("\u{feff}{\"scripts\":{\"start\":\"node server.js\"}}");

    let plan = detect_launch_command(&files).expect("command should be detected");

    assert_eq!(plan.adapter, ProjectAdapterKind::Node);
    assert_eq!(plan.command.args, vec!["run", "start"]);
}

#[test]
fn detects_web_stack_requirements_and_tests() {
    let files = [
        ("README.md", "README.md"),
        ("package.json", "package.json"),
        ("src/app.tsx", "app.tsx"),
        ("tests/login.spec.ts", "login.spec.ts"),
    ];
    let mut state = ScanState::new();
    for (relative, name) in files {
        inspect_file(&mut state, relative, name);
    }
    let root_files = vec!["README.md".to_owned(), "package.json".to_owned()];
    let manifest = r#"{"dependencies":{"react":"latest"},"devDependencies":{"@playwright/test":"latest","typescript":"latest"}}"#;
    inspect_manifest_contents(&mut state, Some(manifest), None, &root_files);

    let profile = scan_project("demo", false, state);

    assert!(profile.technologies.contains(&"React".to_owned()));
    assert!(profile.technologies.contains(&"Playwright".to_owned()));
    assert_eq!(profile.source_file_count, 2);
    assert_eq!(profile.test_file_count, 1);
    assert_eq!(profile.requirement_documents, vec!["README.md"]);
}

#[test]
fn ignores_dependency_directories() {
    assert!(is_skipped_directory("node_modules"));
    assert!(is_skipped_directory("target"));
    assert!(!is_skipped_directory("src"));

    let profile = scan_project("demo", false, ScanState::new());

    assert_eq!(profile.source_file_count, 0);
}

fn loaded(config: ProjectConfig) -> LoadedConfig {
    LoadedConfig { source: "proj/specprobe.toml".to_owned(), config }
}

#[test]
fn resolves_precedence_cli_env_config_default() {
    let config = loaded(ProjectConfig {
        base_url: Some("http://config:1".to_owned()),
        provider: Some("ollama".to_owned()),
        launch_timeout_secs: Some(30),
        ..Default::default()
    });

    let resolved = resolve_settings(
        "proj",
        CliOverrides { base_url: Some("http://cli:1".to_owned()), ..Default::default() },
        EnvOverrides {
            base_url: Some("http://env:1".to_owned()),
            provider: Some("openai-compatible".to_owned()),
        },
        Some(&config),
    )
    .expect("resolve succeeds");

    assert_eq!(resolved.base_url, "http://cli:1");
    assert_eq!(resolved.provider, AiProviderKind::OpenaiCompatible);
    assert_eq!(resolved.launch_timeout_secs, 30);
    assert_eq!(resolved.browser_timeout_secs, 10);
}

#[test]
fn config_requirements_resolves_relative_to_project() {
    let config = loaded(ProjectConfig { requirements: Some("PRD.md".to_owned()), ..Default::default() });

    let resolved = resolve_settings("proj", CliOverrides::default(), EnvOverrides::default(), Some(&config))
        .expect("resolve succeeds");

    assert_eq!(resolved.requirements, Some("proj/PRD.md".to_owned()));
    assert_eq!(resolved.base_url, DEFAULT_BASE_URL);
}

#[test]
fn unknown_field_and_bad_provider_fail_loudly() {
    let config = loaded(ProjectConfig { provider: Some("gpt5".to_owned()), ..Default::default() });

    let error = resolve_settings("proj", CliOverrides::default(), EnvOverrides::default(), Some(&config))
        .expect_err("bad provider rejected");

    assert!(error.message().contains("gpt5"));
}

#[test]
fn dry_run_reports_detected_command_without_execution() {
    let files = ProjectFiles { has_cargo_toml: true, package_scripts: None, ..node_project("{}") };
    let plan = detect_launch_command(&files).expect("command should be detected");

    let report = dry_run_report("demo".to_owned(), plan, 1);

    assert_eq!(report.adapter, ProjectAdapterKind::Rust);
    assert!(!report.execution.attempted);
    assert!(report.execution.dry_run);
}

#[test]
fn long_running_process_with_output_is_not_a_failure() {
    let execution = run_outcome(false, None, true, true, 1000, 1);

    assert!(execution.timed_out);
    assert!(execution.long_running);
    assert!(execution.success);
}

#[test]
fn silent_timeout_stays_a_failure() {
    let execution = run_outcome(false, None, true, false, 1000, 1);

    assert!(execution.timed_out);
    assert!(!execution.long_running);
    assert!(!execution.success);
}

#[test]
fn collects_source_snippets_by_keyword() {
    assert!(is_skipped_source_directory("node_modules"));
    assert!(is_source_file("app.js"));
    let files = vec![SourceFile {
        display: "public/app.js".to_owned(),
        contents: Some(
            "function addTask() {\n  const name = input.value;\n  list.push(name); // add-task-btn handler\n}\n"
                .to_owned(),
        ),
    }];
    let keywords = vec!["add-task-btn".to_owned()];

    let snippets = collect_source_context(&files, &keywords, 12);

    assert_eq!(snippets.len(), 1);
    assert_eq!(snippets[0].file, "public/app.js");
    assert!(snippets[0].text.contains("add-task-btn"));
}

#[test]
fn resolve_runner_requires_installed_playwright() {
    let candidate = |has_playwright: bool| RunnerCandidate {
        runner_js: "/tmp/runner/runner.mjs".to_owned(),
        dir: Some("/tmp/runner".to_owned()),
        is_file: true,
        has_package_json: false,
        has_playwright,
    };

    assert!(detect_runner(false, &vec![candidate(false)]).is_none());
    let found = detect_runner(false, &vec![candidate(true)]).expect("runner is usable");
    assert_eq!(found.runner_js, "/tmp/runner/runner.mjs");
    assert!(detect_runner(true, &vec![candidate(true)]).is_none());
}

#[test]
fn rule_engine_numbers_across_documents_and_plans_each_requirement() {
    let report = analyze_requirements(
        "demo",
        vec![
            document("README.md", "- 用户必须可以登录系统。\n- 系统应该支持导出 CSV 报表。\n"),
            document("docs/api.md", "- API 必须返回用户列表。\n"),
        ],
    );

    assert_eq!(report.documents.len(), 2);
    let ids: Vec<&str> = report.requirements.iter().map(|r| r.id.as_str()).collect();
    assert_eq!(ids, vec!["REQ-001", "REQ-002", "REQ-003"]);
    assert_eq!(report.test_plan.cases.len(), 3);
    for (k, case) in report.test_plan.cases.iter().enumerate() {
        assert_eq!(case.id, format!("TC-{:03}", k + 1));
        assert_eq!(case.requirement_id, report.requirements[k].id);
    }
    assert!(report.requirements.iter().all(|r| !r.acceptance_criteria.is_empty()));
}

#[test]
fn node_dependencies_add_sorted_technologies_once() {
    let mut technologies = vec!["Node.js".to_owned(), "Rust".to_owned()];
    let keys = Some(vec![
        "vite".to_owned(),
        "react".to_owned(),
        "lodash".to_owned(),
        "@playwright/test".to_owned(),
        "playwright".to_owned(),
    ]);
    add_node_techs(&mut technologies, &keys);
    assert_eq!(technologies, vec!["Node.js", "Playwright", "React", "Rust", "Vite"]);

    add_node_techs(&mut technologies, &None);
    assert_eq!(technologies.len(), 5);
}

#[test]
fn documents_are_ordered_component_by_component() {
    let paths = ["docs-old/a.md", "README.md", "docs/b.md", "docs", "docs/a.md", "PRD.md"];
    let ordered = order_documents(paths.iter().map(|p| document(p, p)).collect());
    let got: Vec<&str> = ordered.iter().map(|d| d.path.as_str()).collect();
    assert_eq!(got, vec!["PRD.md", "README.md", "docs", "docs/a.md", "docs/b.md", "docs-old/a.md"]);
    assert!(ordered.iter().all(|d| d.contents == d.path));
    assert!(path_less("docs/z.md", "docs-old/a.md"));
    assert!(!path_less("docs-old/a.md", "docs/z.md"));
}

#[test]
fn redaction_keeps_each_line_in_place() {
    let text = "first line\nOPENAI_API_KEY=sk-abcdefghijklmnop\nuse ghp_abcdefghijklmnopqrst here\nlast";
    let redacted = specprobe::redact::redact_secrets(text);
    let lines: Vec<&str> = redacted.split('\n').collect();
    assert_eq!(lines.len(), text.split('\n').count());
    assert_eq!(lines[0], "first line");
    assert_eq!(lines[1], "OPENAI_API_KEY= [REDACTED]");
    assert_eq!(lines[2], "use [REDACTED] here");
    assert_eq!(lines[3], "last");
}

#[test]
fn diagnosis_prompt_lists_findings_then_snippets() {
    let findings = vec![specprobe::diagnosis::FailedFinding {
        issue_id: "ISSUE-002".to_owned(),
        title: "Browser probe failed".to_owned(),
        expected: "page loads".to_owned(),
        actual: "HTTP 500".to_owned(),
    }];
    let none = specprobe::diagnosis::user_prompt(&findings, &Vec::new());
    assert_eq!(
        none,
        "Failed findings:\n- ISSUE-002 | Browser probe failed\n  expected: page loads\n  actual: HTTP 500\n\nRelevant source snippets:\n(no matching source files were found)\n"
    );
    let snippets = vec![specprobe::diagnosis::SourceSnippet {
        file: "server.js".to_owned(),
        start_line: 44,
        text: "res.status(500)".to_owned(),
    }];
    let some = specprobe::diagnosis::user_prompt(&findings, &snippets);
    assert!(some.ends_with("\nRelevant source snippets:\n--- server.js (from line 44) ---\nres.status(500)\n"));
}
