use specprobe::browser::{extract_title, is_supported_probe_url};
use specprobe::diagnosis::{extract_identifiers, keywords_from_findings, FailedFinding};
use specprobe::doctor::{first_non_empty_line, inspect_environment, CommandOutput, CommandProbe, EnvironmentProbe};
use specprobe::markdown::{parse_heading, strip_inline_markdown};
use specprobe::output::{join_or_none, yes_no};
use specprobe::patch::validate_diff_shape;
use specprobe::paths::display_path;
use specprobe::redact::redact_secrets;
use specprobe::regression::evaluate;
use specprobe::requirements::{classify_category, classify_priority, RequirementCategory, RequirementPriority};
use specprobe::runtime::redact_sensitive_lines;

#[test]
fn accepts_only_http_and_https_probe_urls() {
    assert!(is_supported_probe_url("http://127.0.0.1:3000"));
    assert!(is_supported_probe_url("https://example.com"));
    assert!(!is_supported_probe_url("ftp://example.com"));
    assert!(!is_supported_probe_url("file:///tmp/index.html"));
}

#[test]
fn extracts_page_title() {
    assert_eq!(
        extract_title("<html><title>Hello</title></html>"),
        Some("Hello".to_owned())
    );
}

#[test]
fn extracts_selectors_and_path_segments() {
    let mut set: Vec<String> = Vec::new();
    extract_identifiers("click #add-task-btn then GET /api/tasks returned 500", &mut set);
    assert!(set.contains(&"add-task-btn".to_owned()));
    assert!(set.contains(&"api".to_owned()));
    assert!(set.contains(&"tasks".to_owned()));
    assert!(!set.contains(&"500".to_owned()));
}

#[test]
fn keywords_are_deduplicated_and_capped() {
    let findings = vec![FailedFinding {
        issue_id: "ISSUE-001".to_owned(),
        title: "交互场景未通过".to_owned(),
        expected: "点击 #add-task-btn 后列表更新".to_owned(),
        actual: "click #add-task-btn: 元素不可见; /api/tasks 500".to_owned(),
    }];
    let keywords = keywords_from_findings(&findings);
    assert!(keywords.contains(&"add-task-btn".to_owned()));
    assert!(keywords.len() <= 16);
}

#[test]
fn extracts_first_non_empty_line() {
    assert_eq!(
        first_non_empty_line("\n cargo 1.96.0\nsecond line"),
        Some("cargo 1.96.0".to_owned())
    );
}

fn missing() -> CommandProbe {
    CommandProbe { resolved_path: None, outcome: Err("not found".to_owned()) }
}

fn found(version: &str) -> CommandProbe {
    CommandProbe {
        resolved_path: Some("/usr/bin/tool".to_owned()),
        outcome: Ok(CommandOutput { success: true, stdout: version.to_owned(), stderr: String::new() }),
    }
}

fn probe_with_nothing() -> EnvironmentProbe {
    EnvironmentProbe {
        rustc: missing(),
        cargo: missing(),
        git: missing(),
        node: missing(),
        npm: missing(),
        docker: missing(),
        ollama: missing(),
        cl: missing(),
        msvc_discovered: None,
        openai_api_key: None,
        anthropic_api_key: None,
        deepseek_api_key: None,
    }
}

#[test]
fn doctor_report_always_contains_core_tools() {
    let report = inspect_environment(probe_with_nothing());
    for expected in ["rustc", "cargo", "git", "msvc"] {
        assert!(report.tools.iter().any(|tool| tool.name == expected));
    }
    let mut probe = probe_with_nothing();
    probe.rustc = found("rustc 1.80.0");
    probe.cargo = found("cargo 1.80.0");
    probe.git = found("git version 2.43.0");
    let report = inspect_environment(probe);
    for expected in ["rustc", "cargo", "git", "msvc"] {
        assert!(report.tools.iter().any(|tool| tool.name == expected));
    }
}

#[test]
fn formats_simple_values() {
    assert_eq!(yes_no(true), "yes");
    assert_eq!(yes_no(false), "no");
    assert_eq!(join_or_none(&Vec::new()), "none detected");
    assert_eq!(join_or_none(&vec!["Rust".to_owned()]), "Rust");
}

#[test]
fn validate_diff_shape_checks_headers_and_scope() {
    let known = vec!["app.js".to_owned()];
    assert!(validate_diff_shape("not a diff", &known).is_err());

    let ok = "--- a/app.js\n+++ b/app.js\n@@ -1 +1 @@\n-old\n+new\n";
    assert_eq!(validate_diff_shape(ok, &known).unwrap(), vec!["app.js"]);

    let outside = "--- a/other.js\n+++ b/other.js\n@@ -1 +1 @@\n-old\n+new\n";
    assert!(validate_diff_shape(outside, &known).unwrap_err().contains("other.js"));
}

#[test]
fn redacts_sensitive_key_values() {
    let input = "line one\nOPENAI_API_KEY=sk-abcdef1234567890\npassword: hunter2secret\nline two";
    let out = redact_secrets(input);
    assert!(out.contains("line one"));
    assert!(out.contains("line two"));
    assert!(!out.contains("sk-abcdef1234567890"));
    assert!(!out.contains("hunter2secret"));
    assert!(out.contains("OPENAI_API_KEY= [REDACTED]"));
    assert!(out.contains("password: [REDACTED]"));
}

#[test]
fn redacts_bare_known_tokens() {
    let out = redact_secrets("const t = ghp_abcdefghijklmnop1234;");
    assert!(!out.contains("ghp_abcdefghijklmnop1234"));
    assert!(out.contains("[REDACTED]"));
}

#[test]
fn keeps_ordinary_content_untouched() {
    let input = "user clicks the login button\npage should show a welcome message";
    assert_eq!(redact_secrets(input), input);
}

#[test]
fn does_not_flag_ordinary_long_words() {
    let input = "internationalization and responsibilities are long words";
    assert_eq!(redact_secrets(input), input);
}

#[test]
fn evaluate_verifies_when_target_gone_and_no_new_issues() {
    let base = vec!["aaa".to_owned(), "bbb".to_owned()];
    let verdict = evaluate(&base, &["bbb".to_owned()], "aaa");
    assert!(verdict.verified);
    assert!(verdict.target_resolved);
    assert_eq!(verdict.resolved, vec!["aaa".to_owned()]);
    assert_eq!(verdict.remaining, vec!["bbb".to_owned()]);
    assert!(verdict.new_issues.is_empty());
}

#[test]
fn evaluate_fails_on_new_regression() {
    let base = vec!["aaa".to_owned()];
    let verdict = evaluate(&base, &["ccc".to_owned()], "aaa");
    assert!(verdict.target_resolved);
    assert!(!verdict.verified);
    assert_eq!(verdict.new_issues, vec!["ccc".to_owned()]);
}

#[test]
fn evaluate_fails_when_target_remains() {
    let base = vec!["aaa".to_owned()];
    let verdict = evaluate(&base, &["aaa".to_owned()], "aaa");
    assert!(!verdict.target_resolved);
    assert!(!verdict.verified);
    assert_eq!(verdict.remaining, vec!["aaa".to_owned()]);
}

#[test]
fn classifies_priority_and_category() {
    assert_eq!(classify_priority("系统必须保存用户数据"), RequirementPriority::Must);
    assert_eq!(classify_priority("系统可以导出数据"), RequirementPriority::Could);
    assert_eq!(classify_category("接口必须返回 JSON 响应", &[]), RequirementCategory::Api);
    assert_eq!(classify_category("页面应该显示错误提示", &[]), RequirementCategory::Ui);
}

#[test]
fn keeps_link_text_and_drops_urls() {
    assert_eq!(
        strip_inline_markdown("详见 [接口规范](https://example.com/spec) 第 3 节"),
        "详见 接口规范 第 3 节"
    );
    assert_eq!(
        strip_inline_markdown("![登录页](img/login.png) 页面必须显示错误提示"),
        "登录页 页面必须显示错误提示"
    );
    assert_eq!(
        strip_inline_markdown("**加粗** 与 `代码` 不受影响"),
        "加粗 与 `代码` 不受影响"
    );
}

#[test]
fn parses_heading_levels() {
    assert_eq!(parse_heading("## 功能需求"), Some((2, "功能需求".to_owned())));
    assert_eq!(parse_heading("not a heading"), None);
}

#[test]
fn redacts_sensitive_lines() {
    let redacted = redact_sensitive_lines("ok\nOPENAI_API_KEY=secret\npassword=abc");
    assert_eq!(redacted, "ok\n[REDACTED LINE]\n[REDACTED LINE]");
}

#[test]
fn removes_windows_verbatim_path_prefix() {
    assert_eq!(display_path(r"\\?\D:\project"), r"D:\project");
}
