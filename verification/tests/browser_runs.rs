use specprobe::ai::{AiError, AiProviderKind};
use specprobe::browser::{BrowserBackend, BrowserDiagnosticSeverity, PageProbeEvidence, PlaywrightEvidence};
use specprobe::browser_flow::{browser_flow_start, browser_flow_step, BrowserEvent, BrowserStep, RUNNER_MISSING_NOTE};
use specprobe::playwright::{InteractiveElement, PageSnapshot, PlaywrightError, PlaywrightOutcome, RunnerLocation};

fn runner() -> Option<RunnerLocation> {
    Some(RunnerLocation { runner_js: "/opt/runner/runner.mjs".to_owned() })
}

fn page() -> PageProbeEvidence {
    PageProbeEvidence {
        url: "http://127.0.0.1:3000".to_owned(),
        status_code: Some(200),
        status_text: "HTTP/1.1 200 OK".to_owned(),
        title: Some("Tasks".to_owned()),
        body_excerpt: "Tasks".to_owned(),
        response_bytes: 5,
    }
}

fn evidence(with_elements: bool) -> PlaywrightEvidence {
    let mut outcome = PlaywrightOutcome::empty();
    outcome.started = true;
    outcome.finished_ok = Some(true);
    outcome.snapshot = Some(PageSnapshot {
        title: Some("Tasks".to_owned()),
        interactive: if with_elements {
            vec![InteractiveElement {
                tag: "button".to_owned(),
                role: "button".to_owned(),
                text: "Add".to_owned(),
                selector: "#add".to_owned(),
            }]
        } else {
            Vec::new()
        },
    });
    PlaywrightEvidence { run_dir: ".specprobe/runs/probe-1".to_owned(), outcome }
}

#[test]
fn without_a_runner_the_page_is_probed_over_http_with_a_note() {
    let (mut flow, step) = browser_flow_start("http://127.0.0.1:3000", AiProviderKind::Mock, None);
    assert!(matches!(step, BrowserStep::ProbePage));
    assert_eq!(flow.diagnostics.len(), 1);
    assert_eq!(flow.diagnostics[0].message, RUNNER_MISSING_NOTE);
    match browser_flow_step(&mut flow, BrowserEvent::Page(Ok(page()))) {
        BrowserStep::Finished(o) => {
            assert_eq!(o.backend, BrowserBackend::HttpProbe);
            assert!(o.success);
        }
        other => panic!("unexpected {other:?}"),
    }
}

#[test]
fn a_failing_runner_falls_back_to_the_http_probe() {
    let (mut flow, step) = browser_flow_start("http://127.0.0.1:3000", AiProviderKind::Mock, runner());
    match step {
        BrowserStep::RunSidecar { runner_js, actions, prefix } => {
            assert_eq!(runner_js, "/opt/runner/runner.mjs");
            assert_eq!(prefix, "probe");
            assert_eq!(actions.len(), 3);
        }
        other => panic!("unexpected {other:?}"),
    }
    let step = browser_flow_step(&mut flow, BrowserEvent::Probe(Err(PlaywrightError::Timeout(11))));
    assert!(matches!(step, BrowserStep::ProbePage));
    assert_eq!(flow.diagnostics[0].severity, BrowserDiagnosticSeverity::Warning);
    assert_eq!(
        flow.diagnostics[0].message,
        "Playwright runner failed (Playwright runner timed out after 11s); falling back to HTTP probe."
    );
}

#[test]
fn the_offline_provider_keeps_the_probe_evidence() {
    let (mut flow, _) = browser_flow_start("http://127.0.0.1:3000", AiProviderKind::Mock, runner());
    match browser_flow_step(&mut flow, BrowserEvent::Probe(Ok(evidence(true)))) {
        BrowserStep::Finished(o) => {
            assert_eq!(o.backend, BrowserBackend::Playwright);
            assert!(o.success);
            assert!(o.scenarios.is_empty());
        }
        other => panic!("unexpected {other:?}"),
    }
}

#[test]
fn failed_scenario_generation_keeps_the_probe_evidence_with_a_warning() {
    let (mut flow, _) = browser_flow_start("http://127.0.0.1:3000", AiProviderKind::Ollama, runner());
    let step = browser_flow_step(&mut flow, BrowserEvent::Probe(Ok(evidence(true))));
    assert!(matches!(step, BrowserStep::GenerateScenarios));
    let failure = AiError::Network { provider: "Ollama".to_owned(), message: "refused".to_owned() };
    match browser_flow_step(&mut flow, BrowserEvent::Scenarios(Err(failure))) {
        BrowserStep::Finished(o) => assert!(o.playwright.is_some()),
        other => panic!("unexpected {other:?}"),
    }
    assert_eq!(
        flow.diagnostics[0].message,
        "Scenario generation failed (Ollama request failed: refused); keeping probe evidence."
    );
}
