use specprobe::ai::ChatProtocol;
use specprobe::chat::{chat_open, chat_step, hex_string, redact_messages, ChatAction, ChatEvent, ChatMessage};
use specprobe::redact::redact_secrets;
use specprobe::requirements::{
    candidate_by_keywords, category_from_lowered, classify_category, classify_priority, is_requirement_candidate,
    names_non_requirement_section, names_observable_result, names_requirement_section, priority_from_lowered,
    quality_flags_for, quality_flags_from_lowered, QualityFlagKind, RequirementCategory, RequirementPriority,
};

fn protocol() -> ChatProtocol {
    ChatProtocol {
        provider: "openai".to_owned(),
        endpoint: "http://x/v1/chat/completions".to_owned(),
        api_key: Some("k".to_owned()),
        model: "m".to_owned(),
        supports_format_fallback: true,
    }
}

fn chat(role: &str, content: &str) -> ChatMessage {
    ChatMessage { role: role.to_owned(), content: content.to_owned() }
}

// ---------------------------------------------------------------------------
// What is sent to a model
// ---------------------------------------------------------------------------

#[test]
fn outbound_messages_are_redacted_in_order() {
    let secret = "const t = ghp_abcdefghijklmnop1234;";
    let out = redact_messages(vec![chat("system", "You review requirements."), chat("user", secret)]);
    assert_eq!(out.len(), 2);
    assert_eq!(out[0].role, "system");
    assert_eq!(out[0].content, "You review requirements.");
    assert_eq!(out[1].role, "user");
    assert_eq!(out[1].content, redact_secrets(secret));
    assert!(!out[1].content.contains("ghp_abcdefghijklmnop1234"));
    assert!(out[1].content.contains("[REDACTED]"));
}

#[test]
fn no_messages_stay_no_messages() {
    assert!(redact_messages(Vec::new()).is_empty());
}

#[test]
fn valid_cached_answer_is_served_without_a_request() {
    let (mut m, first) = chat_open(&protocol(), Some("{\"ok\":true}".to_owned()));
    match first {
        ChatAction::Validate { content, lenient } => {
            assert_eq!(content, "{\"ok\":true}");
            assert!(lenient);
        }
        other => panic!("unexpected {other:?}"),
    }
    match chat_step(&mut m, ChatEvent::Verdict(Ok(()))) {
        ChatAction::Finished(Ok(info)) => {
            assert!(info.cache_hit);
            assert_eq!(info.attempts, 0);
            assert!(info.usage.is_none());
        }
        other => panic!("unexpected {other:?}"),
    }
}

#[test]
fn rejected_cached_answer_falls_back_to_a_request() {
    let (mut m, _) = chat_open(&protocol(), Some("not json".to_owned()));
    let send = chat_step(&mut m, ChatEvent::Verdict(Err("bad".to_owned())));
    assert!(matches!(send, ChatAction::Send { include_format: true, delay_ms: 0, follow_up: None }));
    let read = chat_step(&mut m, ChatEvent::Reply { status: 200, body: "{}".to_owned() });
    assert!(matches!(read, ChatAction::ReadBody));
    match chat_step(&mut m, ChatEvent::Body(Ok((Some("{\"ok\":1}".to_owned()), None)))) {
        ChatAction::Validate { content, lenient } => {
            assert_eq!(content, "{\"ok\":1}");
            assert!(!lenient);
        }
        other => panic!("unexpected {other:?}"),
    }
    match chat_step(&mut m, ChatEvent::Verdict(Ok(()))) {
        ChatAction::Finished(Ok(info)) => {
            assert!(!info.cache_hit);
            assert_eq!(info.attempts, 1);
        }
        other => panic!("unexpected {other:?}"),
    }
}

#[test]
fn without_a_cached_answer_the_first_request_goes_out() {
    let (_, first) = chat_open(&protocol(), None);
    assert!(matches!(first, ChatAction::Send { include_format: true, delay_ms: 0, follow_up: None }));
}

#[test]
fn hex_string_writes_two_lowercase_digits_per_byte() {
    assert_eq!(hex_string(&vec![0x00, 0x0f, 0xa5, 0xff]), "000fa5ff");
    assert_eq!(hex_string(&Vec::new()), "");
}

// ---------------------------------------------------------------------------
// Keyword rules on lowercased text
// ---------------------------------------------------------------------------

#[test]
fn priority_keywords_match_lowercased_text_only() {
    assert_eq!(priority_from_lowered("the system must save data"), RequirementPriority::Must);
    assert_eq!(priority_from_lowered("users should see a list"), RequirementPriority::Should);
    assert_eq!(priority_from_lowered("users may export"), RequirementPriority::Could);
    assert_eq!(priority_from_lowered("the system MUST save data"), RequirementPriority::Unknown);
    assert_eq!(classify_priority("the system MUST save data"), RequirementPriority::Must);
}

#[test]
fn category_groups_are_tried_in_order() {
    assert_eq!(category_from_lowered("api token check"), RequirementCategory::Security);
    assert_eq!(category_from_lowered("the api returns data"), RequirementCategory::Api);
    assert_eq!(category_from_lowered("import data"), RequirementCategory::Data);
    assert_eq!(category_from_lowered("runs on linux"), RequirementCategory::Compatibility);
    assert_eq!(category_from_lowered("   "), RequirementCategory::Unknown);
    assert_eq!(category_from_lowered("users order coffee"), RequirementCategory::Functional);
    assert_eq!(category_from_lowered("Runs on LINUX"), RequirementCategory::Functional);
    assert_eq!(classify_category("Runs on LINUX", &[]), RequirementCategory::Compatibility);
}

#[test]
fn quality_flags_of_lowercased_sentences() {
    let kinds = |flags: Vec<specprobe::requirements::RequirementQualityFlag>| -> Vec<QualityFlagKind> {
        flags.iter().map(|f| f.kind).collect()
    };
    assert_eq!(
        kinds(quality_flags_from_lowered("the page is fast", 16)),
        vec![QualityFlagKind::VagueLanguage, QualityFlagKind::MissingObservableResult]
    );
    assert_eq!(
        kinds(quality_flags_from_lowered("the page is fast", 141)),
        vec![QualityFlagKind::VagueLanguage, QualityFlagKind::TooBroad, QualityFlagKind::MissingObservableResult]
    );
    assert!(quality_flags_from_lowered("the page is FAST and shows results", 34).is_empty());
    assert_eq!(kinds(quality_flags_for("the page is FAST and shows results")), vec![QualityFlagKind::VagueLanguage]);
}

#[test]
fn observable_and_section_words_in_lowercased_text() {
    assert!(names_observable_result("it shows a list"));
    assert!(!names_observable_result("it SHOWS a list"));
    assert!(names_requirement_section("功能需求"));
    assert!(names_requirement_section("user story"));
    assert!(!names_requirement_section("overview"));
    assert!(names_non_requirement_section("installation"));
    assert!(!names_non_requirement_section("Installation"));
}

#[test]
fn candidate_keyword_rule_on_lowercased_text() {
    let none: Vec<String> = Vec::new();
    let section = vec!["功能需求".to_owned()];
    assert!(candidate_by_keywords("users can export reports", &none, true));
    assert!(!candidate_by_keywords("users can export reports", &none, false));
    assert!(candidate_by_keywords("users can export reports", &section, false));
    assert!(candidate_by_keywords("overview of the screen", &section, true));
    assert!(!candidate_by_keywords("overview of the screen", &none, true));
    assert!(!candidate_by_keywords("users CAN export reports", &none, true));
    assert!(is_requirement_candidate("users CAN export reports", &none, true));
}
