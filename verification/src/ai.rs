//! Requirement review suggestions. The offline provider's rule-based
//! suggestions live here, together with the decisions of the model
//! transport (retries, format fallback, validation rounds) and the checks on
//! a model's output. Sending requests is left to the caller.
use vstd::prelude::*;
use crate::requirements::{
    flag_kind_name, category_name, priority_name, QualityFlagKind, QualityFlagView,
    Requirement, RequirementCategory, RequirementError, RequirementPriority, RequirementReport,
    RequirementView, requirement_views, requirement_error_message,
};
use crate::text::{
    chars_of, decimal, decimal_string, drop_leading, excerpt, excerpt_string, owned,
    strip_prefix, strip_prefix_str, string_of, string_views, trim, trim_chars, CharClass,
    ends_with, slice_vec, strip_trailing,
};

verus! {

/// Which model provider answers.
#[derive(Clone, Copy, PartialEq, Eq, Structural, Debug)]
pub enum AiProviderKind {
    /// The offline, rule-based provider (the default).
    Mock,
    OpenaiCompatible,
    Ollama,
}

impl Default for AiProviderKind {
    fn default() -> (r: AiProviderKind)
        ensures
            r == AiProviderKind::Mock,
    {
        AiProviderKind::Mock
    }
}

pub open spec fn provider_name(k: AiProviderKind) -> Seq<char> {
    match k {
        AiProviderKind::Mock => "mock"@,
        AiProviderKind::OpenaiCompatible => "openai-compatible"@,
        AiProviderKind::Ollama => "ollama"@,
    }
}

impl AiProviderKind {
    /// The command-line name of the provider.
    pub fn name(self) -> (r: &'static str)
        ensures
            r@ == provider_name(self),
    {
        match self {
            AiProviderKind::Mock => "mock",
            AiProviderKind::OpenaiCompatible => "openai-compatible",
            AiProviderKind::Ollama => "ollama",
        }
    }
}

/// The kind of a suggestion.
#[derive(Clone, Copy, PartialEq, Eq, Structural, Debug)]
pub enum SuggestionType {
    ClarifyRequirement,
    AddAcceptanceCriterion,
    AddNegativeCase,
    AddEvidence,
    ConfirmPriority,
}

/// How pressing a suggestion is.
#[derive(Clone, Copy, PartialEq, Eq, Structural, Debug)]
pub enum SuggestionSeverity {
    Info,
    Warning,
    High,
}

/// Confidence of an analysis or diagnosis.
#[derive(Clone, Copy, PartialEq, Eq, Structural, Debug)]
pub enum Confidence {
    Low,
    Medium,
    High,
}

pub open spec fn suggestion_type_name(t: SuggestionType) -> Seq<char> {
    match t {
        SuggestionType::ClarifyRequirement => "clarify-requirement"@,
        SuggestionType::AddAcceptanceCriterion => "add-acceptance-criterion"@,
        SuggestionType::AddNegativeCase => "add-negative-case"@,
        SuggestionType::AddEvidence => "add-evidence"@,
        SuggestionType::ConfirmPriority => "confirm-priority"@,
    }
}

impl SuggestionType {
    pub fn name(self) -> (r: &'static str)
        ensures
            r@ == suggestion_type_name(self),
    {
        match self {
            SuggestionType::ClarifyRequirement => "clarify-requirement",
            SuggestionType::AddAcceptanceCriterion => "add-acceptance-criterion",
            SuggestionType::AddNegativeCase => "add-negative-case",
            SuggestionType::AddEvidence => "add-evidence",
            SuggestionType::ConfirmPriority => "confirm-priority",
        }
    }
}

pub open spec fn suggestion_severity_name(s: SuggestionSeverity) -> Seq<char> {
    match s {
        SuggestionSeverity::Info => "info"@,
        SuggestionSeverity::Warning => "warning"@,
        SuggestionSeverity::High => "high"@,
    }
}

impl SuggestionSeverity {
    pub fn name(self) -> (r: &'static str)
        ensures
            r@ == suggestion_severity_name(self),
    {
        match self {
            SuggestionSeverity::Info => "info",
            SuggestionSeverity::Warning => "warning",
            SuggestionSeverity::High => "high",
        }
    }
}

pub open spec fn confidence_name(c: Confidence) -> Seq<char> {
    match c {
        Confidence::Low => "low"@,
        Confidence::Medium => "medium"@,
        Confidence::High => "high"@,
    }
}

impl Confidence {
    pub fn name(self) -> (r: &'static str)
        ensures
            r@ == confidence_name(self),
    {
        match self {
            Confidence::Low => "low",
            Confidence::Medium => "medium",
            Confidence::High => "high",
        }
    }
}

/// Why an analysis through a provider failed.
#[derive(Debug)]
pub enum AiError {
    Requirements(RequirementError),
    MissingConfig { provider: String, message: String },
    Http { provider: String, status: u16, detail: String },
    Network { provider: String, message: String },
    InvalidResponse { provider: String, message: String },
}

pub open spec fn ai_error_message(e: AiError) -> Seq<char> {
    match e {
        AiError::Requirements(r) => requirement_error_message(r),
        AiError::MissingConfig { provider, message } => provider@ + " provider is not configured: "@
            + message@,
        AiError::Http { provider, status, detail } => provider@ + " request failed with HTTP "@
            + decimal(status as nat) + ": "@ + detail@,
        AiError::Network { provider, message } => provider@ + " request failed: "@ + message@,
        AiError::InvalidResponse { provider, message } => provider@
            + " returned an unusable response: "@ + message@,
    }
}

impl AiError {
    /// The error's message.
    pub fn message(&self) -> (r: String)
        ensures
            r@ == ai_error_message(*self),
    {
        match self {
            AiError::Requirements(e) => e.message(),
            AiError::MissingConfig { provider, message } => {
                let mut r = provider.clone();
                r.append(" provider is not configured: ");
                r.append(message.as_str());
                r
            },
            AiError::Http { provider, status, detail } => {
                let mut r = provider.clone();
                r.append(" request failed with HTTP ");
                let d = decimal_string(*status as u128);
                r.append(d.as_str());
                r.append(": ");
                r.append(detail.as_str());
                r
            },
            AiError::Network { provider, message } => {
                let mut r = provider.clone();
                r.append(" request failed: ");
                r.append(message.as_str());
                r
            },
            AiError::InvalidResponse { provider, message } => {
                let mut r = provider.clone();
                r.append(" returned an unusable response: ");
                r.append(message.as_str());
                r
            },
        }
    }
}

/// Who answered.
#[derive(Debug)]
pub struct AiProviderInfo {
    pub kind: AiProviderKind,
    pub name: String,
    pub model: String,
    pub configured: bool,
    pub offline: bool,
}

/// Token usage reported by a provider.
#[derive(Debug)]
pub struct AiUsage {
    pub prompt_tokens: u64,
    pub completion_tokens: u64,
    pub total_tokens: u64,
}

/// How the answer was obtained.
#[derive(Debug)]
pub struct AiTransportInfo {
    /// HTTP requests sent; 0 for a cache hit or the offline provider.
    pub attempts: u32,
    pub cache_hit: bool,
    pub usage: Option<AiUsage>,
}

/// What was asked.
#[derive(Debug)]
pub struct AiRequestPreview {
    pub task: String,
    pub requirement_count: usize,
    pub schema_name: String,
    pub prompt_excerpt: String,
}

/// One improvement suggestion.
#[derive(Debug)]
pub struct AiSuggestion {
    pub requirement_id: String,
    pub suggestion_type: SuggestionType,
    pub severity: SuggestionSeverity,
    pub message: String,
    pub rationale: String,
}

/// The suggestions of one analysis.
#[derive(Debug)]
pub struct AiModelOutput {
    pub summary: String,
    pub suggestions: Vec<AiSuggestion>,
    pub follow_up_questions: Vec<String>,
    pub confidence: Confidence,
}

/// The full analysis.
#[derive(Debug)]
pub struct AiAnalysisReport {
    pub provider: AiProviderInfo,
    pub transport: AiTransportInfo,
    pub base_report: RequirementReport,
    pub request: AiRequestPreview,
    pub model_output: AiModelOutput,
}

/// Options of an analysis; no cache directory disables the response cache.
#[derive(Debug, Default)]
pub struct AiOptions {
    pub cache_dir: Option<String>,
}

pub struct SuggestionView {
    pub requirement_id: Seq<char>,
    pub suggestion_type: SuggestionType,
    pub severity: SuggestionSeverity,
    pub message: Seq<char>,
    pub rationale: Seq<char>,
}

impl View for AiSuggestion {
    type V = SuggestionView;

    open spec fn view(&self) -> SuggestionView {
        SuggestionView {
            requirement_id: self.requirement_id@,
            suggestion_type: self.suggestion_type,
            severity: self.severity,
            message: self.message@,
            rationale: self.rationale@,
        }
    }
}

pub open spec fn suggestion_views(v: Seq<AiSuggestion>) -> Seq<SuggestionView> {
    v.map_values(|s: AiSuggestion| s@)
}

// ---------------------------------------------------------------------------
// Offline provider
// ---------------------------------------------------------------------------

/// The suggestion for one quality flag.
pub open spec fn flag_suggestion(id: Seq<char>, kind: QualityFlagKind) -> SuggestionView {
    match kind {
        QualityFlagKind::VagueLanguage => SuggestionView {
            requirement_id: id,
            suggestion_type: SuggestionType::ClarifyRequirement,
            severity: SuggestionSeverity::High,
            message: "将模糊描述改写成可量化的验收条件。"@,
            rationale: "模糊词会导致自动测试无法判断通过或失败。"@,
        },
        QualityFlagKind::MissingObservableResult => SuggestionView {
            requirement_id: id,
            suggestion_type: SuggestionType::AddEvidence,
            severity: SuggestionSeverity::Warning,
            message: "补充可观察结果,例如页面提示、返回值、日志或状态变化。"@,
            rationale: "没有可观察结果时,测试执行器无法收集有效证据。"@,
        },
        QualityFlagKind::TooBroad => SuggestionView {
            requirement_id: id,
            suggestion_type: SuggestionType::ClarifyRequirement,
            severity: SuggestionSeverity::High,
            message: "把该需求拆分成多个单一职责的需求。"@,
            rationale: "过宽需求会让失败定位不清晰,也难以生成精确补丁建议。"@,
        },
    }
}

/// The suggestion asking to confirm an unknown priority.
pub open spec fn priority_suggestions(r: RequirementView) -> Seq<SuggestionView> {
    if r.priority == RequirementPriority::Unknown {
        seq![
            SuggestionView {
                requirement_id: r.id,
                suggestion_type: SuggestionType::ConfirmPriority,
                severity: SuggestionSeverity::Info,
                message: "补充该需求的优先级,例如必须、应该或可以。"@,
                rationale: "优先级会影响测试计划排序和缺陷严重程度判断。"@,
            },
        ]
    } else {
        Seq::<SuggestionView>::empty()
    }
}

/// Adds a negative-case suggestion for security, API and data requirements.
pub open spec fn with_negative_case(r: RequirementView, s: Seq<SuggestionView>) -> Seq<SuggestionView> {
    if r.category == RequirementCategory::Security || r.category == RequirementCategory::Api
        || r.category == RequirementCategory::Data {
        s.push(
            SuggestionView {
                requirement_id: r.id,
                suggestion_type: SuggestionType::AddNegativeCase,
                severity: SuggestionSeverity::Warning,
                message: "增加异常输入、权限不足或失败响应的负向测试。"@,
                rationale: "这类需求通常需要验证失败路径,避免只覆盖理想流程。"@,
            },
        )
    } else {
        s
    }
}

/// Adds a suggestion for more criteria when there are fewer than two.
pub open spec fn with_more_criteria(r: RequirementView, s: Seq<SuggestionView>) -> Seq<SuggestionView> {
    if r.acceptance_criteria.len() < 2 {
        s.push(
            SuggestionView {
                requirement_id: r.id,
                suggestion_type: SuggestionType::AddAcceptanceCriterion,
                severity: SuggestionSeverity::Info,
                message: "考虑补充边界条件或回归场景的验收标准。"@,
                rationale: "单条验收标准通常只能覆盖主路径。"@,
            },
        )
    } else {
        s
    }
}

/// Rule-based suggestions for one requirement: confirm an unknown priority,
/// one per quality flag, a negative case for security/API/data requirements,
/// and more criteria when there are fewer than two.
pub open spec fn suggestions_spec(r: RequirementView) -> Seq<SuggestionView> {
    with_more_criteria(
        r,
        with_negative_case(
            r,
            priority_suggestions(r) + r.quality_flags.map_values(
                |f: QualityFlagView| flag_suggestion(r.id, f.kind),
            ),
        ),
    )
}

fn suggestion(
    id: &String,
    suggestion_type: SuggestionType,
    severity: SuggestionSeverity,
    message: &str,
    rationale: &str,
) -> (r: AiSuggestion)
    ensures
        r@ == (SuggestionView {
            requirement_id: id@,
            suggestion_type,
            severity,
            message: message@,
            rationale: rationale@,
        }),
{
    AiSuggestion {
        requirement_id: id.clone(),
        suggestion_type,
        severity,
        message: owned(message),
        rationale: owned(rationale),
    }
}

fn flag_suggestion_exec(id: &String, kind: QualityFlagKind) -> (r: AiSuggestion)
    ensures
        r@ == flag_suggestion(id@, kind),
{
    match kind {
        QualityFlagKind::VagueLanguage => suggestion(
            id,
            SuggestionType::ClarifyRequirement,
            SuggestionSeverity::High,
            "将模糊描述改写成可量化的验收条件。",
            "模糊词会导致自动测试无法判断通过或失败。",
        ),
        QualityFlagKind::MissingObservableResult => suggestion(
            id,
            SuggestionType::AddEvidence,
            SuggestionSeverity::Warning,
            "补充可观察结果,例如页面提示、返回值、日志或状态变化。",
            "没有可观察结果时,测试执行器无法收集有效证据。",
        ),
        QualityFlagKind::TooBroad => suggestion(
            id,
            SuggestionType::ClarifyRequirement,
            SuggestionSeverity::High,
            "把该需求拆分成多个单一职责的需求。",
            "过宽需求会让失败定位不清晰,也难以生成精确补丁建议。",
        ),
    }
}

/// The offline provider's suggestions for one requirement.
pub fn suggestions_for_requirement(requirement: &Requirement) -> (r: Vec<AiSuggestion>)
    ensures
        suggestion_views(r@) == suggestions_spec(requirement@),
{
    let ghost rv = requirement@;
    let mut out: Vec<AiSuggestion> = Vec::new();
    if requirement.priority == RequirementPriority::Unknown {
        out.push(
            suggestion(
                &requirement.id,
                SuggestionType::ConfirmPriority,
                SuggestionSeverity::Info,
                "补充该需求的优先级,例如必须、应该或可以。",
                "优先级会影响测试计划排序和缺陷严重程度判断。",
            ),
        );
    }
    let ghost a = suggestion_views(out@);
    assert(a == priority_suggestions(rv));
    let mut i: usize = 0;
    while i < requirement.quality_flags.len()
        invariant
            i <= requirement.quality_flags@.len(),
            rv == requirement@,
            suggestion_views(out@) == a + rv.quality_flags.take(i as int).map_values(
                |f: QualityFlagView| flag_suggestion(rv.id, f.kind),
            ),
        decreases requirement.quality_flags.len() - i,
    {
        let s = flag_suggestion_exec(&requirement.id, requirement.quality_flags[i].kind);
        let ghost before = out@;
        let ghost sv = s@;
        out.push(s);
        assert(suggestion_views(out@) == suggestion_views(before).push(sv));
        assert(rv.quality_flags.take(i + 1) == rv.quality_flags.take(i as int).push(
            rv.quality_flags[i as int],
        ));
        i = i + 1;
    }
    assert(rv.quality_flags.take(rv.quality_flags.len() as int) == rv.quality_flags);
    let ghost b = suggestion_views(out@);
    assert(b == a + rv.quality_flags.map_values(
        |f: QualityFlagView| flag_suggestion(rv.id, f.kind),
    ));
    if requirement.category == RequirementCategory::Security || requirement.category
        == RequirementCategory::Api || requirement.category == RequirementCategory::Data {
        out.push(
            suggestion(
                &requirement.id,
                SuggestionType::AddNegativeCase,
                SuggestionSeverity::Warning,
                "增加异常输入、权限不足或失败响应的负向测试。",
                "这类需求通常需要验证失败路径,避免只覆盖理想流程。",
            ),
        );
    }
    let ghost c = suggestion_views(out@);
    assert(c == with_negative_case(rv, b));
    if requirement.acceptance_criteria.len() < 2 {
        out.push(
            suggestion(
                &requirement.id,
                SuggestionType::AddAcceptanceCriterion,
                SuggestionSeverity::Info,
                "考虑补充边界条件或回归场景的验收标准。",
                "单条验收标准通常只能覆盖主路径。",
            ),
        );
    }
    assert(suggestion_views(out@) == with_more_criteria(rv, c));
    out
}

/// Follow-up questions: ask for documents when nothing was extracted;
/// otherwise ask for thresholds when clarification is suggested and for the
/// module when a requirement's category is unknown; else offer next steps.
pub open spec fn follow_up_spec(rs: Seq<RequirementView>, ss: Seq<SuggestionView>) -> Seq<Seq<char>> {
    if rs.len() == 0 {
        seq!["是否有独立的 PRD、需求说明或用户故事文档可以提供?"@]
    } else {
        let a = if exists|i: int|
            0 <= i < ss.len() && (#[trigger] ss[i]).suggestion_type
                == SuggestionType::ClarifyRequirement {
            seq!["哪些需求需要用户确认具体阈值、页面状态或错误提示文案?"@]
        } else {
            Seq::<Seq<char>>::empty()
        };
        let b = if exists|i: int|
            0 <= i < rs.len() && (#[trigger] rs[i]).category == RequirementCategory::Unknown {
            a.push("是否需要补充需求所属模块,以便后续定位功能入口?"@)
        } else {
            a
        };
        if b.len() == 0 {
            seq!["是否要把这些建议转换成下一阶段的可执行测试计划?"@]
        } else {
            b
        }
    }
}

/// Follow-up questions for the user.
pub fn build_follow_up_questions(report: &RequirementReport, suggestions: &Vec<AiSuggestion>) -> (r:
    Vec<String>)
    ensures
        string_views(r@) == follow_up_spec(
            requirement_views(report.requirements@),
            suggestion_views(suggestions@),
        ),
{
    let ghost rs = requirement_views(report.requirements@);
    let ghost ss = suggestion_views(suggestions@);
    let mut questions: Vec<String> = Vec::new();
    if report.requirements.len() == 0 {
        questions.push(owned("是否有独立的 PRD、需求说明或用户故事文档可以提供?"));
        assert(string_views(questions@) =~= follow_up_spec(rs, ss));
        return questions;
    }
    let mut clarify = false;
    let mut i: usize = 0;
    while i < suggestions.len()
        invariant
            i <= suggestions@.len(),
            ss == suggestion_views(suggestions@),
            clarify == exists|j: int|
                0 <= j < i && (#[trigger] ss[j]).suggestion_type
                    == SuggestionType::ClarifyRequirement,
        decreases suggestions.len() - i,
    {
        if suggestions[i].suggestion_type == SuggestionType::ClarifyRequirement {
            assert(ss[i as int].suggestion_type == SuggestionType::ClarifyRequirement);
            clarify = true;
        }
        i = i + 1;
    }
    if clarify {
        questions.push(owned("哪些需求需要用户确认具体阈值、页面状态或错误提示文案?"));
    }
    let mut unknown = false;
    let mut k: usize = 0;
    while k < report.requirements.len()
        invariant
            k <= report.requirements@.len(),
            rs == requirement_views(report.requirements@),
            unknown == exists|j: int|
                0 <= j < k && (#[trigger] rs[j]).category == RequirementCategory::Unknown,
        decreases report.requirements.len() - k,
    {
        if report.requirements[k].category == RequirementCategory::Unknown {
            assert(rs[k as int].category == RequirementCategory::Unknown);
            unknown = true;
        }
        k = k + 1;
    }
    if unknown {
        questions.push(owned("是否需要补充需求所属模块,以便后续定位功能入口?"));
    }
    if questions.len() == 0 {
        questions.push(owned("是否要把这些建议转换成下一阶段的可执行测试计划?"));
    }
    assert(string_views(questions@) =~= follow_up_spec(rs, ss));
    questions
}

/// A model answer without surrounding white space and without a Markdown
/// code fence (an opening fence, optionally tagged `json`, and a closing one).
pub open spec fn strip_code_fence_spec(content: Seq<char>) -> Seq<char> {
    let t = trim(content);
    if !crate::text::starts_with(t, "```"@) {
        t
    } else {
        let rest = t.skip(3);
        let rest = match strip_prefix(rest, "json"@) {
            Some(r) => r,
            None => rest,
        };
        let rest = drop_leading(rest, CharClass::LineBreak);
        if ends_with(rest, "```"@) {
            crate::text::drop_trailing(rest.take(rest.len() - 3), CharClass::Whitespace)
        } else {
            rest
        }
    }
}

pub fn strip_code_fence(content: &str) -> (r: String)
    ensures
        r@ == strip_code_fence_spec(content@),
{
    let t = trim_chars(chars_of(content).as_slice());
    if !crate::text::starts_with_str(t.as_slice(), "```") {
        return string_of(t.as_slice());
    }
    proof {
        reveal_strlit("```");
    }
    let rest = slice_vec(t.as_slice(), 3, t.len());
    assert(rest@ == t@.skip(3));
    let rest = match strip_prefix_str(rest.as_slice(), "json") {
        Some(r) => r,
        None => rest,
    };
    let rest = crate::text::strip_leading(rest.as_slice(), CharClass::LineBreak);
    if crate::text::ends_with_str(rest.as_slice(), "```") {
        let body = slice_vec(rest.as_slice(), 0, rest.len() - 3);
        assert(body@ == rest@.take(rest@.len() - 3));
        let trimmed = strip_trailing(body.as_slice(), CharClass::Whitespace);
        string_of(trimmed.as_slice())
    } else {
        string_of(rest.as_slice())
    }
}

// ---------------------------------------------------------------------------
// The offline provider's analysis
// ---------------------------------------------------------------------------

/// The suggestions for every requirement, in order.
pub open spec fn all_suggestions(reqs: Seq<RequirementView>) -> Seq<SuggestionView>
    decreases reqs.len(),
{
    if reqs.len() == 0 {
        Seq::empty()
    } else {
        all_suggestions(reqs.drop_last()) + suggestions_spec(reqs.last())
    }
}

/// Low without requirements, medium when a suggestion is pressing, else high.
pub open spec fn mock_confidence(reqs: Seq<RequirementView>, ss: Seq<SuggestionView>) -> Confidence {
    if reqs.len() == 0 {
        Confidence::Low
    } else if exists|i: int| 0 <= i < ss.len() && (#[trigger] ss[i]).severity == SuggestionSeverity::High {
        Confidence::Medium
    } else {
        Confidence::High
    }
}

pub open spec fn mock_summary(requirements: nat, suggestions: nat) -> Seq<char> {
    "Mock provider reviewed "@ + decimal(requirements) + " requirement(s) and produced "@ + decimal(suggestions)
        + " suggestion(s)."@
}

/// The offline provider's review: rule-based suggestions for each
/// requirement, follow-up questions, a summary and a confidence.
pub fn mock_analyze(report: &RequirementReport) -> (r: AiModelOutput)
    ensures
        suggestion_views(r.suggestions@) == all_suggestions(requirement_views(report.requirements@)),
        string_views(r.follow_up_questions@) == follow_up_spec(
            requirement_views(report.requirements@),
            suggestion_views(r.suggestions@),
        ),
        r.confidence == mock_confidence(requirement_views(report.requirements@), suggestion_views(r.suggestions@)),
        r.summary@ == mock_summary(report.requirements@.len(), r.suggestions@.len()),
{
    let ghost rs = requirement_views(report.requirements@);
    let mut suggestions: Vec<AiSuggestion> = Vec::new();
    let mut i: usize = 0;
    while i < report.requirements.len()
        invariant
            i <= report.requirements@.len(),
            rs == requirement_views(report.requirements@),
            suggestion_views(suggestions@) == all_suggestions(rs.take(i as int)),
        decreases report.requirements.len() - i,
    {
        let ghost before = suggestion_views(suggestions@);
        let mut more = suggestions_for_requirement(&report.requirements[i]);
        let ghost mv = more@;
        let ghost raw = suggestions@;
        suggestions.append(&mut more);
        assert(suggestions@ =~= raw + mv);
        assert(suggestion_views(suggestions@) =~= before + suggestion_views(mv));
        assert(rs.take(i + 1).drop_last() == rs.take(i as int));
        assert(rs.take(i + 1).last() == report.requirements@[i as int]@);
        i = i + 1;
    }
    assert(rs.take(rs.len() as int) == rs);
    let follow_up_questions = build_follow_up_questions(report, &suggestions);
    let ghost ss = suggestion_views(suggestions@);
    let mut high = false;
    let mut k: usize = 0;
    while k < suggestions.len()
        invariant
            k <= suggestions@.len(),
            ss == suggestion_views(suggestions@),
            high == exists|j: int| 0 <= j < k && (#[trigger] ss[j]).severity == SuggestionSeverity::High,
        decreases suggestions.len() - k,
    {
        if suggestions[k].severity == SuggestionSeverity::High {
            assert(ss[k as int].severity == SuggestionSeverity::High);
            high = true;
        }
        k = k + 1;
    }
    let confidence = if report.requirements.len() == 0 {
        Confidence::Low
    } else if high {
        Confidence::Medium
    } else {
        Confidence::High
    };
    let mut summary = owned("Mock provider reviewed ");
    let a = decimal_string(report.requirements.len() as u128);
    summary.append(a.as_str());
    summary.append(" requirement(s) and produced ");
    let b = decimal_string(suggestions.len() as u128);
    summary.append(b.as_str());
    summary.append(" suggestion(s).");
    AiModelOutput { summary, suggestions, follow_up_questions, confidence }
}

// ---------------------------------------------------------------------------
// Providers
// ---------------------------------------------------------------------------

pub const DEFAULT_OPENAI_BASE_URL: &'static str = "https://api.openai.com/v1";

pub const DEFAULT_OLLAMA_BASE_URL: &'static str = "http://127.0.0.1:11434";

/// The offline provider.
pub fn mock_info() -> (r: AiProviderInfo)
    ensures
        r.kind == AiProviderKind::Mock && r.name@ == "Deterministic Mock Provider"@ && r.model@ == "mock-v1"@,
        r.configured && r.offline,
{
    AiProviderInfo {
        kind: AiProviderKind::Mock,
        name: owned("Deterministic Mock Provider"),
        model: owned("mock-v1"),
        configured: true,
        offline: true,
    }
}

/// An OpenAI-compatible endpoint and its credentials.
#[derive(Debug)]
pub struct OpenAiCompatibleProvider {
    pub api_key: Option<String>,
    pub base_url: String,
    pub model: Option<String>,
}

/// A local Ollama server.
#[derive(Debug)]
pub struct OllamaProvider {
    pub base_url: String,
    pub model: Option<String>,
}

/// How to talk to a chat endpoint. Request bodies and answers are shaped by
/// the caller; `supports_format_fallback` allows dropping the JSON response
/// format when the endpoint rejects it.
#[derive(Debug)]
pub struct ChatProtocol {
    pub provider: String,
    pub endpoint: String,
    pub api_key: Option<String>,
    pub model: String,
    pub supports_format_fallback: bool,
}

pub open spec fn endpoint_spec(base_url: Seq<char>, path: Seq<char>) -> Seq<char> {
    crate::text::drop_trailing(base_url, CharClass::Slash) + path
}

fn endpoint(base_url: &str, path: &str) -> (r: String)
    ensures
        r@ == endpoint_spec(base_url@, path@),
{
    let b = strip_trailing(chars_of(base_url).as_slice(), CharClass::Slash);
    let mut r = string_of(b.as_slice());
    r.append(path);
    r
}

pub open spec fn missing_config(e: AiError, provider: Seq<char>, message: Seq<char>) -> bool {
    match e {
        AiError::MissingConfig { provider: p, message: m } => p@ == provider && m@ == message,
        _ => false,
    }
}

impl OpenAiCompatibleProvider {
    /// The provider from its settings; the base URL defaults to OpenAI's.
    pub fn from_values(api_key: Option<String>, base_url: Option<String>, model: Option<String>) -> (r: Self)
        ensures
            r.api_key == api_key && r.model == model,
            r.base_url@ == match base_url {
                Some(u) => u@,
                None => DEFAULT_OPENAI_BASE_URL@,
            },
    {
        let base_url = match base_url {
            Some(u) => u,
            None => owned(DEFAULT_OPENAI_BASE_URL),
        };
        OpenAiCompatibleProvider { api_key, base_url, model }
    }

    /// Configured when both a key and a model are set.
    pub fn info(&self) -> (r: AiProviderInfo)
        ensures
            r.kind == AiProviderKind::OpenaiCompatible && r.name@ == "OpenAI-compatible Provider"@,
            r.model@ == match self.model {
                Some(m) => m@,
                None => "not configured"@,
            },
            r.configured == (self.api_key is Some && self.model is Some),
            !r.offline,
    {
        AiProviderInfo {
            kind: AiProviderKind::OpenaiCompatible,
            name: owned("OpenAI-compatible Provider"),
            model: match &self.model {
                Some(m) => m.clone(),
                None => owned("not configured"),
            },
            configured: self.api_key.is_some() && self.model.is_some(),
            offline: false,
        }
    }

    /// The chat protocol; a missing key or model is an error.
    pub fn chat_protocol(&self) -> (r: Result<ChatProtocol, AiError>)
        ensures
            match r {
                Ok(p) => {
                    &&& self.api_key is Some && self.model is Some
                    &&& p.provider@ == "OpenAI-compatible"@
                    &&& p.endpoint@ == endpoint_spec(self.base_url@, "/chat/completions"@)
                    &&& p.api_key == self.api_key
                    &&& p.model == self.model.unwrap()
                    &&& p.supports_format_fallback
                },
                Err(e) => if self.api_key is None {
                    missing_config(e, "OpenAI-compatible"@, "set OPENAI_API_KEY before using this provider"@)
                } else {
                    self.model is None && missing_config(
                        e,
                        "OpenAI-compatible"@,
                        "set OPENAI_MODEL before using this provider"@,
                    )
                },
            },
    {
        let api_key = match &self.api_key {
            Some(k) => k.clone(),
            None => {
                return Err(
                    AiError::MissingConfig {
                        provider: owned("OpenAI-compatible"),
                        message: owned("set OPENAI_API_KEY before using this provider"),
                    },
                );
            },
        };
        let model = match &self.model {
            Some(m) => m.clone(),
            None => {
                return Err(
                    AiError::MissingConfig {
                        provider: owned("OpenAI-compatible"),
                        message: owned("set OPENAI_MODEL before using this provider"),
                    },
                );
            },
        };
        Ok(
            ChatProtocol {
                provider: owned("OpenAI-compatible"),
                endpoint: endpoint(self.base_url.as_str(), "/chat/completions"),
                api_key: Some(api_key),
                model,
                supports_format_fallback: true,
            },
        )
    }
}

impl OllamaProvider {
    /// The provider from its settings; the base URL defaults to a local server.
    pub fn from_values(base_url: Option<String>, model: Option<String>) -> (r: Self)
        ensures
            r.model == model,
            r.base_url@ == match base_url {
                Some(u) => u@,
                None => DEFAULT_OLLAMA_BASE_URL@,
            },
    {
        let base_url = match base_url {
            Some(u) => u,
            None => owned(DEFAULT_OLLAMA_BASE_URL),
        };
        OllamaProvider { base_url, model }
    }

    /// Configured when a model is set.
    pub fn info(&self) -> (r: AiProviderInfo)
        ensures
            r.kind == AiProviderKind::Ollama && r.name@ == "Ollama Provider"@,
            r.model@ == match self.model {
                Some(m) => m@,
                None => "not configured"@,
            },
            r.configured == self.model is Some,
            !r.offline,
    {
        AiProviderInfo {
            kind: AiProviderKind::Ollama,
            name: owned("Ollama Provider"),
            model: match &self.model {
                Some(m) => m.clone(),
                None => owned("not configured"),
            },
            configured: self.model.is_some(),
            offline: false,
        }
    }

    /// The chat protocol; a missing model is an error.
    pub fn chat_protocol(&self) -> (r: Result<ChatProtocol, AiError>)
        ensures
            match r {
                Ok(p) => {
                    &&& self.model is Some
                    &&& p.provider@ == "Ollama"@
                    &&& p.endpoint@ == endpoint_spec(self.base_url@, "/api/chat"@)
                    &&& p.api_key is None
                    &&& p.model == self.model.unwrap()
                    &&& !p.supports_format_fallback
                },
                Err(e) => self.model is None && missing_config(e, "Ollama"@, "set OLLAMA_MODEL before using this provider"@),
            },
    {
        let model = match &self.model {
            Some(m) => m.clone(),
            None => {
                return Err(
                    AiError::MissingConfig {
                        provider: owned("Ollama"),
                        message: owned("set OLLAMA_MODEL before using this provider"),
                    },
                );
            },
        };
        Ok(
            ChatProtocol {
                provider: owned("Ollama"),
                endpoint: endpoint(self.base_url.as_str(), "/api/chat"),
                api_key: None,
                model,
                supports_format_fallback: false,
            },
        )
    }
}

/// The chat protocol of a provider; the offline provider has none.
pub fn chat_protocol_for(kind: AiProviderKind, openai: &OpenAiCompatibleProvider, ollama: &OllamaProvider) -> (r: Result<
    Option<ChatProtocol>,
    AiError,
>)
    ensures
        kind == AiProviderKind::Mock ==> r matches Ok(None),
        kind == AiProviderKind::OpenaiCompatible ==> match r {
            Ok(Some(p)) => openai.api_key is Some && openai.model is Some && p.endpoint@ == endpoint_spec(openai.base_url@, "/chat/completions"@),
            Err(_) => openai.api_key is None || openai.model is None,
            Ok(None) => false,
        },
        kind == AiProviderKind::Ollama ==> match r {
            Ok(Some(p)) => ollama.model is Some && p.endpoint@ == endpoint_spec(ollama.base_url@, "/api/chat"@),
            Err(_) => ollama.model is None,
            Ok(None) => false,
        },
{
    match kind {
        AiProviderKind::Mock => Ok(None),
        AiProviderKind::OpenaiCompatible => match openai.chat_protocol() {
            Ok(p) => Ok(Some(p)),
            Err(e) => Err(e),
        },
        AiProviderKind::Ollama => match ollama.chat_protocol() {
            Ok(p) => Ok(Some(p)),
            Err(e) => Err(e),
        },
    }
}

// ---------------------------------------------------------------------------
// Requests
// ---------------------------------------------------------------------------

/// The instructions given to the model for a requirement review.
pub const REVIEW_SYSTEM_PROMPT: &'static str = "You are a software requirements analyst inside an evidence-driven testing tool.\nReview the extracted requirements and produce improvement suggestions.\n\nRespond with a single JSON object and nothing else, matching this schema exactly:\n{\n  \"summary\": string,\n  \"suggestions\": [\n    {\n      \"requirement_id\": string,  // must be an id that appears in the input list\n      \"suggestion_type\": \"clarify_requirement\" | \"add_acceptance_criterion\" | \"add_negative_case\" | \"add_evidence\" | \"confirm_priority\",\n      \"severity\": \"info\" | \"warning\" | \"high\",\n      \"message\": string,\n      \"rationale\": string\n    }\n  ],\n  \"follow_up_questions\": [string],\n  \"confidence\": \"low\" | \"medium\" | \"high\"\n}\n\nRules:\n- Write summary, message, rationale and follow_up_questions in the same language as the requirements (Chinese requirements get Chinese text).\n- Focus on testability: vague wording, missing observable results, missing negative cases, missing evidence.\n- Do not invent requirement ids. Do not wrap the JSON in markdown fences.";

pub open spec fn criteria_lines(cs: Seq<crate::requirements::AcceptanceCriterionView>) -> Seq<char>
    decreases cs.len(),
{
    if cs.len() == 0 {
        Seq::empty()
    } else {
        criteria_lines(cs.drop_last()) + "  acceptance "@ + cs.last().id + ": "@ + cs.last().statement + "\n"@
    }
}

pub open spec fn flag_lines(fs: Seq<QualityFlagView>) -> Seq<char>
    decreases fs.len(),
{
    if fs.len() == 0 {
        Seq::empty()
    } else {
        flag_lines(fs.drop_last()) + "  quality_flag "@ + flag_kind_name(fs.last().kind) + ": "@ + fs.last().message + "\n"@
    }
}

/// A requirement in the review request: its id, priority, category and
/// description, then its criteria and quality flags.
pub open spec fn requirement_block(r: RequirementView) -> Seq<char> {
    r.id + " [priority="@ + priority_name(r.priority) + " / category="@ + category_name(r.category) + "] "@
        + r.description + "\n"@ + criteria_lines(r.acceptance_criteria) + flag_lines(r.quality_flags)
}

pub open spec fn requirement_blocks(rs: Seq<RequirementView>) -> Seq<char>
    decreases rs.len(),
{
    if rs.len() == 0 {
        Seq::empty()
    } else {
        requirement_blocks(rs.drop_last()) + requirement_block(rs.last())
    }
}

pub open spec fn review_prompt(rs: Seq<RequirementView>) -> Seq<char> {
    "Extracted requirements to review:\n\n"@ + requirement_blocks(rs) + if rs.len() == 0 {
        "(no requirements were extracted)\n"@
    } else {
        Seq::<char>::empty()
    }
}

fn requirement_block_text(req: &Requirement, out: &mut String)
    ensures
        final(out)@ == old(out)@ + requirement_block(req@),
{
    out.append(req.id.as_str());
    out.append(" [priority=");
    out.append(req.priority.name());
    out.append(" / category=");
    out.append(req.category.name());
    out.append("] ");
    out.append(req.description.as_str());
    out.append("\n");
    let ghost head = out@;
    let ghost cs = req@.acceptance_criteria;
    let mut i: usize = 0;
    while i < req.acceptance_criteria.len()
        invariant
            i <= req.acceptance_criteria@.len(),
            cs == req@.acceptance_criteria,
            out@ == head + criteria_lines(cs.take(i as int)),
        decreases req.acceptance_criteria.len() - i,
    {
        let c = &req.acceptance_criteria[i];
        out.append("  acceptance ");
        out.append(c.id.as_str());
        out.append(": ");
        out.append(c.statement.as_str());
        out.append("\n");
        assert(cs.take(i + 1).drop_last() == cs.take(i as int));
        assert(cs.take(i + 1).last() == c@);
        i = i + 1;
    }
    assert(cs.take(cs.len() as int) == cs);
    let ghost mid = out@;
    let ghost fs = req@.quality_flags;
    let mut k: usize = 0;
    while k < req.quality_flags.len()
        invariant
            k <= req.quality_flags@.len(),
            fs == req@.quality_flags,
            out@ == mid + flag_lines(fs.take(k as int)),
        decreases req.quality_flags.len() - k,
    {
        let f = &req.quality_flags[k];
        out.append("  quality_flag ");
        out.append(f.kind.name());
        out.append(": ");
        out.append(f.message.as_str());
        out.append("\n");
        assert(fs.take(k + 1).drop_last() == fs.take(k as int));
        assert(fs.take(k + 1).last() == f@);
        k = k + 1;
    }
    assert(fs.take(fs.len() as int) == fs);
}

/// The review request for a requirement report.
pub fn build_prompt(report: &RequirementReport) -> (r: String)
    ensures
        r@ == review_prompt(requirement_views(report.requirements@)),
{
    let ghost rs = requirement_views(report.requirements@);
    let mut p = owned("Extracted requirements to review:\n\n");
    let ghost head = p@;
    let mut i: usize = 0;
    while i < report.requirements.len()
        invariant
            i <= report.requirements@.len(),
            rs == requirement_views(report.requirements@),
            p@ == head + requirement_blocks(rs.take(i as int)),
        decreases report.requirements.len() - i,
    {
        requirement_block_text(&report.requirements[i], &mut p);
        assert(rs.take(i + 1).drop_last() == rs.take(i as int));
        assert(rs.take(i + 1).last() == report.requirements@[i as int]@);
        i = i + 1;
    }
    assert(rs.take(rs.len() as int) == rs);
    if report.requirements.len() == 0 {
        p.append("(no requirements were extracted)\n");
    }
    p
}

/// Characters of the request shown in a preview.
pub const PROMPT_EXCERPT_LIMIT: usize = 360;

/// What an analysis asks for.
pub fn build_request_preview(report: &RequirementReport) -> (r: AiRequestPreview)
    ensures
        r.task@ == "enhance_requirement_analysis"@,
        r.requirement_count == report.requirements@.len(),
        r.schema_name@ == "AiModelOutput"@,
        r.prompt_excerpt@ == excerpt(review_prompt(requirement_views(report.requirements@)), PROMPT_EXCERPT_LIMIT as nat),
{
    let prompt = build_prompt(report);
    AiRequestPreview {
        task: owned("enhance_requirement_analysis"),
        requirement_count: report.requirements.len(),
        schema_name: owned("AiModelOutput"),
        prompt_excerpt: excerpt_string(chars_of(prompt.as_str()).as_slice(), PROMPT_EXCERPT_LIMIT),
    }
}

// ---------------------------------------------------------------------------
// Checking a model's output
// ---------------------------------------------------------------------------

/// The requirement ids of suggestions that name no known requirement, in order.
pub open spec fn unknown_ids(ss: Seq<SuggestionView>, known: Seq<Seq<char>>) -> Seq<Seq<char>>
    decreases ss.len(),
{
    if ss.len() == 0 {
        Seq::empty()
    } else {
        let prev = unknown_ids(ss.drop_last(), known);
        if known.contains(ss.last().requirement_id) {
            prev
        } else {
            prev.push(ss.last().requirement_id)
        }
    }
}

/// The suggestions that name a known requirement, in order.
pub open spec fn known_suggestions(ss: Seq<SuggestionView>, known: Seq<Seq<char>>) -> Seq<SuggestionView>
    decreases ss.len(),
{
    if ss.len() == 0 {
        Seq::empty()
    } else {
        let prev = known_suggestions(ss.drop_last(), known);
        if known.contains(ss.last().requirement_id) {
            prev.push(ss.last())
        } else {
            prev
        }
    }
}

pub open spec fn report_ids(report: RequirementReport) -> Seq<Seq<char>> {
    requirement_views(report.requirements@).map_values(|r: RequirementView| r.id)
}

fn is_known_id(report: &RequirementReport, id: &str) -> (r: bool)
    ensures
        r == report_ids(*report).contains(id@),
{
    let ghost ids = report_ids(*report);
    let mut i: usize = 0;
    while i < report.requirements.len()
        invariant
            i <= report.requirements@.len(),
            ids == report_ids(*report),
            forall|q: int| 0 <= q < i ==> ids[q] != id@,
        decreases report.requirements.len() - i,
    {
        assert(ids[i as int] == report.requirements@[i as int].id@);
        if crate::text::str_eq(report.requirements[i].id.as_str(), id) {
            return true;
        }
        i = i + 1;
    }
    false
}

/// Checks that every suggestion names a known requirement. Otherwise the
/// unknown ids are the feedback, unless `lenient`, where those suggestions
/// are dropped.
pub fn validate_model_output(output: AiModelOutput, report: &RequirementReport, lenient: bool) -> (r: Result<AiModelOutput, String>)
    ensures
        match r {
            Ok(o) => {
                &&& o.summary == output.summary
                &&& o.follow_up_questions == output.follow_up_questions
                &&& o.confidence == output.confidence
                &&& (lenient || unknown_ids(suggestion_views(output.suggestions@), report_ids(*report)).len() == 0)
                &&& suggestion_views(o.suggestions@) == known_suggestions(suggestion_views(output.suggestions@), report_ids(*report))
            },
            Err(m) => !lenient && unknown_ids(suggestion_views(output.suggestions@), report_ids(*report)).len() > 0
                && m@ == "suggestions reference unknown requirement ids: "@ + crate::text::join(
                unknown_ids(suggestion_views(output.suggestions@), report_ids(*report)),
                ", "@,
            ),
        },
{
    let ghost ss = suggestion_views(output.suggestions@);
    let ghost ids = report_ids(*report);
    let AiModelOutput { summary, suggestions, follow_up_questions, confidence } = output;
    let mut unknown: Vec<String> = Vec::new();
    let mut kept: Vec<AiSuggestion> = Vec::new();
    let mut rest = suggestions;
    let mut i: usize = 0;
    let n = rest.len();
    let ghost all = rest@;
    while rest.len() > 0
        invariant
            i + rest@.len() == n,
            n == all.len(),
            ss == suggestion_views(all),
            ids == report_ids(*report),
            rest@ == all.skip(i as int),
            string_views(unknown@) == unknown_ids(ss.take(i as int), ids),
            suggestion_views(kept@) == known_suggestions(ss.take(i as int), ids),
        decreases rest.len(),
    {
        let s = rest.remove(0);
        assert(all.skip(i as int)[0] == s);
        assert(ss.take(i + 1).drop_last() == ss.take(i as int));
        assert(ss.take(i + 1).last() == s@);
        assert(rest@ =~= all.skip(i + 1));
        if is_known_id(report, s.requirement_id.as_str()) {
            let ghost before = suggestion_views(kept@);
            kept.push(s);
            assert(suggestion_views(kept@) =~= before.push(ss[i as int]));
        } else {
            let ghost before = string_views(unknown@);
            unknown.push(s.requirement_id.clone());
            assert(string_views(unknown@) =~= before.push(ss[i as int].requirement_id));
        }
        i = i + 1;
    }
    assert(ss.take(n as int) == ss);
    if unknown.len() == 0 {
        proof {
            lemma_no_unknown_keeps_all(ss, ids);
        }
        let r = AiModelOutput { summary, suggestions: kept, follow_up_questions, confidence };
        return Ok(r);
    }
    if lenient {
        return Ok(AiModelOutput { summary, suggestions: kept, follow_up_questions, confidence });
    }
    let mut m = owned("suggestions reference unknown requirement ids: ");
    let joined = crate::text::join_strings(&unknown, ", ");
    m.append(joined.as_str());
    Err(m)
}

/// Without unknown ids, no suggestion is dropped.
pub proof fn lemma_no_unknown_keeps_all(ss: Seq<SuggestionView>, known: Seq<Seq<char>>)
    requires
        unknown_ids(ss, known).len() == 0,
    ensures
        known_suggestions(ss, known) == ss,
    decreases ss.len(),
{
    if ss.len() > 0 {
        lemma_no_unknown_keeps_all(ss.drop_last(), known);
        assert(ss.drop_last().push(ss.last()) =~= ss);
    }
}

} // verus!
