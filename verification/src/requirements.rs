//! Rule-based requirement analysis: Markdown/TXT documents are turned into
//! structured requirements, acceptance criteria, quality flags and a test
//! plan. Reading files is left to the caller; this module works on the text.
use vstd::prelude::*;
use crate::markdown::{
    is_markdown_table_line, is_table_line, parse_heading, parse_heading_spec,
    strip_inline, strip_inline_chars, strip_list_marker, strip_list_marker_spec,
};
use crate::scanner::{components, extension_of, file_extension};
use crate::text::{
    ascii_lower, ascii_lower_chars, ascii_upper, ascii_upper_chars, chars_eq_str, split_chars,
    starts_with, starts_with_str,
    chars_of, contains, contains_any, contains_any_str, contains_str, copy_string, copy_strings,
    drop_trailing, excerpt, excerpt_string, join, join_strings, lines, lines_of, numbered,
    numbered_string, opt_string_view, owned, str_views, string_of, string_views,
    strip_trailing, to_lowercase, trim, trim_chars, unicode_lower, views, CharClass,
};

verus! {

/// Broad area a requirement belongs to.
#[derive(Clone, Copy, PartialEq, Eq, Structural, Debug)]
pub enum RequirementCategory {
    Functional,
    Ui,
    Api,
    Data,
    Security,
    Performance,
    Compatibility,
    NonFunctional,
    Unknown,
}

/// How binding a requirement is.
#[derive(Clone, Copy, PartialEq, Eq, Structural, Debug)]
pub enum RequirementPriority {
    Must,
    Should,
    Could,
    Unknown,
}

/// A kind of evidence that can show a criterion holds.
#[derive(Clone, Copy, PartialEq, Eq, Structural, Debug)]
pub enum EvidenceKind {
    RuntimeResult,
    Log,
    Screenshot,
    NetworkTrace,
    SourceLocation,
    ManualObservation,
}

/// What makes a requirement hard to test.
#[derive(Clone, Copy, PartialEq, Eq, Structural, Debug)]
pub enum QualityFlagKind {
    VagueLanguage,
    MissingObservableResult,
    TooBroad,
}

/// One step of a generated test case.
#[derive(Clone, Copy, PartialEq, Eq, Structural, Debug)]
pub enum TestAction {
    LocateEntryPoint,
    PerformRequirementAction,
    ObserveResult,
    CollectEvidence,
}

/// The executor a test case suits best.
#[derive(Clone, Copy, PartialEq, Eq, Structural, Debug)]
pub enum ExecutorHint {
    Browser,
    Api,
    Cli,
    Generic,
    ManualReview,
}

/// Which engine produced a requirement report.
#[derive(Clone, Copy, PartialEq, Eq, Structural, Debug)]
pub enum AnalysisEngine {
    RuleBased,
    LlmRefined,
}

pub open spec fn engine_name(e: AnalysisEngine) -> Seq<char> {
    match e {
        AnalysisEngine::RuleBased => "rule_based"@,
        AnalysisEngine::LlmRefined => "llm_refined"@,
    }
}

impl AnalysisEngine {
    /// The snake-case name of the engine.
    pub fn name(self) -> (r: &'static str)
        ensures
            r@ == engine_name(self),
    {
        match self {
            AnalysisEngine::RuleBased => "rule_based",
            AnalysisEngine::LlmRefined => "llm_refined",
        }
    }
}

/// Severity of a parser diagnostic.
#[derive(Clone, Copy, PartialEq, Eq, Structural, Debug)]
pub enum DiagnosticSeverity {
    Info,
    Warning,
}

/// Why a requirement source could not be analysed.
#[derive(Debug)]
pub enum RequirementError {
    /// The path does not exist.
    NotFound(String),
    /// The path is neither a file nor a directory.
    UnsupportedPath(String),
    /// A file or directory could not be read.
    Io { path: String, message: String },
}

/// The text of a requirement error.
pub open spec fn requirement_error_message(e: RequirementError) -> Seq<char> {
    match e {
        RequirementError::NotFound(p) => "requirement path does not exist: "@ + p@,
        RequirementError::UnsupportedPath(p) => "requirement path must be a file or directory: "@ + p@,
        RequirementError::Io { path, message } => "failed to inspect "@ + path@ + ": "@ + message@,
    }
}

impl RequirementError {
    /// The error's message.
    pub fn message(&self) -> (r: String)
        ensures
            r@ == requirement_error_message(*self),
    {
        match self {
            RequirementError::NotFound(p) => {
                let mut r = owned("requirement path does not exist: ");
                r.append(p.as_str());
                r
            },
            RequirementError::UnsupportedPath(p) => {
                let mut r = owned("requirement path must be a file or directory: ");
                r.append(p.as_str());
                r
            },
            RequirementError::Io { path, message } => {
                let mut r = owned("failed to inspect ");
                r.append(path.as_str());
                r.append(": ");
                r.append(message.as_str());
                r
            },
        }
    }
}

/// Where a requirement was found.
#[derive(Debug)]
pub struct SourceLocation {
    pub path: String,
    pub line: usize,
}

/// A checkable statement derived from a requirement.
#[derive(Debug)]
pub struct AcceptanceCriterion {
    pub id: String,
    pub statement: String,
    pub evidence: Vec<EvidenceKind>,
}

/// A testability problem of a requirement.
#[derive(Debug)]
pub struct RequirementQualityFlag {
    pub kind: QualityFlagKind,
    pub message: String,
}

/// A structured requirement.
#[derive(Debug)]
pub struct Requirement {
    pub id: String,
    pub title: String,
    pub description: String,
    pub category: RequirementCategory,
    pub priority: RequirementPriority,
    pub source: SourceLocation,
    pub acceptance_criteria: Vec<AcceptanceCriterion>,
    pub quality_flags: Vec<RequirementQualityFlag>,
}

/// A step of a test case.
#[derive(Debug)]
pub struct TestStep {
    pub action: TestAction,
    pub target: String,
    pub input: Option<String>,
}

/// A generated acceptance test case.
#[derive(Debug)]
pub struct TestCase {
    pub id: String,
    pub requirement_id: String,
    pub title: String,
    pub executor_hint: ExecutorHint,
    pub steps: Vec<TestStep>,
    pub expected_result: String,
}

/// The generated test plan.
#[derive(Debug)]
pub struct TestPlan {
    pub name: String,
    pub cases: Vec<TestCase>,
}

/// A document that was analysed.
#[derive(Debug)]
pub struct RequirementDocument {
    pub path: String,
    pub title: Option<String>,
    pub requirement_count: usize,
}

/// A message of the analysis itself.
#[derive(Debug)]
pub struct RequirementDiagnostic {
    pub severity: DiagnosticSeverity,
    pub message: String,
}

/// The result of analysing a requirement source.
#[derive(Debug)]
pub struct RequirementReport {
    pub source: String,
    pub engine: AnalysisEngine,
    pub documents: Vec<RequirementDocument>,
    pub requirements: Vec<Requirement>,
    pub test_plan: TestPlan,
    pub diagnostics: Vec<RequirementDiagnostic>,
}

// ---------------------------------------------------------------------------
// Keyword tables
// ---------------------------------------------------------------------------

pub open spec fn requirement_keywords() -> Seq<Seq<char>> {
    seq![
        "必须"@, "应当"@, "应该"@, "需要"@, "支持"@, "能够"@, "可以"@, "允许"@, "禁止"@,
        "不得"@, "shall"@, "must"@, "should"@, "need"@, "support"@, "allow"@, "can"@,
    ]
}

pub open spec fn vague_words() -> Seq<Seq<char>> {
    seq![
        "简单"@, "友好"@, "快速"@, "高效"@, "完善"@, "合理"@, "适当"@, "美观"@, "良好"@,
        "尽量"@, "等等"@, "相关"@, "若干"@, "simple"@, "friendly"@, "fast"@, "reasonable"@,
        "proper"@, "etc"@,
    ]
}

pub open spec fn requirement_section_words() -> Seq<Seq<char>> {
    seq![
        "需求"@, "功能"@, "验收"@, "目标"@, "能力"@, "用户故事"@, "requirement"@, "feature"@,
        "story"@, "acceptance"@, "prd"@, "spec"@,
    ]
}

pub open spec fn non_requirement_section_words() -> Seq<Seq<char>> {
    seq![
        "本地运行"@, "运行方式"@, "安装"@, "开发日志"@, "当前状态"@, "已知环境"@, "风险"@,
        "里程碑"@, "代码结构"@, "技术方案"@, "数据模型"@, "下一步"@, "local run"@,
        "installation"@, "changelog"@, "milestone"@, "risk"@,
    ]
}

pub open spec fn security_words() -> Seq<Seq<char>> {
    seq!["安全"@, "权限"@, "认证"@, "登录"@, "密码"@, "token"@, "security"@]
}

pub open spec fn api_words() -> Seq<Seq<char>> {
    seq!["api"@, "接口"@, "http"@, "请求"@, "响应"@]
}

pub open spec fn data_words() -> Seq<Seq<char>> {
    seq!["数据"@, "数据库"@, "保存"@, "导入"@, "导出"@, "持久"@, "data"@]
}

pub open spec fn performance_words() -> Seq<Seq<char>> {
    seq!["性能"@, "响应时间"@, "耗时"@, "并发"@, "performance"@]
}

pub open spec fn ui_words() -> Seq<Seq<char>> {
    seq!["页面"@, "界面"@, "按钮"@, "输入框"@, "导航"@, "布局"@, "ui"@]
}

pub open spec fn compatibility_words() -> Seq<Seq<char>> {
    seq!["兼容"@, "浏览器"@, "windows"@, "linux"@, "mobile"@]
}

pub open spec fn non_functional_words() -> Seq<Seq<char>> {
    seq!["非功能"@, "可用性"@, "稳定性"@, "可靠性"@]
}

pub open spec fn must_words() -> Seq<Seq<char>> {
    seq!["必须"@, "不得"@, "禁止"@, "must"@, "shall"@, "required"@]
}

pub open spec fn should_words() -> Seq<Seq<char>> {
    seq!["应该"@, "应当"@, "需要"@, "should"@, "need"@]
}

pub open spec fn could_words() -> Seq<Seq<char>> {
    seq!["可以"@, "允许"@, "建议"@, "may"@, "could"@, "allow"@]
}

pub open spec fn observable_words() -> Seq<Seq<char>> {
    seq![
        "显示"@, "返回"@, "跳转"@, "保存"@, "生成"@, "导出"@, "提示"@, "记录"@, "创建"@,
        "更新"@, "删除"@, "拒绝"@, "display"@, "return"@, "redirect"@, "save"@, "show"@,
        "create"@, "update"@, "delete"@,
    ]
}

fn requirement_keyword_list() -> (v: Vec<&'static str>)
    ensures
        str_views(v@) == requirement_keywords(),
{
    let v = vec![
        "必须", "应当", "应该", "需要", "支持", "能够", "可以", "允许", "禁止", "不得", "shall",
        "must", "should", "need", "support", "allow", "can",
    ];
    assert(str_views(v@) =~= requirement_keywords());
    v
}

fn vague_word_list() -> (v: Vec<&'static str>)
    ensures
        str_views(v@) == vague_words(),
{
    let v = vec![
        "简单", "友好", "快速", "高效", "完善", "合理", "适当", "美观", "良好", "尽量", "等等",
        "相关", "若干", "simple", "friendly", "fast", "reasonable", "proper", "etc",
    ];
    assert(str_views(v@) =~= vague_words());
    v
}

fn requirement_section_list() -> (v: Vec<&'static str>)
    ensures
        str_views(v@) == requirement_section_words(),
{
    let v = vec![
        "需求", "功能", "验收", "目标", "能力", "用户故事", "requirement", "feature", "story",
        "acceptance", "prd", "spec",
    ];
    assert(str_views(v@) =~= requirement_section_words());
    v
}

fn non_requirement_section_list() -> (v: Vec<&'static str>)
    ensures
        str_views(v@) == non_requirement_section_words(),
{
    let v = vec![
        "本地运行", "运行方式", "安装", "开发日志", "当前状态", "已知环境", "风险", "里程碑",
        "代码结构", "技术方案", "数据模型", "下一步", "local run", "installation", "changelog",
        "milestone", "risk",
    ];
    assert(str_views(v@) =~= non_requirement_section_words());
    v
}

fn security_list() -> (v: Vec<&'static str>)
    ensures
        str_views(v@) == security_words(),
{
    let v = vec!["安全", "权限", "认证", "登录", "密码", "token", "security"];
    assert(str_views(v@) =~= security_words());
    v
}

fn api_list() -> (v: Vec<&'static str>)
    ensures
        str_views(v@) == api_words(),
{
    let v = vec!["api", "接口", "http", "请求", "响应"];
    assert(str_views(v@) =~= api_words());
    v
}

fn data_list() -> (v: Vec<&'static str>)
    ensures
        str_views(v@) == data_words(),
{
    let v = vec!["数据", "数据库", "保存", "导入", "导出", "持久", "data"];
    assert(str_views(v@) =~= data_words());
    v
}

fn performance_list() -> (v: Vec<&'static str>)
    ensures
        str_views(v@) == performance_words(),
{
    let v = vec!["性能", "响应时间", "耗时", "并发", "performance"];
    assert(str_views(v@) =~= performance_words());
    v
}

fn ui_list() -> (v: Vec<&'static str>)
    ensures
        str_views(v@) == ui_words(),
{
    let v = vec!["页面", "界面", "按钮", "输入框", "导航", "布局", "ui"];
    assert(str_views(v@) =~= ui_words());
    v
}

fn compatibility_list() -> (v: Vec<&'static str>)
    ensures
        str_views(v@) == compatibility_words(),
{
    let v = vec!["兼容", "浏览器", "windows", "linux", "mobile"];
    assert(str_views(v@) =~= compatibility_words());
    v
}

fn non_functional_list() -> (v: Vec<&'static str>)
    ensures
        str_views(v@) == non_functional_words(),
{
    let v = vec!["非功能", "可用性", "稳定性", "可靠性"];
    assert(str_views(v@) =~= non_functional_words());
    v
}

fn must_list() -> (v: Vec<&'static str>)
    ensures
        str_views(v@) == must_words(),
{
    let v = vec!["必须", "不得", "禁止", "must", "shall", "required"];
    assert(str_views(v@) =~= must_words());
    v
}

fn should_list() -> (v: Vec<&'static str>)
    ensures
        str_views(v@) == should_words(),
{
    let v = vec!["应该", "应当", "需要", "should", "need"];
    assert(str_views(v@) =~= should_words());
    v
}

fn could_list() -> (v: Vec<&'static str>)
    ensures
        str_views(v@) == could_words(),
{
    let v = vec!["可以", "允许", "建议", "may", "could", "allow"];
    assert(str_views(v@) =~= could_words());
    v
}

fn observable_list() -> (v: Vec<&'static str>)
    ensures
        str_views(v@) == observable_words(),
{
    let v = vec![
        "显示", "返回", "跳转", "保存", "生成", "导出", "提示", "记录", "创建", "更新", "删除",
        "拒绝", "display", "return", "redirect", "save", "show", "create", "update", "delete",
    ];
    assert(str_views(v@) =~= observable_words());
    v
}

// ---------------------------------------------------------------------------
// Classification
// ---------------------------------------------------------------------------

/// Whether `s` contains the Unicode-lowercased form of one of `words`.
pub open spec fn contains_any_lowered(s: Seq<char>, words: Seq<Seq<char>>) -> bool {
    exists|i: int| 0 <= i < words.len() && contains(s, unicode_lower(#[trigger] words[i]))
}

fn contains_any_lowered_str(h: &[char], words: &[&str]) -> (r: bool)
    ensures
        r == contains_any_lowered(h@, str_views(words@)),
{
    let mut i: usize = 0;
    while i < words.len()
        invariant
            i <= words@.len(),
            forall|j: int|
                0 <= j < i ==> !contains(h@, unicode_lower(#[trigger] str_views(words@)[j])),
        decreases words.len() - i,
    {
        let lowered = to_lowercase(words[i]);
        let lv = chars_of(lowered.as_str());
        if crate::text::contains_chars(h, lv.as_slice()) {
            assert(contains(h@, unicode_lower(str_views(words@)[i as int])));
            return true;
        }
        i = i + 1;
    }
    false
}

/// Lowercased heading text holding a requirement section word.
pub open spec fn lowered_names_requirement_section(lowered: Seq<char>) -> bool {
    contains_any(lowered, requirement_section_words())
}

/// Lowercased heading text holding a word of a section without requirements
/// (setup, journal, risks, ...).
pub open spec fn lowered_names_non_requirement_section(lowered: Seq<char>) -> bool {
    contains_any(lowered, non_requirement_section_words())
}

/// A heading that names a requirement section.
pub open spec fn is_requirement_section_spec(heading: Seq<char>) -> bool {
    lowered_names_requirement_section(unicode_lower(heading))
}

/// A heading that names a section holding no requirements (setup, journal,
/// risks, ...).
pub open spec fn is_non_requirement_section_spec(heading: Seq<char>) -> bool {
    lowered_names_non_requirement_section(unicode_lower(heading))
}

/// Whether lowercased heading text holds a requirement section word.
pub fn names_requirement_section(lowered: &str) -> (r: bool)
    ensures
        r == lowered_names_requirement_section(lowered@),
{
    let lv = chars_of(lowered);
    let words = requirement_section_list();
    contains_any_str(lv.as_slice(), words.as_slice())
}

/// Whether lowercased heading text holds a word of a section without
/// requirements.
pub fn names_non_requirement_section(lowered: &str) -> (r: bool)
    ensures
        r == lowered_names_non_requirement_section(lowered@),
{
    let lv = chars_of(lowered);
    let words = non_requirement_section_list();
    contains_any_str(lv.as_slice(), words.as_slice())
}

pub fn is_requirement_section(heading: &str) -> (r: bool)
    ensures
        r == is_requirement_section_spec(heading@),
{
    let lower = to_lowercase(heading);
    names_requirement_section(lower.as_str())
}

pub fn is_non_requirement_section(heading: &str) -> (r: bool)
    ensures
        r == is_non_requirement_section_spec(heading@),
{
    let lower = to_lowercase(heading);
    names_non_requirement_section(lower.as_str())
}

/// Whether a line of text is a requirement: at least six characters, not a
/// table row, under no setup/journal heading, and holding a requirement
/// keyword or standing under a requirement heading (both, outside lists).
pub open spec fn is_requirement_candidate_spec(
    text: Seq<char>,
    headings: Seq<Seq<char>>,
    list_item: bool,
) -> bool {
    if text.len() < 6 || crate::text::starts_with(text, seq!['|']) {
        false
    } else if exists|i: int|
        0 <= i < headings.len() && is_non_requirement_section_spec(#[trigger] headings[i]) {
        false
    } else {
        keyword_candidate(unicode_lower(text), headings, list_item)
    }
}

/// The keyword rule for a line that passed the other checks, on its
/// lowercased text: a list item needs a requirement keyword or a requirement
/// heading above it; other lines need both.
pub open spec fn keyword_candidate(lowered: Seq<char>, headings: Seq<Seq<char>>, list_item: bool) -> bool {
    let keyword_hit = contains_any_lowered(lowered, requirement_keywords());
    let section_hit = exists|i: int|
        0 <= i < headings.len() && is_requirement_section_spec(#[trigger] headings[i]);
    if list_item {
        keyword_hit || section_hit
    } else {
        keyword_hit && section_hit
    }
}

fn any_heading_non_requirement(headings: &Vec<String>) -> (r: bool)
    ensures
        r == exists|i: int|
            0 <= i < headings@.len() && is_non_requirement_section_spec(
                #[trigger] string_views(headings@)[i],
            ),
{
    let mut i: usize = 0;
    while i < headings.len()
        invariant
            i <= headings@.len(),
            forall|j: int|
                0 <= j < i ==> !is_non_requirement_section_spec(
                    #[trigger] string_views(headings@)[j],
                ),
        decreases headings.len() - i,
    {
        if is_non_requirement_section(headings[i].as_str()) {
            assert(is_non_requirement_section_spec(string_views(headings@)[i as int]));
            return true;
        }
        i = i + 1;
    }
    false
}

fn any_heading_requirement(headings: &Vec<String>) -> (r: bool)
    ensures
        r == exists|i: int|
            0 <= i < headings@.len() && is_requirement_section_spec(
                #[trigger] string_views(headings@)[i],
            ),
{
    let mut i: usize = 0;
    while i < headings.len()
        invariant
            i <= headings@.len(),
            forall|j: int|
                0 <= j < i ==> !is_requirement_section_spec(#[trigger] string_views(headings@)[j]),
        decreases headings.len() - i,
    {
        if is_requirement_section(headings[i].as_str()) {
            assert(is_requirement_section_spec(string_views(headings@)[i as int]));
            return true;
        }
        i = i + 1;
    }
    false
}

/// Whether a line of text is a requirement under the given headings.
pub fn is_requirement_candidate(text: &str, headings: &Vec<String>, list_item: bool) -> (r: bool)
    ensures
        r == is_requirement_candidate_spec(text@, string_views(headings@), list_item),
{
    let tv = chars_of(text);
    if tv.len() < 6 || (tv.len() > 0 && tv[0] == '|') {
        proof {
            if tv@.len() > 0 {
                assert(tv@.take(1) == seq![tv@[0]]);
            }
        }
        return false;
    }
    assert(!crate::text::starts_with(tv@, seq!['|'])) by {
        if crate::text::starts_with(tv@, seq!['|']) {
            assert(tv@.take(1)[0] == seq!['|'][0]);
            assert(tv@.take(1)[0] == tv@[0]);
        }
    }
    if any_heading_non_requirement(headings) {
        return false;
    }
    let lower = to_lowercase(text);
    candidate_by_keywords(lower.as_str(), headings, list_item)
}

/// The keyword rule of `is_requirement_candidate`, on lowercased text.
pub fn candidate_by_keywords(lowered: &str, headings: &Vec<String>, list_item: bool) -> (r: bool)
    ensures
        r == keyword_candidate(lowered@, string_views(headings@), list_item),
{
    let lv = chars_of(lowered);
    let keywords = requirement_keyword_list();
    let keyword_hit = contains_any_lowered_str(lv.as_slice(), keywords.as_slice());
    let section_hit = any_heading_requirement(headings);
    if list_item {
        keyword_hit || section_hit
    } else {
        keyword_hit && section_hit
    }
}

/// Category by the first matching keyword group in headings and text.
pub open spec fn classify_category_spec(text: Seq<char>, headings: Seq<Seq<char>>)
    -> RequirementCategory {
    category_of_lowered(unicode_lower(join(headings, seq![' ']) + seq![' '] + text))
}

/// Category by the first keyword group found in lowercased text.
pub open spec fn category_of_lowered(combined: Seq<char>) -> RequirementCategory {
    if contains_any(combined, security_words()) {
        RequirementCategory::Security
    } else if contains_any(combined, api_words()) {
        RequirementCategory::Api
    } else if contains_any(combined, data_words()) {
        RequirementCategory::Data
    } else if contains_any(combined, performance_words()) {
        RequirementCategory::Performance
    } else if contains_any(combined, ui_words()) {
        RequirementCategory::Ui
    } else if contains_any(combined, compatibility_words()) {
        RequirementCategory::Compatibility
    } else if contains_any(combined, non_functional_words()) {
        RequirementCategory::NonFunctional
    } else if trim(combined).len() == 0 {
        RequirementCategory::Unknown
    } else {
        RequirementCategory::Functional
    }
}

/// Classifies a requirement by keywords in its text and headings.
pub fn classify_category(text: &str, headings: &[String]) -> (r: RequirementCategory)
    ensures
        r == classify_category_spec(text@, string_views(headings@)),
{
    let hv = slice_to_vec(headings);
    let mut combined = join_strings(&hv, " ");
    combined.append(" ");
    combined.append(text);
    assert(" "@ == seq![' ']) by {
        reveal_strlit(" ");
    }
    let lower = to_lowercase(combined.as_str());
    category_from_lowered(lower.as_str())
}

/// The category of lowercased headings and text, by the first keyword group
/// found.
pub fn category_from_lowered(lowered: &str) -> (r: RequirementCategory)
    ensures
        r == category_of_lowered(lowered@),
{
    let lv = chars_of(lowered);
    let l = lv.as_slice();
    let security = security_list();
    let api = api_list();
    let data = data_list();
    let performance = performance_list();
    let ui = ui_list();
    let compat = compatibility_list();
    let nonfunc = non_functional_list();
    if contains_any_str(l, security.as_slice()) {
        RequirementCategory::Security
    } else if contains_any_str(l, api.as_slice()) {
        RequirementCategory::Api
    } else if contains_any_str(l, data.as_slice()) {
        RequirementCategory::Data
    } else if contains_any_str(l, performance.as_slice()) {
        RequirementCategory::Performance
    } else if contains_any_str(l, ui.as_slice()) {
        RequirementCategory::Ui
    } else if contains_any_str(l, compat.as_slice()) {
        RequirementCategory::Compatibility
    } else if contains_any_str(l, nonfunc.as_slice()) {
        RequirementCategory::NonFunctional
    } else if trim_chars(l).len() == 0 {
        RequirementCategory::Unknown
    } else {
        RequirementCategory::Functional
    }
}

fn slice_to_vec(v: &[String]) -> (r: Vec<String>)
    ensures
        string_views(r@) == string_views(v@),
{
    let mut r: Vec<String> = Vec::new();
    let mut i: usize = 0;
    while i < v.len()
        invariant
            i <= v@.len(),
            string_views(r@) == string_views(v@).take(i as int),
        decreases v.len() - i,
    {
        let ghost before = r@;
        r.push(copy_string(&v[i]));
        assert(string_views(r@) == string_views(before).push(v@[i as int]@));
        assert(string_views(v@).take(i + 1) == string_views(v@).take(i as int).push(v@[i as int]@));
        i = i + 1;
    }
    assert(string_views(v@).take(v@.len() as int) == string_views(v@));
    r
}

/// Priority by modal keywords.
pub open spec fn classify_priority_spec(text: Seq<char>) -> RequirementPriority {
    priority_of_lowered(unicode_lower(text))
}

/// Priority by the first modal keyword group found in lowercased text.
pub open spec fn priority_of_lowered(lower: Seq<char>) -> RequirementPriority {
    if contains_any(lower, must_words()) {
        RequirementPriority::Must
    } else if contains_any(lower, should_words()) {
        RequirementPriority::Should
    } else if contains_any(lower, could_words()) {
        RequirementPriority::Could
    } else {
        RequirementPriority::Unknown
    }
}

/// Classifies a requirement's priority by its modal keywords.
pub fn classify_priority(text: &str) -> (r: RequirementPriority)
    ensures
        r == classify_priority_spec(text@),
{
    let lower = to_lowercase(text);
    priority_from_lowered(lower.as_str())
}

/// The priority of lowercased text, by its modal keywords.
pub fn priority_from_lowered(lowered: &str) -> (r: RequirementPriority)
    ensures
        r == priority_of_lowered(lowered@),
{
    let lv = chars_of(lowered);
    let must = must_list();
    let should = should_list();
    let could = could_list();
    if contains_any_str(lv.as_slice(), must.as_slice()) {
        RequirementPriority::Must
    } else if contains_any_str(lv.as_slice(), should.as_slice()) {
        RequirementPriority::Should
    } else if contains_any_str(lv.as_slice(), could.as_slice()) {
        RequirementPriority::Could
    } else {
        RequirementPriority::Unknown
    }
}

/// Whether the text names an outcome one can observe.
pub open spec fn has_observable_result_spec(text: Seq<char>) -> bool {
    lowered_names_observable_result(unicode_lower(text))
}

/// Lowercased text holding a word of an observable outcome.
pub open spec fn lowered_names_observable_result(lowered: Seq<char>) -> bool {
    contains_any(lowered, observable_words())
}

pub fn has_observable_result(text: &str) -> (r: bool)
    ensures
        r == has_observable_result_spec(text@),
{
    let lower = to_lowercase(text);
    names_observable_result(lower.as_str())
}

/// Whether lowercased text holds a word of an observable outcome.
pub fn names_observable_result(lowered: &str) -> (r: bool)
    ensures
        r == lowered_names_observable_result(lowered@),
{
    let lv = chars_of(lowered);
    let words = observable_list();
    contains_any_str(lv.as_slice(), words.as_slice())
}


// ---------------------------------------------------------------------------
// Views
// ---------------------------------------------------------------------------

pub struct SourceLocationView {
    pub path: Seq<char>,
    pub line: usize,
}

impl View for SourceLocation {
    type V = SourceLocationView;

    open spec fn view(&self) -> SourceLocationView {
        SourceLocationView { path: self.path@, line: self.line }
    }
}

pub struct AcceptanceCriterionView {
    pub id: Seq<char>,
    pub statement: Seq<char>,
    pub evidence: Seq<EvidenceKind>,
}

impl View for AcceptanceCriterion {
    type V = AcceptanceCriterionView;

    open spec fn view(&self) -> AcceptanceCriterionView {
        AcceptanceCriterionView {
            id: self.id@,
            statement: self.statement@,
            evidence: self.evidence@,
        }
    }
}

pub struct QualityFlagView {
    pub kind: QualityFlagKind,
    pub message: Seq<char>,
}

impl View for RequirementQualityFlag {
    type V = QualityFlagView;

    open spec fn view(&self) -> QualityFlagView {
        QualityFlagView { kind: self.kind, message: self.message@ }
    }
}

pub open spec fn criteria_views(v: Seq<AcceptanceCriterion>) -> Seq<AcceptanceCriterionView> {
    v.map_values(|c: AcceptanceCriterion| c@)
}

pub open spec fn flag_views(v: Seq<RequirementQualityFlag>) -> Seq<QualityFlagView> {
    v.map_values(|f: RequirementQualityFlag| f@)
}

pub struct RequirementView {
    pub id: Seq<char>,
    pub title: Seq<char>,
    pub description: Seq<char>,
    pub category: RequirementCategory,
    pub priority: RequirementPriority,
    pub source: SourceLocationView,
    pub acceptance_criteria: Seq<AcceptanceCriterionView>,
    pub quality_flags: Seq<QualityFlagView>,
}

impl View for Requirement {
    type V = RequirementView;

    open spec fn view(&self) -> RequirementView {
        RequirementView {
            id: self.id@,
            title: self.title@,
            description: self.description@,
            category: self.category,
            priority: self.priority,
            source: self.source@,
            acceptance_criteria: criteria_views(self.acceptance_criteria@),
            quality_flags: flag_views(self.quality_flags@),
        }
    }
}

pub open spec fn requirement_views(v: Seq<Requirement>) -> Seq<RequirementView> {
    v.map_values(|r: Requirement| r@)
}

pub struct TestStepView {
    pub action: TestAction,
    pub target: Seq<char>,
    pub input: Option<Seq<char>>,
}

impl View for TestStep {
    type V = TestStepView;

    open spec fn view(&self) -> TestStepView {
        TestStepView { action: self.action, target: self.target@, input: opt_string_view(self.input) }
    }
}

pub open spec fn step_views(v: Seq<TestStep>) -> Seq<TestStepView> {
    v.map_values(|s: TestStep| s@)
}

pub struct TestCaseView {
    pub id: Seq<char>,
    pub requirement_id: Seq<char>,
    pub title: Seq<char>,
    pub executor_hint: ExecutorHint,
    pub steps: Seq<TestStepView>,
    pub expected_result: Seq<char>,
}

impl View for TestCase {
    type V = TestCaseView;

    open spec fn view(&self) -> TestCaseView {
        TestCaseView {
            id: self.id@,
            requirement_id: self.requirement_id@,
            title: self.title@,
            executor_hint: self.executor_hint,
            steps: step_views(self.steps@),
            expected_result: self.expected_result@,
        }
    }
}

pub open spec fn case_views(v: Seq<TestCase>) -> Seq<TestCaseView> {
    v.map_values(|c: TestCase| c@)
}

pub struct TestPlanView {
    pub name: Seq<char>,
    pub cases: Seq<TestCaseView>,
}

impl View for TestPlan {
    type V = TestPlanView;

    open spec fn view(&self) -> TestPlanView {
        TestPlanView { name: self.name@, cases: case_views(self.cases@) }
    }
}

pub struct RequirementDocumentView {
    pub path: Seq<char>,
    pub title: Option<Seq<char>>,
    pub requirement_count: usize,
}

impl View for RequirementDocument {
    type V = RequirementDocumentView;

    open spec fn view(&self) -> RequirementDocumentView {
        RequirementDocumentView {
            path: self.path@,
            title: opt_string_view(self.title),
            requirement_count: self.requirement_count,
        }
    }
}

pub open spec fn document_views(v: Seq<RequirementDocument>) -> Seq<RequirementDocumentView> {
    v.map_values(|d: RequirementDocument| d@)
}

pub struct RequirementDiagnosticView {
    pub severity: DiagnosticSeverity,
    pub message: Seq<char>,
}

impl View for RequirementDiagnostic {
    type V = RequirementDiagnosticView;

    open spec fn view(&self) -> RequirementDiagnosticView {
        RequirementDiagnosticView { severity: self.severity, message: self.message@ }
    }
}

pub open spec fn diagnostic_views(v: Seq<RequirementDiagnostic>) -> Seq<RequirementDiagnosticView> {
    v.map_values(|d: RequirementDiagnostic| d@)
}

pub struct RequirementReportView {
    pub source: Seq<char>,
    pub engine: AnalysisEngine,
    pub documents: Seq<RequirementDocumentView>,
    pub requirements: Seq<RequirementView>,
    pub test_plan: TestPlanView,
    pub diagnostics: Seq<RequirementDiagnosticView>,
}

impl View for RequirementReport {
    type V = RequirementReportView;

    open spec fn view(&self) -> RequirementReportView {
        RequirementReportView {
            source: self.source@,
            engine: self.engine,
            documents: document_views(self.documents@),
            requirements: requirement_views(self.requirements@),
            test_plan: self.test_plan@,
            diagnostics: diagnostic_views(self.diagnostics@),
        }
    }
}

// ---------------------------------------------------------------------------
// Names
// ---------------------------------------------------------------------------

pub open spec fn category_name(c: RequirementCategory) -> Seq<char> {
    match c {
        RequirementCategory::Functional => "functional"@,
        RequirementCategory::Ui => "ui"@,
        RequirementCategory::Api => "api"@,
        RequirementCategory::Data => "data"@,
        RequirementCategory::Security => "security"@,
        RequirementCategory::Performance => "performance"@,
        RequirementCategory::Compatibility => "compatibility"@,
        RequirementCategory::NonFunctional => "non-functional"@,
        RequirementCategory::Unknown => "unknown"@,
    }
}

impl RequirementCategory {
    /// The kebab-case name of the category.
    pub fn name(self) -> (r: &'static str)
        ensures
            r@ == category_name(self),
    {
        match self {
            RequirementCategory::Functional => "functional",
            RequirementCategory::Ui => "ui",
            RequirementCategory::Api => "api",
            RequirementCategory::Data => "data",
            RequirementCategory::Security => "security",
            RequirementCategory::Performance => "performance",
            RequirementCategory::Compatibility => "compatibility",
            RequirementCategory::NonFunctional => "non-functional",
            RequirementCategory::Unknown => "unknown",
        }
    }
}

pub open spec fn priority_name(p: RequirementPriority) -> Seq<char> {
    match p {
        RequirementPriority::Must => "must"@,
        RequirementPriority::Should => "should"@,
        RequirementPriority::Could => "could"@,
        RequirementPriority::Unknown => "unknown"@,
    }
}

impl RequirementPriority {
    /// The lowercase name of the priority.
    pub fn name(self) -> (r: &'static str)
        ensures
            r@ == priority_name(self),
    {
        match self {
            RequirementPriority::Must => "must",
            RequirementPriority::Should => "should",
            RequirementPriority::Could => "could",
            RequirementPriority::Unknown => "unknown",
        }
    }
}

pub open spec fn flag_kind_name(k: QualityFlagKind) -> Seq<char> {
    match k {
        QualityFlagKind::VagueLanguage => "vague-language"@,
        QualityFlagKind::MissingObservableResult => "missing-observable-result"@,
        QualityFlagKind::TooBroad => "too-broad"@,
    }
}

impl QualityFlagKind {
    /// The kebab-case name of the flag.
    pub fn name(self) -> (r: &'static str)
        ensures
            r@ == flag_kind_name(self),
    {
        match self {
            QualityFlagKind::VagueLanguage => "vague-language",
            QualityFlagKind::MissingObservableResult => "missing-observable-result",
            QualityFlagKind::TooBroad => "too-broad",
        }
    }
}

pub open spec fn diagnostic_severity_name(s: DiagnosticSeverity) -> Seq<char> {
    match s {
        DiagnosticSeverity::Info => "info"@,
        DiagnosticSeverity::Warning => "warning"@,
    }
}

impl DiagnosticSeverity {
    /// The lowercase name of the severity.
    pub fn name(self) -> (r: &'static str)
        ensures
            r@ == diagnostic_severity_name(self),
    {
        match self {
            DiagnosticSeverity::Info => "info",
            DiagnosticSeverity::Warning => "warning",
        }
    }
}

// ---------------------------------------------------------------------------
// Quality flags, criteria and test plan
// ---------------------------------------------------------------------------

pub open spec fn vague_message() -> Seq<char> {
    "包含较难直接验证的模糊词，需要补充量化标准。"@
}

pub open spec fn too_broad_message() -> Seq<char> {
    "需求句子较长，建议拆分为多个独立验收点。"@
}

pub open spec fn missing_result_message() -> Seq<char> {
    "缺少明确的输出、状态变化或错误反馈。"@
}

/// Quality flags of a requirement sentence, in the order vague wording,
/// too long (over 140 characters), no observable result.
pub open spec fn quality_flags_spec(text: Seq<char>) -> Seq<QualityFlagView> {
    quality_flags_of_lowered(unicode_lower(text), text.len())
}

/// The quality flags of a sentence of `length` characters, given its
/// lowercased text.
pub open spec fn quality_flags_of_lowered(lowered: Seq<char>, length: nat) -> Seq<QualityFlagView> {
    let a = if contains_any_lowered(lowered, vague_words()) {
        seq![QualityFlagView { kind: QualityFlagKind::VagueLanguage, message: vague_message() }]
    } else {
        Seq::<QualityFlagView>::empty()
    };
    let b = if length > 140 {
        a.push(QualityFlagView { kind: QualityFlagKind::TooBroad, message: too_broad_message() })
    } else {
        a
    };
    if !lowered_names_observable_result(lowered) {
        b.push(
            QualityFlagView {
                kind: QualityFlagKind::MissingObservableResult,
                message: missing_result_message(),
            },
        )
    } else {
        b
    }
}

/// The quality flags of a requirement sentence.
pub fn quality_flags_for(text: &str) -> (r: Vec<RequirementQualityFlag>)
    ensures
        flag_views(r@) == quality_flags_spec(text@),
{
    let lower = to_lowercase(text);
    let tv = chars_of(text);
    quality_flags_from_lowered(lower.as_str(), tv.len())
}

/// The quality flags of a sentence of `length` characters, given its
/// lowercased text.
pub fn quality_flags_from_lowered(lowered: &str, length: usize) -> (r: Vec<RequirementQualityFlag>)
    ensures
        flag_views(r@) == quality_flags_of_lowered(lowered@, length as nat),
{
    let lv = chars_of(lowered);
    let vague = vague_word_list();
    let mut flags: Vec<RequirementQualityFlag> = Vec::new();
    if contains_any_lowered_str(lv.as_slice(), vague.as_slice()) {
        flags.push(
            RequirementQualityFlag {
                kind: QualityFlagKind::VagueLanguage,
                message: owned("包含较难直接验证的模糊词，需要补充量化标准。"),
            },
        );
    }
    if length > 140 {
        flags.push(
            RequirementQualityFlag {
                kind: QualityFlagKind::TooBroad,
                message: owned("需求句子较长，建议拆分为多个独立验收点。"),
            },
        );
    }
    if !names_observable_result(lowered) {
        flags.push(
            RequirementQualityFlag {
                kind: QualityFlagKind::MissingObservableResult,
                message: owned("缺少明确的输出、状态变化或错误反馈。"),
            },
        );
    }
    assert(flag_views(flags@) =~= quality_flags_of_lowered(lowered@, length as nat));
    flags
}

/// Evidence that can show a requirement of the category holds.
pub open spec fn evidence_for_category_spec(category: RequirementCategory) -> Seq<EvidenceKind> {
    match category {
        RequirementCategory::Ui => seq![
            EvidenceKind::RuntimeResult,
            EvidenceKind::Screenshot,
            EvidenceKind::Log,
        ],
        RequirementCategory::Api => seq![
            EvidenceKind::RuntimeResult,
            EvidenceKind::NetworkTrace,
            EvidenceKind::Log,
        ],
        RequirementCategory::Data => seq![
            EvidenceKind::RuntimeResult,
            EvidenceKind::Log,
            EvidenceKind::SourceLocation,
        ],
        RequirementCategory::Security => seq![
            EvidenceKind::RuntimeResult,
            EvidenceKind::NetworkTrace,
            EvidenceKind::Log,
        ],
        _ => seq![EvidenceKind::RuntimeResult, EvidenceKind::ManualObservation],
    }
}

pub fn evidence_for_category(category: RequirementCategory) -> (r: Vec<EvidenceKind>)
    ensures
        r@ == evidence_for_category_spec(category),
{
    let r = match category {
        RequirementCategory::Ui => vec![
            EvidenceKind::RuntimeResult,
            EvidenceKind::Screenshot,
            EvidenceKind::Log,
        ],
        RequirementCategory::Api => vec![
            EvidenceKind::RuntimeResult,
            EvidenceKind::NetworkTrace,
            EvidenceKind::Log,
        ],
        RequirementCategory::Data => vec![
            EvidenceKind::RuntimeResult,
            EvidenceKind::Log,
            EvidenceKind::SourceLocation,
        ],
        RequirementCategory::Security => vec![
            EvidenceKind::RuntimeResult,
            EvidenceKind::NetworkTrace,
            EvidenceKind::Log,
        ],
        _ => vec![EvidenceKind::RuntimeResult, EvidenceKind::ManualObservation],
    };
    assert(r@ =~= evidence_for_category_spec(category));
    r
}

/// A sentence without surrounding white space and final `。`, `.`, `;`, `；`.
pub open spec fn trim_sentence_spec(text: Seq<char>) -> Seq<char> {
    drop_trailing(trim(text), CharClass::SentenceEnd)
}

pub fn trim_sentence(text: &str) -> (r: String)
    ensures
        r@ == trim_sentence_spec(text@),
{
    let v = chars_of(text);
    let t = trim_chars(v.as_slice());
    let s = strip_trailing(t.as_slice(), CharClass::SentenceEnd);
    string_of(s.as_slice())
}

/// The first 48 characters of the trimmed sentence, marked with `...` when cut.
pub open spec fn summarize_title_spec(text: Seq<char>) -> Seq<char> {
    excerpt(trim_sentence_spec(text), 48)
}

pub fn summarize_title(text: &str) -> (r: String)
    ensures
        r@ == summarize_title_spec(text@),
{
    let sentence = trim_sentence(text);
    let v = chars_of(sentence.as_str());
    excerpt_string(v.as_slice(), 48)
}

pub open spec fn first_criterion_statement(description: Seq<char>) -> Seq<char> {
    "执行与需求“"@ + trim_sentence_spec(description) + "”对应的操作后，系统应产生可观察且与需求一致的结果。"@
}

pub open spec fn failure_criterion_statement() -> Seq<char> {
    "异常输入、权限不足或失败响应应被明确处理，并留下可检查的错误信息。"@
}

pub open spec fn vague_criterion_statement() -> Seq<char> {
    "需求中的模糊描述需要被量化或补充为可判断的验收条件。"@
}

pub open spec fn has_flag(flags: Seq<QualityFlagView>, kind: QualityFlagKind) -> bool {
    exists|i: int| 0 <= i < flags.len() && (#[trigger] flags[i]).kind == kind
}

/// Acceptance criteria: one for the stated outcome; one for failure handling
/// for security, API and data requirements; one asking to quantify vague
/// wording when the requirement is flagged as vague.
pub open spec fn acceptance_criteria_spec(
    requirement_id: Seq<char>,
    description: Seq<char>,
    category: RequirementCategory,
    flags: Seq<QualityFlagView>,
) -> Seq<AcceptanceCriterionView> {
    let first = AcceptanceCriterionView {
        id: requirement_id + "-AC-01"@,
        statement: first_criterion_statement(description),
        evidence: evidence_for_category_spec(category),
    };
    let a = seq![first];
    let b = if category == RequirementCategory::Security || category == RequirementCategory::Api
        || category == RequirementCategory::Data {
        a.push(
            AcceptanceCriterionView {
                id: requirement_id + "-AC-02"@,
                statement: failure_criterion_statement(),
                evidence: seq![
                    EvidenceKind::RuntimeResult,
                    EvidenceKind::Log,
                    EvidenceKind::NetworkTrace,
                ],
            },
        )
    } else {
        a
    };
    if has_flag(flags, QualityFlagKind::VagueLanguage) {
        b.push(
            AcceptanceCriterionView {
                id: requirement_id + "-AC-"@ + crate::text::zero_pad(
                    crate::text::decimal(b.len() + 1),
                    2,
                ),
                statement: vague_criterion_statement(),
                evidence: seq![EvidenceKind::ManualObservation],
            },
        )
    } else {
        b
    }
}

fn has_vague_flag(flags: &Vec<RequirementQualityFlag>) -> (r: bool)
    ensures
        r == has_flag(flag_views(flags@), QualityFlagKind::VagueLanguage),
{
    let mut i: usize = 0;
    while i < flags.len()
        invariant
            i <= flags@.len(),
            forall|j: int|
                0 <= j < i ==> (#[trigger] flag_views(flags@)[j]).kind
                    != QualityFlagKind::VagueLanguage,
        decreases flags.len() - i,
    {
        if flags[i].kind == QualityFlagKind::VagueLanguage {
            assert(flag_views(flags@)[i as int].kind == QualityFlagKind::VagueLanguage);
            return true;
        }
        i = i + 1;
    }
    false
}

fn concat3(a: &str, b: &str, c: &str) -> (r: String)
    ensures
        r@ == a@ + b@ + c@,
{
    let mut r = owned(a);
    r.append(b);
    r.append(c);
    r
}

/// Builds the acceptance criteria of a requirement.
pub fn build_acceptance_criteria(
    requirement_id: &str,
    description: &str,
    category: RequirementCategory,
    quality_flags: &Vec<RequirementQualityFlag>,
) -> (r: Vec<AcceptanceCriterion>)
    ensures
        criteria_views(r@) == acceptance_criteria_spec(
            requirement_id@,
            description@,
            category,
            flag_views(quality_flags@),
        ),
{
    let mut criteria: Vec<AcceptanceCriterion> = Vec::new();
    let sentence = trim_sentence(description);
    criteria.push(
        AcceptanceCriterion {
            id: concat3(requirement_id, "-AC-01", ""),
            statement: concat3(
                "执行与需求“",
                sentence.as_str(),
                "”对应的操作后，系统应产生可观察且与需求一致的结果。",
            ),
            evidence: evidence_for_category(category),
        },
    );
    assert(""@ =~= Seq::<char>::empty()) by {
        reveal_strlit("");
    }
    if category == RequirementCategory::Security || category == RequirementCategory::Api
        || category == RequirementCategory::Data {
        let evidence = vec![EvidenceKind::RuntimeResult, EvidenceKind::Log, EvidenceKind::NetworkTrace];
        assert(evidence@ =~= seq![EvidenceKind::RuntimeResult, EvidenceKind::Log, EvidenceKind::NetworkTrace]);
        criteria.push(
            AcceptanceCriterion {
                id: concat3(requirement_id, "-AC-02", ""),
                statement: owned("异常输入、权限不足或失败响应应被明确处理，并留下可检查的错误信息。"),
                evidence,
            },
        );
    }
    let ghost before = criteria@;
    let ghost first = AcceptanceCriterionView {
        id: requirement_id@ + "-AC-01"@,
        statement: first_criterion_statement(description@),
        evidence: evidence_for_category_spec(category),
    };
    assert(criteria_views(before)[0] == first);
    if has_vague_flag(quality_flags) {
        let n = crate::text::zero_padded_string(criteria.len() as u128 + 1, 2);
        let evidence = vec![EvidenceKind::ManualObservation];
        assert(evidence@ =~= seq![EvidenceKind::ManualObservation]);
        criteria.push(
            AcceptanceCriterion {
                id: concat3(requirement_id, "-AC-", n.as_str()),
                statement: owned("需求中的模糊描述需要被量化或补充为可判断的验收条件。"),
                evidence,
            },
        );
    }
    assert(criteria_views(criteria@) =~= acceptance_criteria_spec(
        requirement_id@,
        description@,
        category,
        flag_views(quality_flags@),
    ));
    criteria
}


/// A requirement sentence found in a document, with the headings it stands under.
#[derive(Debug)]
pub struct RequirementCandidate {
    pub description: String,
    pub headings: Vec<String>,
    pub source: SourceLocation,
}

pub struct CandidateView {
    pub description: Seq<char>,
    pub headings: Seq<Seq<char>>,
    pub source: SourceLocationView,
}

impl View for RequirementCandidate {
    type V = CandidateView;

    open spec fn view(&self) -> CandidateView {
        CandidateView {
            description: self.description@,
            headings: string_views(self.headings@),
            source: self.source@,
        }
    }
}

pub open spec fn candidate_views(v: Seq<RequirementCandidate>) -> Seq<CandidateView> {
    v.map_values(|c: RequirementCandidate| c@)
}

/// The requirement built from the candidate at 1-based position `index`.
pub open spec fn build_requirement_spec(c: CandidateView, index: nat) -> RequirementView {
    let id = numbered("REQ-"@, index);
    let category = classify_category_spec(c.description, c.headings);
    let flags = quality_flags_spec(c.description);
    RequirementView {
        id,
        title: summarize_title_spec(c.description),
        description: c.description,
        category,
        priority: classify_priority_spec(c.description),
        source: c.source,
        acceptance_criteria: acceptance_criteria_spec(id, c.description, category, flags),
        quality_flags: flags,
    }
}

/// Builds the requirement `REQ-nnn` from a candidate sentence.
pub fn build_requirement(candidate: RequirementCandidate, index: u128) -> (r: Requirement)
    ensures
        r@ == build_requirement_spec(candidate@, index as nat),
{
    let id = numbered_string("REQ-", index);
    let category = classify_category(candidate.description.as_str(), candidate.headings.as_slice());
    let priority = classify_priority(candidate.description.as_str());
    let quality_flags = quality_flags_for(candidate.description.as_str());
    let title = summarize_title(candidate.description.as_str());
    let acceptance_criteria = build_acceptance_criteria(
        id.as_str(),
        candidate.description.as_str(),
        category,
        &quality_flags,
    );
    Requirement {
        id,
        title,
        description: candidate.description,
        category,
        priority,
        source: candidate.source,
        acceptance_criteria,
        quality_flags,
    }
}

/// The executor that suits a requirement: manual review for vague wording,
/// the browser for UI and compatibility, the API executor for APIs, the CLI
/// when the description mentions a command, otherwise a generic executor.
pub open spec fn executor_hint_spec(r: RequirementView) -> ExecutorHint {
    if has_flag(r.quality_flags, QualityFlagKind::VagueLanguage) {
        ExecutorHint::ManualReview
    } else if r.category == RequirementCategory::Ui || r.category
        == RequirementCategory::Compatibility {
        ExecutorHint::Browser
    } else if r.category == RequirementCategory::Api {
        ExecutorHint::Api
    } else if contains(r.description, "命令"@) || contains(r.description, "CLI"@) {
        ExecutorHint::Cli
    } else {
        ExecutorHint::Generic
    }
}

pub fn executor_hint_for(requirement: &Requirement) -> (r: ExecutorHint)
    ensures
        r == executor_hint_spec(requirement@),
{
    if has_vague_flag(&requirement.quality_flags) {
        return ExecutorHint::ManualReview;
    }
    match requirement.category {
        RequirementCategory::Ui | RequirementCategory::Compatibility => ExecutorHint::Browser,
        RequirementCategory::Api => ExecutorHint::Api,
        _ => {
            let d = chars_of(requirement.description.as_str());
            if contains_str(d.as_slice(), "命令") || contains_str(d.as_slice(), "CLI") {
                ExecutorHint::Cli
            } else {
                ExecutorHint::Generic
            }
        },
    }
}

pub open spec fn plan_steps_spec(description: Seq<char>) -> Seq<TestStepView> {
    seq![
        TestStepView {
            action: TestAction::LocateEntryPoint,
            target: "找到与该需求相关的功能入口、接口或命令。"@,
            input: None,
        },
        TestStepView {
            action: TestAction::PerformRequirementAction,
            target: "执行需求描述的核心操作。"@,
            input: Some(description),
        },
        TestStepView {
            action: TestAction::ObserveResult,
            target: "检查运行结果是否满足验收标准。"@,
            input: None,
        },
        TestStepView {
            action: TestAction::CollectEvidence,
            target: "采集输出、日志、截图、网络记录或源码位置作为证据。"@,
            input: None,
        },
    ]
}

/// The test case `TC-nnn` (1-based `index + 1`) for a requirement.
pub open spec fn test_case_spec(r: RequirementView, index: nat) -> TestCaseView {
    TestCaseView {
        id: numbered("TC-"@, index + 1),
        requirement_id: r.id,
        title: "验证 "@ + r.title,
        executor_hint: executor_hint_spec(r),
        steps: plan_steps_spec(r.description),
        expected_result: if r.acceptance_criteria.len() > 0 {
            r.acceptance_criteria[0].statement
        } else {
            "需求应被满足。"@
        },
    }
}

/// One test case per requirement, in order.
pub open spec fn test_plan_spec(rs: Seq<RequirementView>) -> TestPlanView {
    TestPlanView {
        name: "Generated acceptance test plan"@,
        cases: Seq::new(rs.len(), |i: int| test_case_spec(rs[i], i as nat)),
    }
}

fn plan_steps(description: &String) -> (r: Vec<TestStep>)
    ensures
        step_views(r@) == plan_steps_spec(description@),
{
    let r = vec![
        TestStep {
            action: TestAction::LocateEntryPoint,
            target: owned("找到与该需求相关的功能入口、接口或命令。"),
            input: None,
        },
        TestStep {
            action: TestAction::PerformRequirementAction,
            target: owned("执行需求描述的核心操作。"),
            input: Some(copy_string(description)),
        },
        TestStep {
            action: TestAction::ObserveResult,
            target: owned("检查运行结果是否满足验收标准。"),
            input: None,
        },
        TestStep {
            action: TestAction::CollectEvidence,
            target: owned("采集输出、日志、截图、网络记录或源码位置作为证据。"),
            input: None,
        },
    ];
    assert(step_views(r@) =~= plan_steps_spec(description@));
    r
}

/// The test case for the requirement at 0-based position `index`.
pub fn build_test_case(requirement: &Requirement, index: usize) -> (r: TestCase)
    ensures
        r@ == test_case_spec(requirement@, index as nat),
{
    let mut title = owned("验证 ");
    title.append(requirement.title.as_str());
    let expected_result = if requirement.acceptance_criteria.len() > 0 {
        copy_string(&requirement.acceptance_criteria[0].statement)
    } else {
        owned("需求应被满足。")
    };
    TestCase {
        id: numbered_string("TC-", index as u128 + 1),
        requirement_id: copy_string(&requirement.id),
        title,
        executor_hint: executor_hint_for(requirement),
        steps: plan_steps(&requirement.description),
        expected_result,
    }
}

/// Builds one acceptance test case per requirement.
pub fn build_test_plan(requirements: &Vec<Requirement>) -> (r: TestPlan)
    ensures
        r@ == test_plan_spec(requirement_views(requirements@)),
{
    let mut cases: Vec<TestCase> = Vec::new();
    let ghost rs = requirement_views(requirements@);
    let mut i: usize = 0;
    while i < requirements.len()
        invariant
            i <= requirements@.len(),
            rs == requirement_views(requirements@),
            case_views(cases@) == Seq::new(i as nat, |k: int| test_case_spec(rs[k], k as nat)),
        decreases requirements.len() - i,
    {
        let case = build_test_case(&requirements[i], i);
        assert(rs[i as int] == requirements@[i as int]@);
        let ghost before = cases@;
        let ghost cv = case@;
        cases.push(case);
        assert(case_views(cases@) == case_views(before).push(cv));
        assert(case_views(cases@) =~= Seq::new((i + 1) as nat, |k: int| test_case_spec(rs[k], k as nat)));
        i = i + 1;
    }
    let plan = TestPlan { name: owned("Generated acceptance test plan"), cases };
    assert(plan@.cases =~= test_plan_spec(rs).cases);
    plan
}


// ---------------------------------------------------------------------------
// Documents
// ---------------------------------------------------------------------------

/// The requirement sentences of one document.
#[derive(Debug)]
pub struct ParsedDocument {
    pub path: String,
    pub title: Option<String>,
    pub candidates: Vec<RequirementCandidate>,
}

pub struct ParseState {
    pub in_fence: bool,
    pub title: Option<Seq<char>>,
    pub headings: Seq<Seq<char>>,
    pub candidates: Seq<CandidateView>,
}

pub open spec fn initial_parse_state() -> ParseState {
    ParseState {
        in_fence: false,
        title: None,
        headings: Seq::<Seq<char>>::empty(),
        candidates: Seq::<CandidateView>::empty(),
    }
}

/// The heading stack after a heading of `level`: the headings above that
/// level are kept, then the new heading follows.
pub open spec fn update_headings_spec(h: Seq<Seq<char>>, level: nat, heading: Seq<char>) -> Seq<
    Seq<char>,
> {
    let keep: nat = if level == 0 {
        0
    } else {
        (level - 1) as nat
    };
    let k: int = if keep < h.len() {
        keep as int
    } else {
        h.len() as int
    };
    h.take(k).push(heading)
}

/// One line of a document processed: code fences toggle, blank and table
/// lines are skipped, headings update the heading stack (the first level-1
/// heading is the title), and requirement sentences become candidates.
pub open spec fn parse_step(st: ParseState, line: Seq<char>, number: nat, path: Seq<char>) -> ParseState {
    let trimmed = trim(line);
    if crate::text::starts_with(trimmed, "```"@) || crate::text::starts_with(trimmed, "~~~"@) {
        ParseState {
            in_fence: !st.in_fence,
            title: st.title,
            headings: st.headings,
            candidates: st.candidates,
        }
    } else if st.in_fence || trimmed.len() == 0 || is_table_line(trimmed) {
        st
    } else {
        match parse_heading_spec(trimmed) {
            Some((level, heading)) => ParseState {
                in_fence: st.in_fence,
                title: if st.title is None && level == 1 {
                    Some(heading)
                } else {
                    st.title
                },
                headings: update_headings_spec(st.headings, level, heading),
                candidates: st.candidates,
            },
            None => {
                let list = strip_list_marker_spec(trimmed);
                let text = match list {
                    Some(t) => strip_inline(t),
                    None => strip_inline(trimmed),
                };
                if is_requirement_candidate_spec(text, st.headings, list is Some) {
                    ParseState {
                        in_fence: st.in_fence,
                        title: st.title,
                        headings: st.headings,
                        candidates: st.candidates.push(
                            CandidateView {
                                description: text,
                                headings: st.headings,
                                source: SourceLocationView { path, line: number as usize },
                            },
                        ),
                    }
                } else {
                    st
                }
            },
        }
    }
}

/// The parse state after the first `n` lines.
pub open spec fn parse_lines(ls: Seq<Seq<char>>, n: nat, path: Seq<char>) -> ParseState
    decreases n,
{
    if n == 0 || n > ls.len() {
        initial_parse_state()
    } else {
        parse_step(parse_lines(ls, (n - 1) as nat, path), ls[n - 1], n, path)
    }
}

pub struct ParsedDocumentView {
    pub path: Seq<char>,
    pub title: Option<Seq<char>>,
    pub candidates: Seq<CandidateView>,
}

impl View for ParsedDocument {
    type V = ParsedDocumentView;

    open spec fn view(&self) -> ParsedDocumentView {
        ParsedDocumentView {
            path: self.path@,
            title: opt_string_view(self.title),
            candidates: candidate_views(self.candidates@),
        }
    }
}

/// The requirement sentences of a document's text, shown under `path`.
pub open spec fn parse_document_spec(path: Seq<char>, contents: Seq<char>) -> ParsedDocumentView {
    let ls = lines(contents);
    let st = parse_lines(ls, ls.len(), path);
    ParsedDocumentView { path, title: st.title, candidates: st.candidates }
}

/// Applies a heading of `level` to the heading stack.
pub fn update_headings(headings: &mut Vec<String>, level: usize, heading: String)
    ensures
        string_views(final(headings)@) == update_headings_spec(
            string_views(old(headings)@),
            level as nat,
            heading@,
        ),
{
    let keep = if level == 0 {
        0
    } else {
        level - 1
    };
    let ghost h = string_views(headings@);
    headings.truncate(keep);
    let ghost k: int = if keep < h.len() {
        keep as int
    } else {
        h.len() as int
    };
    assert(string_views(headings@) =~= h.take(k));
    headings.push(heading);
    assert(string_views(headings@) =~= h.take(k).push(heading@));
}

/// Extracts the title and the requirement sentences of a document.
pub fn parse_document(path: &str, contents: &str) -> (r: ParsedDocument)
    ensures
        r@ == parse_document_spec(path@, contents@),
{
    let chars = chars_of(contents);
    let all = lines_of(chars.as_slice());
    let ghost ls = lines(contents@);
    let mut in_fence = false;
    let mut title: Option<String> = None;
    let mut headings: Vec<String> = Vec::new();
    let mut candidates: Vec<RequirementCandidate> = Vec::new();
    let mut i: usize = 0;
    while i < all.len()
        invariant
            i <= all@.len(),
            views(all@) == ls,
            ({
                let st = parse_lines(ls, i as nat, path@);
                &&& st.in_fence == in_fence
                &&& st.title == opt_string_view(title)
                &&& st.headings == string_views(headings@)
                &&& st.candidates == candidate_views(candidates@)
            }),
        decreases all.len() - i,
    {
        let ghost st = parse_lines(ls, i as nat, path@);
        assert(ls[i as int] == all@[i as int]@);
        let trimmed = trim_chars(all[i].as_slice());
        let number = i + 1;
        if crate::text::starts_with_str(trimmed.as_slice(), "```") || crate::text::starts_with_str(
            trimmed.as_slice(),
            "~~~",
        ) {
            in_fence = !in_fence;
        } else if in_fence || trimmed.len() == 0 || is_markdown_table_line(trimmed.as_slice()) {
        } else {
            let trimmed_str = string_of(trimmed.as_slice());
            match parse_heading(trimmed_str.as_str()) {
                Some((level, heading)) => {
                    if title.is_none() && level == 1 {
                        title = Some(copy_string(&heading));
                    }
                    update_headings(&mut headings, level, heading);
                },
                None => {
                    let list = strip_list_marker(trimmed.as_slice());
                    let list_item = list.is_some();
                    let text_chars = match list {
                        Some(t) => strip_inline_chars(t.as_slice()),
                        None => strip_inline_chars(trimmed.as_slice()),
                    };
                    let text = string_of(text_chars.as_slice());
                    if is_requirement_candidate(text.as_str(), &headings, list_item) {
                        let ghost before = candidates@;
                        let c = RequirementCandidate {
                            description: text,
                            headings: copy_strings(&headings),
                            source: SourceLocation { path: owned(path), line: number },
                        };
                        let ghost cv = c@;
                        candidates.push(c);
                        assert(candidate_views(candidates@) == candidate_views(before).push(cv));
                    }
                },
            }
        }
        i = i + 1;
    }
    ParsedDocument { path: owned(path), title, candidates }
}


// ---------------------------------------------------------------------------
// Analysis
// ---------------------------------------------------------------------------

/// A requirement document's display path and text.
#[derive(Debug)]
pub struct DocumentText {
    pub path: String,
    pub contents: String,
}

pub struct AnalysisState {
    pub documents: Seq<RequirementDocumentView>,
    pub requirements: Seq<RequirementView>,
    pub diagnostics: Seq<RequirementDiagnosticView>,
}

/// The informational diagnostic for one quality flag of a requirement:
/// `<flag> at <path>:<line> - <message>`.
pub open spec fn flag_diagnostic(r: RequirementView, f: QualityFlagView) -> RequirementDiagnosticView {
    RequirementDiagnosticView {
        severity: DiagnosticSeverity::Info,
        message: flag_kind_name(f.kind) + " at "@ + r.source.path + ":"@ + crate::text::decimal(
            r.source.line as nat,
        ) + " - "@ + f.message,
    }
}

pub open spec fn step_candidate(st: AnalysisState, c: CandidateView) -> AnalysisState {
    let r = build_requirement_spec(c, st.requirements.len() + 1);
    AnalysisState {
        documents: st.documents,
        requirements: st.requirements.push(r),
        diagnostics: st.diagnostics + r.quality_flags.map_values(
            |f: QualityFlagView| flag_diagnostic(r, f),
        ),
    }
}

pub open spec fn fold_candidates(st: AnalysisState, cs: Seq<CandidateView>, n: nat) -> AnalysisState
    decreases n,
{
    if n == 0 || n > cs.len() {
        st
    } else {
        step_candidate(fold_candidates(st, cs, (n - 1) as nat), cs[n - 1])
    }
}

pub open spec fn step_document(st: AnalysisState, path: Seq<char>, contents: Seq<char>) -> AnalysisState {
    let p = parse_document_spec(path, contents);
    let st1 = AnalysisState {
        documents: st.documents.push(
            RequirementDocumentView {
                path: p.path,
                title: p.title,
                requirement_count: p.candidates.len() as usize,
            },
        ),
        requirements: st.requirements,
        diagnostics: st.diagnostics,
    };
    fold_candidates(st1, p.candidates, p.candidates.len())
}

pub struct DocumentTextView {
    pub path: Seq<char>,
    pub contents: Seq<char>,
}

impl View for DocumentText {
    type V = DocumentTextView;

    open spec fn view(&self) -> DocumentTextView {
        DocumentTextView { path: self.path@, contents: self.contents@ }
    }
}

pub open spec fn fold_documents(st: AnalysisState, docs: Seq<DocumentTextView>, n: nat) -> AnalysisState
    decreases n,
{
    if n == 0 || n > docs.len() {
        st
    } else {
        let prev = fold_documents(st, docs, (n - 1) as nat);
        step_document(prev, docs[n - 1].path, docs[n - 1].contents)
    }
}

pub open spec fn no_documents_message() -> Seq<char> {
    "No requirement documents were found."@
}

pub open spec fn where_to_put_documents_message() -> Seq<char> {
    "Pass a Markdown/TXT file directly, or place requirement documents in README, PRD, SPEC, REQUIREMENTS, or docs/."@
}

pub open spec fn no_sentence_message() -> Seq<char> {
    "Requirement documents were found, but no testable requirement sentence was extracted."@
}

/// The report for documents (already read) under the display source `source`:
/// requirements are numbered across documents in order, every quality flag
/// also becomes an informational diagnostic, and the missing-document and
/// missing-requirement cases are diagnosed.
pub open spec fn analyze_spec(source: Seq<char>, docs: Seq<DocumentTextView>) -> RequirementReportView {
    let init = analyze_init(docs);
    let st = fold_documents(init, docs, docs.len());
    let diagnostics = if st.documents.len() == 0 {
        st.diagnostics.push(
            RequirementDiagnosticView {
                severity: DiagnosticSeverity::Info,
                message: where_to_put_documents_message(),
            },
        )
    } else if st.requirements.len() == 0 {
        st.diagnostics.push(
            RequirementDiagnosticView {
                severity: DiagnosticSeverity::Warning,
                message: no_sentence_message(),
            },
        )
    } else {
        st.diagnostics
    };
    RequirementReportView {
        source,
        engine: AnalysisEngine::RuleBased,
        documents: st.documents,
        requirements: st.requirements,
        test_plan: test_plan_spec(st.requirements),
        diagnostics,
    }
}

/// The informational diagnostic of a quality flag.
pub fn flag_diagnostic_exec(requirement: &Requirement, flag: &RequirementQualityFlag) -> (r:
    RequirementDiagnostic)
    ensures
        r@ == flag_diagnostic(requirement@, flag@),
{
    let mut message = owned(flag.kind.name());
    message.append(" at ");
    message.append(requirement.source.path.as_str());
    message.append(":");
    let line = crate::text::decimal_string(requirement.source.line as u128);
    message.append(line.as_str());
    message.append(" - ");
    message.append(flag.message.as_str());
    RequirementDiagnostic { severity: DiagnosticSeverity::Info, message }
}

fn add_candidates(
    candidates: Vec<RequirementCandidate>,
    requirements: &mut Vec<Requirement>,
    diagnostics: &mut Vec<RequirementDiagnostic>,
    Ghost(documents): Ghost<Seq<RequirementDocumentView>>,
)
    ensures
        ({
            let st = fold_candidates(
                AnalysisState {
                    documents,
                    requirements: requirement_views(old(requirements)@),
                    diagnostics: diagnostic_views(old(diagnostics)@),
                },
                candidate_views(candidates@),
                candidates@.len(),
            );
            &&& st.documents == documents
            &&& st.requirements == requirement_views(final(requirements)@)
            &&& st.diagnostics == diagnostic_views(final(diagnostics)@)
        }),
{
    let ghost init = AnalysisState {
        documents,
        requirements: requirement_views(requirements@),
        diagnostics: diagnostic_views(diagnostics@),
    };
    let ghost cs = candidate_views(candidates@);
    let n = candidates.len();
    let mut rest = candidates;
    let mut i: usize = 0;
    while i < n
        invariant
            n == cs.len(),
            i <= n,
            rest@.len() == n - i,
            forall|k: int| 0 <= k < n - i ==> (#[trigger] rest@[k])@ == cs[i + k],
            ({
                let st = fold_candidates(init, cs, i as nat);
                &&& st.documents == documents
                &&& st.requirements == requirement_views(requirements@)
                &&& st.diagnostics == diagnostic_views(diagnostics@)
            }),
        decreases n - i,
    {
        assert(rest@[0]@ == cs[i as int]);
        let candidate = rest.remove(0);
        assert(candidate@ == cs[i as int]);
        assert(forall|k: int| 0 <= k < n - i - 1 ==> (#[trigger] rest@[k])@ == cs[i + 1 + k]);
        let index = requirements.len() as u128 + 1;
        let requirement = build_requirement(candidate, index);
        let ghost rv = requirement@;
        let ghost dbefore = diagnostics@;
        let mut j: usize = 0;
        while j < requirement.quality_flags.len()
            invariant
                j <= requirement.quality_flags@.len(),
                rv == requirement@,
                diagnostic_views(diagnostics@) == diagnostic_views(dbefore) + rv.quality_flags.take(
                    j as int,
                ).map_values(|f: QualityFlagView| flag_diagnostic(rv, f)),
            decreases requirement.quality_flags.len() - j,
        {
            let d = flag_diagnostic_exec(&requirement, &requirement.quality_flags[j]);
            let ghost before = diagnostics@;
            let ghost dv = d@;
            diagnostics.push(d);
            assert(diagnostic_views(diagnostics@) == diagnostic_views(before).push(dv));
            assert(rv.quality_flags.take(j + 1) == rv.quality_flags.take(j as int).push(
                rv.quality_flags[j as int],
            ));
            j = j + 1;
        }
        assert(rv.quality_flags.take(rv.quality_flags.len() as int) == rv.quality_flags);
        let ghost rbefore = requirements@;
        requirements.push(requirement);
        assert(requirement_views(requirements@) == requirement_views(rbefore).push(rv));
        i = i + 1;
    }
}

/// Analyses requirement documents that have already been read. `source` is
/// the displayed requirement source; each document carries its display path
/// and its text.
pub fn analyze_requirements(source: &str, documents: Vec<DocumentText>) -> (r: RequirementReport)
    ensures
        r@ == analyze_spec(source@, documents@.map_values(|d: DocumentText| d@)),
{
    let ghost docs = documents@.map_values(|d: DocumentText| d@);
    let mut document_reports: Vec<RequirementDocument> = Vec::new();
    let mut requirements: Vec<Requirement> = Vec::new();
    let mut diagnostics: Vec<RequirementDiagnostic> = Vec::new();
    if documents.len() == 0 {
        diagnostics.push(
            RequirementDiagnostic {
                severity: DiagnosticSeverity::Warning,
                message: owned("No requirement documents were found."),
            },
        );
    }
    let ghost init = AnalysisState {
        documents: Seq::<RequirementDocumentView>::empty(),
        requirements: Seq::<RequirementView>::empty(),
        diagnostics: diagnostic_views(diagnostics@),
    };
    assert(init.diagnostics =~= analyze_init(docs).diagnostics);
    assert(init.documents =~= analyze_init(docs).documents);
    assert(init.requirements =~= analyze_init(docs).requirements);
    assert(init == analyze_init(docs));
    let mut i: usize = 0;
    while i < documents.len()
        invariant
            i <= documents@.len(),
            docs == documents@.map_values(|d: DocumentText| d@),
            ({
                let st = fold_documents(init, docs, i as nat);
                &&& st.documents == document_views(document_reports@)
                &&& st.requirements == requirement_views(requirements@)
                &&& st.diagnostics == diagnostic_views(diagnostics@)
            }),
        decreases documents.len() - i,
    {
        let parsed = parse_document(documents[i].path.as_str(), documents[i].contents.as_str());
        assert(docs[i as int] == documents@[i as int]@);
        let ghost dbefore = document_reports@;
        let doc = RequirementDocument {
            path: copy_string(&parsed.path),
            title: match &parsed.title {
                Some(t) => Some(copy_string(t)),
                None => None,
            },
            requirement_count: parsed.candidates.len(),
        };
        let ghost docv = doc@;
        document_reports.push(doc);
        assert(document_views(document_reports@) == document_views(dbefore).push(docv));
        add_candidates(
            parsed.candidates,
            &mut requirements,
            &mut diagnostics,
            Ghost(document_views(document_reports@)),
        );
        i = i + 1;
    }
    if document_reports.len() == 0 {
        diagnostics.push(
            RequirementDiagnostic {
                severity: DiagnosticSeverity::Info,
                message: owned(
                    "Pass a Markdown/TXT file directly, or place requirement documents in README, PRD, SPEC, REQUIREMENTS, or docs/.",
                ),
            },
        );
    } else if requirements.len() == 0 {
        diagnostics.push(
            RequirementDiagnostic {
                severity: DiagnosticSeverity::Warning,
                message: owned(
                    "Requirement documents were found, but no testable requirement sentence was extracted.",
                ),
            },
        );
    }
    let ghost st = fold_documents(init, docs, docs.len());
    assert(documents@.len() == docs.len());
    let test_plan = build_test_plan(&requirements);
    let report = RequirementReport {
        source: owned(source),
        engine: AnalysisEngine::RuleBased,
        documents: document_reports,
        requirements,
        test_plan,
        diagnostics,
    };
    assert(report@.diagnostics == analyze_spec(source@, docs).diagnostics);
    report
}

pub open spec fn analyze_init(docs: Seq<DocumentTextView>) -> AnalysisState {
    AnalysisState {
        documents: Seq::<RequirementDocumentView>::empty(),
        requirements: Seq::<RequirementView>::empty(),
        diagnostics: if docs.len() == 0 {
            seq![
                RequirementDiagnosticView {
                    severity: DiagnosticSeverity::Warning,
                    message: no_documents_message(),
                },
            ]
        } else {
            Seq::<RequirementDiagnosticView>::empty()
        },
    }
}


/// A document the analysis reads when given a directory: a Markdown or text
/// file named README*, REQUIREMENT*, SPEC* or PRD* (in any case), or one
/// under a top-level `docs` directory. `rel` is its path relative to the
/// directory, written with `/`.
pub open spec fn is_requirement_document_spec(rel: Seq<char>, file_name: Seq<char>) -> bool {
    let upper = ascii_upper(file_name);
    let named = starts_with(upper, "README"@) || starts_with(upper, "REQUIREMENT"@) || starts_with(
        upper,
        "SPEC"@,
    ) || starts_with(upper, "PRD"@);
    let in_docs = ascii_lower(components(rel)[0]) == "docs"@;
    let markdown = match extension_of(file_name) {
        Some(e) => ascii_lower(e) == "md"@ || ascii_lower(e) == "txt"@,
        None => false,
    };
    markdown && (named || in_docs)
}

/// Whether the analysis of a directory reads the file at `rel` named
/// `file_name`.
pub fn is_requirement_document(rel: &str, file_name: &str) -> (r: bool)
    ensures
        r == is_requirement_document_spec(rel@, file_name@),
{
    let upper = ascii_upper_chars(chars_of(file_name).as_slice());
    let named = starts_with_str(upper.as_slice(), "README") || starts_with_str(upper.as_slice(), "REQUIREMENT")
        || starts_with_str(upper.as_slice(), "SPEC") || starts_with_str(upper.as_slice(), "PRD");
    let parts = split_chars(chars_of(rel).as_slice(), '/');
    proof {
        crate::text::lemma_split_char_nonempty(rel@, '/');
    }
    assert(views(parts@)[0] == parts@[0]@);
    let first = ascii_lower_chars(parts[0].as_slice());
    let in_docs = chars_eq_str(first.as_slice(), "docs");
    let markdown = match file_extension(file_name) {
        Some(e) => {
            let le = ascii_lower_chars(chars_of(e.as_str()).as_slice());
            chars_eq_str(le.as_slice(), "md") || chars_eq_str(le.as_slice(), "txt")
        },
        None => false,
    };
    markdown && (named || in_docs)
}


/// Requirement `k` (from zero) is `REQ-` and `k + 1` padded to three digits.
pub open spec fn numbered_in_order(rs: Seq<RequirementView>) -> bool {
    forall|k: int| 0 <= k < rs.len() ==> (#[trigger] rs[k]).id == numbered("REQ-"@, (k + 1) as nat)
}

/// Each requirement has acceptance criteria, the first being `<id>-AC-01`.
pub open spec fn all_have_criteria(rs: Seq<RequirementView>) -> bool {
    forall|k: int|
        0 <= k < rs.len() ==> (#[trigger] rs[k]).acceptance_criteria.len() >= 1
            && rs[k].acceptance_criteria[0].id == rs[k].id + "-AC-01"@
}

proof fn lemma_fold_candidates_numbered(st: AnalysisState, cs: Seq<CandidateView>, n: nat)
    requires
        n <= cs.len(),
        numbered_in_order(st.requirements),
        all_have_criteria(st.requirements),
    ensures
        fold_candidates(st, cs, n).requirements.len() == st.requirements.len() + n,
        fold_candidates(st, cs, n).documents == st.documents,
        numbered_in_order(fold_candidates(st, cs, n).requirements),
        all_have_criteria(fold_candidates(st, cs, n).requirements),
    decreases n,
{
    if n > 0 {
        let prev = fold_candidates(st, cs, (n - 1) as nat);
        lemma_fold_candidates_numbered(st, cs, (n - 1) as nat);
        let r = build_requirement_spec(cs[n - 1], prev.requirements.len() + 1);
        let next = prev.requirements.push(r);
        assert forall|k: int| 0 <= k < next.len() implies (#[trigger] next[k]).id == numbered(
            "REQ-"@,
            (k + 1) as nat,
        ) && next[k].acceptance_criteria.len() >= 1 && next[k].acceptance_criteria[0].id == next[k].id
            + "-AC-01"@ by {
            if k < prev.requirements.len() {
                assert(next[k] == prev.requirements[k]);
            }
        }
    }
}

proof fn lemma_fold_documents_numbered(st: AnalysisState, docs: Seq<DocumentTextView>, n: nat)
    requires
        n <= docs.len(),
        numbered_in_order(st.requirements),
        all_have_criteria(st.requirements),
    ensures
        fold_documents(st, docs, n).documents.len() == st.documents.len() + n,
        numbered_in_order(fold_documents(st, docs, n).requirements),
        all_have_criteria(fold_documents(st, docs, n).requirements),
    decreases n,
{
    if n > 0 {
        let prev = fold_documents(st, docs, (n - 1) as nat);
        lemma_fold_documents_numbered(st, docs, (n - 1) as nat);
        let p = parse_document_spec(docs[n - 1].path, docs[n - 1].contents);
        let st1 = AnalysisState {
            documents: prev.documents.push(
                RequirementDocumentView {
                    path: p.path,
                    title: p.title,
                    requirement_count: p.candidates.len() as usize,
                },
            ),
            requirements: prev.requirements,
            diagnostics: prev.diagnostics,
        };
        lemma_fold_candidates_numbered(st1, p.candidates, p.candidates.len());
    }
}

/// The rule engine numbers the requirements `REQ-001`, `REQ-002`, ... in
/// document order, gives each at least one acceptance criterion, the first
/// being `<id>-AC-01`, reports one entry per document read, and plans exactly
/// one test case per requirement: case `TC-00k` verifies requirement `k` in
/// four steps.
pub proof fn lemma_analysis_numbers_and_plans(source: Seq<char>, docs: Seq<DocumentTextView>)
    ensures
        numbered_in_order(analyze_spec(source, docs).requirements),
        all_have_criteria(analyze_spec(source, docs).requirements),
        analyze_spec(source, docs).documents.len() == docs.len(),
        analyze_spec(source, docs).test_plan.cases.len() == analyze_spec(source, docs).requirements.len(),
        forall|k: int|
            0 <= k < analyze_spec(source, docs).requirements.len() ==> {
                let case = #[trigger] analyze_spec(source, docs).test_plan.cases[k];
                &&& case.requirement_id == analyze_spec(source, docs).requirements[k].id
                &&& case.id == numbered("TC-"@, (k + 1) as nat)
                &&& case.steps.len() == 4
            },
{
    lemma_fold_documents_numbered(analyze_init(docs), docs, docs.len());
}

/// Each planned test case goes to the executor its requirement calls for:
/// manual review when the wording is vague; otherwise the browser for UI and
/// compatibility requirements, the API executor for API requirements, and for
/// the rest the CLI executor when the description names a command (`命令` or
/// `CLI`) and the generic one when it does not. So an API requirement without
/// vague wording is never handed to the browser or the generic executor.
pub proof fn lemma_executor_hints_follow_requirements(source: Seq<char>, docs: Seq<DocumentTextView>)
    ensures
        forall|k: int|
            0 <= k < analyze_spec(source, docs).requirements.len() ==> {
                let r = analyze_spec(source, docs).requirements[k];
                let h = (#[trigger] analyze_spec(source, docs).test_plan.cases[k]).executor_hint;
                let vague = exists|i: int|
                    0 <= i < r.quality_flags.len() && r.quality_flags[i].kind == QualityFlagKind::VagueLanguage;
                &&& vague ==> h == ExecutorHint::ManualReview
                &&& !vague && (r.category == RequirementCategory::Ui || r.category
                    == RequirementCategory::Compatibility) ==> h == ExecutorHint::Browser
                &&& !vague && r.category == RequirementCategory::Api ==> h == ExecutorHint::Api
                &&& !vague && r.category != RequirementCategory::Ui && r.category
                    != RequirementCategory::Compatibility && r.category != RequirementCategory::Api ==> (h
                    == ExecutorHint::Cli <==> (contains(r.description, "命令"@) || contains(r.description, "CLI"@)))
                &&& !vague && r.category != RequirementCategory::Ui && r.category
                    != RequirementCategory::Compatibility && r.category != RequirementCategory::Api ==> (h
                    == ExecutorHint::Cli || h == ExecutorHint::Generic)
            },
{
    lemma_analysis_numbers_and_plans(source, docs);
}


/// Whether path `a` sorts before path `b`: character by character with `/`
/// first, so that paths sort component by component (`docs/a.md` before
/// `docs-old/a.md`), and a path before those it is a prefix of.
pub open spec fn path_lt(a: Seq<char>, b: Seq<char>) -> bool
    decreases a.len(),
{
    if a.len() == 0 {
        b.len() > 0
    } else if b.len() == 0 {
        false
    } else if a[0] == b[0] {
        path_lt(a.drop_first(), b.drop_first())
    } else if a[0] == '/' {
        true
    } else if b[0] == '/' {
        false
    } else {
        a[0] < b[0]
    }
}

proof fn lemma_path_lt_total(a: Seq<char>, b: Seq<char>)
    ensures
        a != b ==> (path_lt(a, b) || path_lt(b, a)),
        !(path_lt(a, b) && path_lt(b, a)),
    decreases a.len(),
{
    if a.len() > 0 && b.len() > 0 {
        lemma_path_lt_total(a.drop_first(), b.drop_first());
        if a != b && a[0] == b[0] {
            assert(a.drop_first() != b.drop_first()) by {
                if a.drop_first() == b.drop_first() {
                    assert(a =~= seq![a[0]] + a.drop_first());
                    assert(b =~= seq![b[0]] + b.drop_first());
                }
            }
        }
    } else if a.len() == 0 && b.len() == 0 {
        assert(a =~= b);
    }
}

proof fn lemma_path_lt_transitive(a: Seq<char>, b: Seq<char>, c: Seq<char>)
    requires
        path_lt(a, b),
        path_lt(b, c),
    ensures
        path_lt(a, c),
    decreases a.len(),
{
    if a.len() > 0 && b.len() > 0 && c.len() > 0 {
        if a[0] == b[0] && b[0] == c[0] {
            lemma_path_lt_transitive(a.drop_first(), b.drop_first(), c.drop_first());
        }
    }
}

/// Whether path `a` sorts before path `b`.
pub fn path_less(a: &str, b: &str) -> (r: bool)
    ensures
        r == path_lt(a@, b@),
{
    let x = chars_of(a);
    let y = chars_of(b);
    let mut i: usize = 0;
    assert(x@.skip(0) == x@);
    assert(y@.skip(0) == y@);
    while i < x.len() && i < y.len()
        invariant
            i <= x@.len(),
            i <= y@.len(),
            x@ == a@,
            y@ == b@,
            path_lt(x@, y@) == path_lt(x@.skip(i as int), y@.skip(i as int)),
        decreases x.len() - i,
    {
        let cx = x[i];
        let cy = y[i];
        assert(x@.skip(i as int)[0] == cx);
        assert(y@.skip(i as int)[0] == cy);
        if cx == cy {
            assert(x@.skip(i as int).drop_first() == x@.skip(i + 1));
            assert(y@.skip(i as int).drop_first() == y@.skip(i + 1));
            i = i + 1;
        } else {
            if cx == '/' {
                return true;
            }
            if cy == '/' {
                return false;
            }
            return cx < cy;
        }
    }
    i == x.len() && i < y.len()
}

pub open spec fn text_views(v: Seq<DocumentText>) -> Seq<DocumentTextView> {
    v.map_values(|d: DocumentText| d@)
}

/// No document sorts before one ahead of it.
pub open spec fn documents_in_path_order(ds: Seq<DocumentTextView>) -> bool {
    forall|i: int, j: int| 0 <= i < j < ds.len() ==> !path_lt(#[trigger] ds[j].path, #[trigger] ds[i].path)
}

/// The documents in path order, as they are analysed: the same documents,
/// sorted by `path_lt`.
pub fn order_documents(documents: Vec<DocumentText>) -> (r: Vec<DocumentText>)
    ensures
        documents_in_path_order(text_views(r@)),
        text_views(r@).to_multiset() == text_views(documents@).to_multiset(),
{
    broadcast use vstd::seq_lib::group_to_multiset_ensures;
    let ghost orig = text_views(documents@);
    let mut rest = documents;
    let mut out: Vec<DocumentText> = Vec::new();
    assert(text_views(out@).to_multiset() =~= vstd::multiset::Multiset::<DocumentTextView>::empty());
    while rest.len() > 0
        invariant
            documents_in_path_order(text_views(out@)),
            text_views(out@).to_multiset().add(text_views(rest@).to_multiset()) == orig.to_multiset(),
        decreases rest.len(),
    {
        let ghost rv = text_views(rest@);
        let ghost ov = text_views(out@);
        let x = rest.remove(0);
        proof {
            assert(text_views(rest@) =~= rv.remove(0));
            vstd::seq_lib::to_multiset_remove(rv, 0);
            vstd::seq_lib::to_multiset_contains(rv, rv[0]);
        }
        let mut p: usize = 0;
        while p < out.len() && !path_less(x.path.as_str(), out[p].path.as_str())
            invariant
                p <= out@.len(),
                ov == text_views(out@),
                forall|q: int| 0 <= q < p ==> !path_lt(x.path@, #[trigger] ov[q].path),
            decreases out.len() - p,
        {
            assert(ov[p as int] == out@[p as int]@);
            p = p + 1;
        }
        proof {
            if p < out@.len() {
                assert(ov[p as int] == out@[p as int]@);
            }
        }
        let ghost xv = x@;
        out.insert(p, x);
        proof {
            let nv = text_views(out@);
            assert(nv =~= ov.insert(p as int, xv));
            vstd::seq_lib::to_multiset_insert(ov, p as int, xv);
            assert(xv == rv[0]);
            assert(ov.to_multiset().insert(xv).add(rv.to_multiset().remove(xv)) =~= ov.to_multiset().add(
                rv.to_multiset(),
            )) by {
                broadcast use vstd::multiset::group_multiset_axioms;
            }
            assert forall|i: int, j: int| 0 <= i < j < nv.len() implies !path_lt(
                #[trigger] nv[j].path,
                #[trigger] nv[i].path,
            ) by {
                if j < p {
                    assert(nv[i] == ov[i] && nv[j] == ov[j]);
                } else if j == p {
                    assert(nv[i] == ov[i] && nv[j] == xv);
                } else if i < p {
                    assert(nv[i] == ov[i] && nv[j] == ov[j - 1]);
                } else if i == p {
                    assert(nv[i] == xv && nv[j] == ov[j - 1]);
                    if path_lt(ov[j - 1].path, xv.path) {
                        lemma_path_lt_transitive(ov[j - 1].path, xv.path, ov[p as int].path);
                        if j - 1 == p {
                            lemma_path_lt_total(ov[p as int].path, xv.path);
                        } else {
                            assert(!path_lt(ov[j - 1].path, ov[p as int].path));
                        }
                    }
                } else {
                    assert(nv[i] == ov[i - 1] && nv[j] == ov[j - 1]);
                }
            }
        }
    }
    assert(text_views(rest@).to_multiset() =~= vstd::multiset::Multiset::<DocumentTextView>::empty());
    out
}


/// The requirements the documents say they hold, added up.
pub open spec fn counted_requirements(ds: Seq<RequirementDocumentView>) -> nat
    decreases ds.len(),
{
    if ds.len() == 0 {
        0
    } else {
        counted_requirements(ds.drop_last()) + ds.last().requirement_count as nat
    }
}

proof fn lemma_split_count(s: Seq<char>, c: char)
    ensures
        crate::text::split_char(s, c).len() <= s.len() + 1,
    decreases s.len(),
{
    if s.len() > 0 {
        lemma_split_count(s.drop_last(), c);
        crate::text::lemma_split_char_nonempty(s.drop_last(), c);
    }
}

proof fn lemma_parse_lines_count(ls: Seq<Seq<char>>, n: nat, path: Seq<char>)
    ensures
        parse_lines(ls, n, path).candidates.len() <= n,
    decreases n,
{
    if n > 0 && n <= ls.len() {
        lemma_parse_lines_count(ls, (n - 1) as nat, path);
    }
}

/// A document of `n` characters yields at most `n + 1` candidates.
proof fn lemma_candidates_bounded(path: Seq<char>, contents: Seq<char>)
    ensures
        parse_document_spec(path, contents).candidates.len() <= contents.len() + 1,
{
    let ls = lines(contents);
    lemma_split_count(contents, '\n');
    crate::text::lemma_split_char_nonempty(contents, '\n');
    assert(ls.len() <= crate::text::split_char(contents, '\n').len());
    lemma_parse_lines_count(ls, ls.len(), path);
}

proof fn lemma_fold_candidates_count(st: AnalysisState, cs: Seq<CandidateView>, n: nat)
    requires
        n <= cs.len(),
    ensures
        fold_candidates(st, cs, n).requirements.len() == st.requirements.len() + n,
        fold_candidates(st, cs, n).documents == st.documents,
    decreases n,
{
    if n > 0 {
        lemma_fold_candidates_count(st, cs, (n - 1) as nat);
    }
}

proof fn lemma_fold_documents_counted(st: AnalysisState, docs: Seq<DocumentTextView>, n: nat)
    requires
        n <= docs.len(),
        forall|k: int| 0 <= k < docs.len() ==> (#[trigger] docs[k]).contents.len() < usize::MAX,
        counted_requirements(st.documents) == st.requirements.len(),
    ensures
        counted_requirements(fold_documents(st, docs, n).documents) == fold_documents(st, docs, n).requirements.len(),
    decreases n,
{
    if n > 0 {
        let prev = fold_documents(st, docs, (n - 1) as nat);
        lemma_fold_documents_counted(st, docs, (n - 1) as nat);
        let d = docs[n - 1];
        let p = parse_document_spec(d.path, d.contents);
        lemma_candidates_bounded(d.path, d.contents);
        let doc = RequirementDocumentView { path: p.path, title: p.title, requirement_count: p.candidates.len() as usize };
        let st1 = AnalysisState {
            documents: prev.documents.push(doc),
            requirements: prev.requirements,
            diagnostics: prev.diagnostics,
        };
        lemma_fold_candidates_count(st1, p.candidates, p.candidates.len());
        assert(st1.documents.drop_last() == prev.documents);
        assert(doc.requirement_count as nat == p.candidates.len());
    }
}

/// The requirement counts of the documents add up to the requirements of the
/// report (for texts of fewer than `usize::MAX` characters, as every text in
/// memory is).
pub proof fn lemma_document_counts_add_up(source: Seq<char>, docs: Seq<DocumentTextView>)
    requires
        forall|k: int| 0 <= k < docs.len() ==> (#[trigger] docs[k]).contents.len() < usize::MAX,
    ensures
        counted_requirements(analyze_spec(source, docs).documents) == analyze_spec(source, docs).requirements.len(),
{
    lemma_fold_documents_counted(analyze_init(docs), docs, docs.len());
}

} // verus!
