//! Remediation planning: one patch proposal per review issue, each awaiting
//! approval, with the regression checks that confirm the fix, and one global
//! check for the whole review.
use vstd::prelude::*;

use crate::requirements::RequirementView;
use crate::review::{ApprovalState, Issue, IssueCategory, ReviewReport};
use crate::text::{
    chars_of, contains, contains_str, decimal, decimal_string, drop_trailing, numbered,
    numbered_string, opt_string_view, owned, string_of, strip_trailing, trim, trim_chars, CharClass,
};

verus! {

/// How an issue is fixed.
#[derive(Clone, Copy, PartialEq, Eq, Structural, Debug)]
pub enum PatchStrategy {
    RequirementClarification,
    LaunchConfiguration,
    RuntimeFix,
    BrowserConfiguration,
    EvidenceExpansion,
    ReviewConfiguration,
}

pub open spec fn strategy_name(s: PatchStrategy) -> Seq<char> {
    match s {
        PatchStrategy::RequirementClarification => "requirement-clarification"@,
        PatchStrategy::LaunchConfiguration => "launch-configuration"@,
        PatchStrategy::RuntimeFix => "runtime-fix"@,
        PatchStrategy::BrowserConfiguration => "browser-configuration"@,
        PatchStrategy::EvidenceExpansion => "evidence-expansion"@,
        PatchStrategy::ReviewConfiguration => "review-configuration"@,
    }
}

impl PatchStrategy {
    pub fn name(self) -> (r: &'static str)
        ensures
            r@ == strategy_name(self),
    {
        match self {
            PatchStrategy::RequirementClarification => "requirement-clarification",
            PatchStrategy::LaunchConfiguration => "launch-configuration",
            PatchStrategy::RuntimeFix => "runtime-fix",
            PatchStrategy::BrowserConfiguration => "browser-configuration",
            PatchStrategy::EvidenceExpansion => "evidence-expansion",
            PatchStrategy::ReviewConfiguration => "review-configuration",
        }
    }
}

/// How a proposal may be applied.
#[derive(Clone, Copy, PartialEq, Eq, Structural, Debug)]
pub enum PatchSafety {
    PreviewOnly,
    ManualPatch,
    NeedsDeveloperInput,
}

pub open spec fn safety_name(s: PatchSafety) -> Seq<char> {
    match s {
        PatchSafety::PreviewOnly => "preview-only"@,
        PatchSafety::ManualPatch => "manual-patch"@,
        PatchSafety::NeedsDeveloperInput => "needs-developer-input"@,
    }
}

impl PatchSafety {
    pub fn name(self) -> (r: &'static str)
        ensures
            r@ == safety_name(self),
    {
        match self {
            PatchSafety::PreviewOnly => "preview-only",
            PatchSafety::ManualPatch => "manual-patch",
            PatchSafety::NeedsDeveloperInput => "needs-developer-input",
        }
    }
}

/// A command that checks a fix.
#[derive(Debug)]
pub struct RegressionCheck {
    pub id: String,
    pub proposal_id: Option<String>,
    pub command: String,
    pub reason: String,
    pub required: bool,
}

pub struct RegressionCheckView {
    pub id: Seq<char>,
    pub proposal_id: Option<Seq<char>>,
    pub command: Seq<char>,
    pub reason: Seq<char>,
    pub required: bool,
}

impl View for RegressionCheck {
    type V = RegressionCheckView;

    open spec fn view(&self) -> RegressionCheckView {
        RegressionCheckView {
            id: self.id@,
            proposal_id: opt_string_view(self.proposal_id),
            command: self.command@,
            reason: self.reason@,
            required: self.required,
        }
    }
}

pub open spec fn check_views(v: Seq<RegressionCheck>) -> Seq<RegressionCheckView> {
    v.map_values(|c: RegressionCheck| c@)
}

#[derive(Debug)]
pub struct PatchProposal {
    pub id: String,
    pub issue_id: String,
    pub approval: ApprovalState,
    pub strategy: PatchStrategy,
    pub safety: PatchSafety,
    pub title: String,
    pub target_files: Vec<String>,
    pub rationale: String,
    pub steps: Vec<String>,
    pub patch_preview: Option<String>,
    pub risk_notes: Vec<String>,
    pub regression_checks: Vec<RegressionCheck>,
}

#[derive(Debug)]
pub struct RegressionPlan {
    pub checks: Vec<RegressionCheck>,
}

#[derive(Debug)]
pub struct RemediationSummary {
    pub issues: usize,
    pub proposals: usize,
    pub patch_previews: usize,
    pub regression_checks: usize,
    pub auto_apply_supported: bool,
    pub requires_user_approval: bool,
}

#[derive(Debug)]
pub struct RemediationReport {
    pub review: ReviewReport,
    pub summary: RemediationSummary,
    pub proposals: Vec<PatchProposal>,
    pub regression_plan: RegressionPlan,
}

pub open spec fn views_of(v: Seq<String>) -> Seq<Seq<char>> {
    v.map_values(|s: String| s@)
}

pub open spec fn strategy_for_issue_spec(c: IssueCategory) -> PatchStrategy {
    match c {
        IssueCategory::RequirementGap => PatchStrategy::RequirementClarification,
        IssueCategory::MissingExecutionPath => PatchStrategy::LaunchConfiguration,
        IssueCategory::RuntimeFailure => PatchStrategy::RuntimeFix,
        IssueCategory::BrowserFailure => PatchStrategy::BrowserConfiguration,
        IssueCategory::MissingEvidence => PatchStrategy::EvidenceExpansion,
        IssueCategory::ReviewConfiguration => PatchStrategy::ReviewConfiguration,
    }
}

/// The strategy for an issue of category `category`.
pub fn strategy_for_issue(category: IssueCategory) -> (r: PatchStrategy)
    ensures
        r == strategy_for_issue_spec(category),
{
    match category {
        IssueCategory::RequirementGap => PatchStrategy::RequirementClarification,
        IssueCategory::MissingExecutionPath => PatchStrategy::LaunchConfiguration,
        IssueCategory::RuntimeFailure => PatchStrategy::RuntimeFix,
        IssueCategory::BrowserFailure => PatchStrategy::BrowserConfiguration,
        IssueCategory::MissingEvidence => PatchStrategy::EvidenceExpansion,
        IssueCategory::ReviewConfiguration => PatchStrategy::ReviewConfiguration,
    }
}

/// The first requirement, from `i` on, with id `id`.
pub open spec fn requirement_with_id(reqs: Seq<RequirementView>, id: Seq<char>, i: int) -> Option<RequirementView>
    decreases reqs.len() - i,
{
    if i < 0 || i >= reqs.len() {
        None
    } else if reqs[i].id == id {
        Some(reqs[i])
    } else {
        requirement_with_id(reqs, id, i + 1)
    }
}

/// The requirement an issue is about, if it names one that the review has.
pub open spec fn related_requirement_of(review: ReviewReport, issue: Issue) -> Option<RequirementView> {
    match issue.related_requirement {
        Some(id) => requirement_with_id(review.requirement_report@.requirements, id@, 0),
        None => None,
    }
}

fn find_related_requirement(review: &ReviewReport, issue: &Issue) -> (r: Option<usize>)
    ensures
        match r {
            Some(i) => i < review.requirement_report.requirements@.len() && related_requirement_of(*review, *issue)
                == Some(review.requirement_report.requirements@[i as int]@),
            None => related_requirement_of(*review, *issue) is None,
        },
{
    match &issue.related_requirement {
        Some(id) => {
            let reqs = &review.requirement_report.requirements;
            let ghost rv = review.requirement_report@.requirements;
            let mut i: usize = 0;
            while i < reqs.len()
                invariant
                    i <= reqs@.len(),
                    reqs@ == review.requirement_report.requirements@,
                    rv == review.requirement_report@.requirements,
                    issue.related_requirement == Some(*id),
                    rv.len() == reqs@.len(),
                    requirement_with_id(rv, id@, 0) == requirement_with_id(rv, id@, i as int),
                decreases reqs.len() - i,
            {
                assert(rv[i as int] == reqs@[i as int]@);
                if crate::text::str_eq(reqs[i].id.as_str(), id.as_str()) {
                    return Some(i);
                }
                i = i + 1;
            }
            None
        },
        None => None,
    }
}

/// The files a fix touches: the related requirement's document, else what the
/// strategy usually changes.
pub open spec fn target_files_spec(review: ReviewReport, issue: Issue, strategy: PatchStrategy) -> Seq<Seq<char>> {
    match related_requirement_of(review, issue) {
        Some(r) => seq![r.source.path],
        None => match strategy {
            PatchStrategy::RequirementClarification => seq![review.config.requirements_source@],
            PatchStrategy::EvidenceExpansion => seq![review.config.requirements_source@],
            PatchStrategy::LaunchConfiguration => seq!["package.json"@, "Cargo.toml"@, "app.py or main.py"@],
            PatchStrategy::RuntimeFix => seq!["project startup scripts and runtime entrypoint"@],
            PatchStrategy::BrowserConfiguration => seq!["frontend route, dev server config or base URL setting"@],
            PatchStrategy::ReviewConfiguration => seq!["SpecProbe command arguments"@],
        },
    }
}

pub fn target_files_for(review: &ReviewReport, issue: &Issue, strategy: PatchStrategy) -> (r: Vec<String>)
    ensures
        views_of(r@) == target_files_spec(*review, *issue, strategy),
{
    let mut v: Vec<String> = Vec::new();
    match find_related_requirement(review, issue) {
        Some(i) => {
            v.push(review.requirement_report.requirements[i].source.path.clone());
        },
        None => match strategy {
            PatchStrategy::RequirementClarification | PatchStrategy::EvidenceExpansion => {
                v.push(review.config.requirements_source.clone());
            },
            PatchStrategy::LaunchConfiguration => {
                v.push(owned("package.json"));
                v.push(owned("Cargo.toml"));
                v.push(owned("app.py or main.py"));
            },
            PatchStrategy::RuntimeFix => {
                v.push(owned("project startup scripts and runtime entrypoint"));
            },
            PatchStrategy::BrowserConfiguration => {
                v.push(owned("frontend route, dev server config or base URL setting"));
            },
            PatchStrategy::ReviewConfiguration => {
                v.push(owned("SpecProbe command arguments"));
            },
        },
    }
    assert(views_of(v@) =~= target_files_spec(*review, *issue, strategy));
    v
}

pub const MISSING_RESULT_MARKER: &'static str = "缺少明确";

pub const VAGUE_MARKER: &'static str = "模糊";

pub const UNCLEAR_MARKER: &'static str = "不够明确";

pub const ADD_OBSERVABLE_RESULT: &'static str = "；验收时应明确显示、返回或记录可观察结果，并采集对应运行证据。";

pub const ADD_QUANTIFIED_CONDITION: &'static str = "；验收标准应补充量化条件、目标元素或明确状态变化。";

pub const ADD_CRITERIA: &'static str = "；补充可验证的验收标准和证据要求。";

/// The requirement line rewritten to be testable: its closing punctuation
/// removed and a clause added that fits what the issue found.
pub open spec fn suggested_line_spec(old_line: Seq<char>, issue: Issue) -> Seq<char> {
    let trimmed = drop_trailing(old_line, CharClass::SentenceEnd);
    if contains(issue.actual@, MISSING_RESULT_MARKER@) {
        trimmed + ADD_OBSERVABLE_RESULT@
    } else if contains(issue.actual@, VAGUE_MARKER@) || contains(issue.title@, UNCLEAR_MARKER@) {
        trimmed + ADD_QUANTIFIED_CONDITION@
    } else {
        trimmed + ADD_CRITERIA@
    }
}

pub fn suggested_requirement_line(old_line: &str, issue: &Issue) -> (r: String)
    ensures
        r@ == suggested_line_spec(old_line@, *issue),
{
    let t = strip_trailing(chars_of(old_line).as_slice(), CharClass::SentenceEnd);
    let mut s = string_of(t.as_slice());
    let actual = chars_of(issue.actual.as_str());
    let title = chars_of(issue.title.as_str());
    if contains_str(actual.as_slice(), MISSING_RESULT_MARKER) {
        s.append(ADD_OBSERVABLE_RESULT);
    } else if contains_str(actual.as_slice(), VAGUE_MARKER) || contains_str(title.as_slice(), UNCLEAR_MARKER) {
        s.append(ADD_QUANTIFIED_CONDITION);
    } else {
        s.append(ADD_CRITERIA);
    }
    s
}

/// A preview diff that rewrites the requirement's line.
pub open spec fn requirement_preview_spec(review: ReviewReport, issue: Issue) -> Option<Seq<char>> {
    match related_requirement_of(review, issue) {
        Some(r) => {
            let old_line = trim(r.description);
            Some(
                "--- a/"@ + r.source.path + "\n+++ b/"@ + r.source.path + "\n@@ line "@ + decimal(
                    r.source.line as nat,
                ) + " @@\n- "@ + old_line + "\n+ "@ + suggested_line_spec(old_line, issue) + "\n"@,
            )
        },
        None => None,
    }
}

pub fn requirement_patch_preview(review: &ReviewReport, issue: &Issue) -> (r: Option<String>)
    ensures
        opt_string_view(r) == requirement_preview_spec(*review, *issue),
{
    match find_related_requirement(review, issue) {
        Some(i) => {
            let req = &review.requirement_report.requirements[i];
            assert(review.requirement_report@.requirements[i as int] == req@);
            let old = string_of(trim_chars(chars_of(req.description.as_str()).as_slice()).as_slice());
            let new_line = suggested_requirement_line(old.as_str(), issue);
            let mut s = owned("--- a/");
            s.append(req.source.path.as_str());
            s.append("\n+++ b/");
            s.append(req.source.path.as_str());
            s.append("\n@@ line ");
            let n = decimal_string(req.source.line as u128);
            s.append(n.as_str());
            s.append(" @@\n- ");
            s.append(old.as_str());
            s.append("\n+ ");
            s.append(new_line.as_str());
            s.append("\n");
            Some(s)
        },
        None => None,
    }
}

/// A preview that adds a start script to `package.json`.
pub const LAUNCH_CONFIG_PREVIEW: &'static str =
    "--- a/package.json\n+++ b/package.json\n@@\n+  \"scripts\": {\n+    \"dev\": \"<command that starts the app under test>\"\n+  }\n";

pub fn launch_config_patch_preview() -> (r: String)
    ensures
        r@ == LAUNCH_CONFIG_PREVIEW@,
{
    owned(LAUNCH_CONFIG_PREVIEW)
}

pub open spec fn patch_preview_spec(review: ReviewReport, issue: Issue, strategy: PatchStrategy) -> Option<Seq<char>> {
    match strategy {
        PatchStrategy::RequirementClarification => requirement_preview_spec(review, issue),
        PatchStrategy::EvidenceExpansion => requirement_preview_spec(review, issue),
        PatchStrategy::LaunchConfiguration => Some(LAUNCH_CONFIG_PREVIEW@),
        _ => None,
    }
}

/// The preview diff of a fix, where one can be written.
pub fn patch_preview_for(review: &ReviewReport, issue: &Issue, strategy: PatchStrategy) -> (r: Option<String>)
    ensures
        opt_string_view(r) == patch_preview_spec(*review, *issue, strategy),
{
    match strategy {
        PatchStrategy::RequirementClarification | PatchStrategy::EvidenceExpansion => requirement_patch_preview(
            review,
            issue,
        ),
        PatchStrategy::LaunchConfiguration => Some(launch_config_patch_preview()),
        _ => None,
    }
}

pub open spec fn safety_spec(strategy: PatchStrategy, has_preview: bool) -> PatchSafety {
    if (strategy == PatchStrategy::RequirementClarification || strategy == PatchStrategy::LaunchConfiguration) && has_preview {
        PatchSafety::PreviewOnly
    } else if strategy == PatchStrategy::ReviewConfiguration {
        PatchSafety::ManualPatch
    } else {
        PatchSafety::NeedsDeveloperInput
    }
}

/// How a fix may be applied: a previewed requirement or launch fix is
/// preview-only, a configuration fix is manual, the rest needs a developer.
pub fn safety_for(strategy: PatchStrategy, patch_preview: &Option<String>) -> (r: PatchSafety)
    ensures
        r == safety_spec(strategy, patch_preview is Some),
{
    let has = patch_preview.is_some();
    if (strategy == PatchStrategy::RequirementClarification || strategy == PatchStrategy::LaunchConfiguration) && has {
        PatchSafety::PreviewOnly
    } else if strategy == PatchStrategy::ReviewConfiguration {
        PatchSafety::ManualPatch
    } else {
        PatchSafety::NeedsDeveloperInput
    }
}

pub open spec fn strategy_steps(strategy: PatchStrategy) -> Seq<Seq<char>> {
    match strategy {
        PatchStrategy::RequirementClarification => seq![
            "打开目标需求文档，定位相关需求行。"@,
            "把当前描述补充为可观察、可断言的验收标准。"@,
            "确认新增描述不会改变原需求意图，只增强可测试性。"@,
        ],
        PatchStrategy::LaunchConfiguration => seq![
            "确认项目的真实启动方式和工作目录。"@,
            "在项目清单或入口文件中补充可重复执行的启动命令。"@,
            "用 SpecProbe 重新执行 launch dry-run，确认命令可以被识别。"@,
        ],
        PatchStrategy::RuntimeFix => seq![
            "根据进程退出码、stdout 和 stderr 定位启动失败位置。"@,
            "修复依赖缺失、脚本错误或运行时异常。"@,
            "重新运行启动命令并确认超时、退出码和日志均正常。"@,
        ],
        PatchStrategy::BrowserConfiguration => seq![
            "确认被测项目已启动并监听预期端口。"@,
            "检查 base URL、路由、HTTP 状态和开发服务器配置。"@,
            "重新执行浏览器探测，确认页面返回 2xx 或 3xx 状态。"@,
        ],
        PatchStrategy::EvidenceExpansion => seq![
            "为相关需求补充需要采集的证据类型。"@,
            "增加可以证明功能成功或失败的断言条件。"@,
            "重新生成 review 报告，确认问题清单减少。"@,
        ],
        PatchStrategy::ReviewConfiguration => seq![
            "检查 SpecProbe 命令参数、项目路径和需求路径。"@,
            "修正 --project、--base-url 或执行模式后重新生成报告。"@,
        ],
    }
}

/// The steps of a fix, ending with the approval record for the issue.
pub open spec fn steps_spec(issue: Issue, strategy: PatchStrategy) -> Seq<Seq<char>> {
    strategy_steps(strategy).push("保留用户审批记录，确认是否接受 "@ + issue.id@ + " 的修复。"@)
}

pub fn steps_for_issue(issue: &Issue, strategy: PatchStrategy) -> (r: Vec<String>)
    ensures
        views_of(r@) == steps_spec(*issue, strategy),
{
    let mut v: Vec<String> = Vec::new();
    match strategy {
        PatchStrategy::RequirementClarification => {
            v.push(owned("打开目标需求文档，定位相关需求行。"));
            v.push(owned("把当前描述补充为可观察、可断言的验收标准。"));
            v.push(owned("确认新增描述不会改变原需求意图，只增强可测试性。"));
        },
        PatchStrategy::LaunchConfiguration => {
            v.push(owned("确认项目的真实启动方式和工作目录。"));
            v.push(owned("在项目清单或入口文件中补充可重复执行的启动命令。"));
            v.push(owned("用 SpecProbe 重新执行 launch dry-run，确认命令可以被识别。"));
        },
        PatchStrategy::RuntimeFix => {
            v.push(owned("根据进程退出码、stdout 和 stderr 定位启动失败位置。"));
            v.push(owned("修复依赖缺失、脚本错误或运行时异常。"));
            v.push(owned("重新运行启动命令并确认超时、退出码和日志均正常。"));
        },
        PatchStrategy::BrowserConfiguration => {
            v.push(owned("确认被测项目已启动并监听预期端口。"));
            v.push(owned("检查 base URL、路由、HTTP 状态和开发服务器配置。"));
            v.push(owned("重新执行浏览器探测，确认页面返回 2xx 或 3xx 状态。"));
        },
        PatchStrategy::EvidenceExpansion => {
            v.push(owned("为相关需求补充需要采集的证据类型。"));
            v.push(owned("增加可以证明功能成功或失败的断言条件。"));
            v.push(owned("重新生成 review 报告，确认问题清单减少。"));
        },
        PatchStrategy::ReviewConfiguration => {
            v.push(owned("检查 SpecProbe 命令参数、项目路径和需求路径。"));
            v.push(owned("修正 --project、--base-url 或执行模式后重新生成报告。"));
        },
    }
    let mut last = owned("保留用户审批记录，确认是否接受 ");
    last.append(issue.id.as_str());
    last.append(" 的修复。");
    v.push(last);
    assert(views_of(v@) =~= steps_spec(*issue, strategy));
    v
}

/// The risks of a fix by strategy.
pub open spec fn risk_notes_spec(strategy: PatchStrategy) -> Seq<Seq<char>> {
    match strategy {
        PatchStrategy::RequirementClarification => seq!["修改需求文档可能改变验收口径，提交前需要用户确认。"@],
        PatchStrategy::EvidenceExpansion => seq!["修改需求文档可能改变验收口径，提交前需要用户确认。"@],
        PatchStrategy::LaunchConfiguration => seq![
            "启动命令可能执行项目脚本，运行前应确认脚本来源可信。"@,
            "不同包管理器或框架的启动命令可能不同，预览补丁需要人工替换占位符。"@,
        ],
        PatchStrategy::RuntimeFix => seq!["运行时修复可能影响业务逻辑，需要结合源码和日志进一步确认。"@],
        PatchStrategy::BrowserConfiguration => seq!["仅修正 URL 或端口不一定能解决页面内部交互失败。"@],
        PatchStrategy::ReviewConfiguration => seq!["如果输入路径错误，后续报告可能针对错误项目生成。"@],
    }
}

pub fn risk_notes_for(strategy: PatchStrategy) -> (r: Vec<String>)
    ensures
        views_of(r@) == risk_notes_spec(strategy),
{
    let mut v: Vec<String> = Vec::new();
    match strategy {
        PatchStrategy::RequirementClarification | PatchStrategy::EvidenceExpansion => {
            v.push(owned("修改需求文档可能改变验收口径，提交前需要用户确认。"));
        },
        PatchStrategy::LaunchConfiguration => {
            v.push(owned("启动命令可能执行项目脚本，运行前应确认脚本来源可信。"));
            v.push(owned("不同包管理器或框架的启动命令可能不同，预览补丁需要人工替换占位符。"));
        },
        PatchStrategy::RuntimeFix => {
            v.push(owned("运行时修复可能影响业务逻辑，需要结合源码和日志进一步确认。"));
        },
        PatchStrategy::BrowserConfiguration => {
            v.push(owned("仅修正 URL 或端口不一定能解决页面内部交互失败。"));
        },
        PatchStrategy::ReviewConfiguration => {
            v.push(owned("如果输入路径错误，后续报告可能针对错误项目生成。"));
        },
    }
    assert(views_of(v@) =~= risk_notes_spec(strategy));
    v
}

pub open spec fn check(id: Seq<char>, proposal_id: Option<Seq<char>>, command: Seq<char>, reason: Seq<char>) -> RegressionCheckView {
    RegressionCheckView { id, proposal_id, command, reason, required: true }
}

/// The second check of a proposal, by the issue's category.
pub open spec fn category_check(review: ReviewReport, c: IssueCategory, pid: Seq<char>) -> RegressionCheckView {
    let src = review.config.requirements_source@;
    let root = review.config.project_root@;
    let id = pid + "-REG-02"@;
    match c {
        IssueCategory::RequirementGap => check(id, Some(pid), "specprobe review "@ + src + " --project "@ + root + " --skip-launch --skip-browser"@, "确认需求质量问题已经减少，且不会触发真实项目执行。"@),
        IssueCategory::MissingEvidence => check(id, Some(pid), "specprobe review "@ + src + " --project "@ + root + " --skip-launch --skip-browser"@, "确认需求质量问题已经减少，且不会触发真实项目执行。"@),
        IssueCategory::MissingExecutionPath => check(id, Some(pid), "specprobe launch "@ + root + " --dry-run"@, "确认项目启动命令可以被识别。"@),
        IssueCategory::RuntimeFailure => check(id, Some(pid), "specprobe launch "@ + root + " --dry-run"@, "确认项目启动命令可以被识别。"@),
        IssueCategory::BrowserFailure => check(id, Some(pid), "specprobe browser "@ + src + " --base-url "@ + review.config.base_url@ + " --dry-run"@, "确认浏览器动作计划仍可生成。"@),
        IssueCategory::ReviewConfiguration => check(id, Some(pid), "specprobe review "@ + src + " --project "@ + root, "确认修正后的审查参数可以生成报告。"@),
    }
}

/// The checks of a proposal: the requirements still parse, then a check
/// fitting the issue's category.
pub open spec fn checks_spec(review: ReviewReport, issue: Issue, pid: Seq<char>) -> Seq<RegressionCheckView> {
    seq![
        check(pid + "-REG-01"@, Some(pid), "specprobe requirements "@ + review.config.requirements_source@, "确认需求仍能被解析并生成测试计划。"@),
        category_check(review, issue.category, pid),
    ]
}

fn new_check(id: String, proposal_id: &str, command: String, reason: &str) -> (r: RegressionCheck)
    ensures
        r@ == check(id@, Some(proposal_id@), command@, reason@),
{
    RegressionCheck { id, proposal_id: Some(owned(proposal_id)), command, reason: owned(reason), required: true }
}


/// The regression checks of the proposal `proposal_id` for `issue`.
pub fn regression_checks_for(review: &ReviewReport, issue: &Issue, proposal_id: &str) -> (r: Vec<RegressionCheck>)
    ensures
        check_views(r@) == checks_spec(*review, *issue, proposal_id@),
{
    let src = review.config.requirements_source.as_str();
    let root = review.config.project_root.as_str();
    let mut checks: Vec<RegressionCheck> = Vec::new();
    let mut id1 = owned(proposal_id);
    id1.append("-REG-01");
    let mut cmd1 = owned("specprobe requirements ");
    cmd1.append(src);
    checks.push(new_check(id1, proposal_id, cmd1, "确认需求仍能被解析并生成测试计划。"));
    let mut id2 = owned(proposal_id);
    id2.append("-REG-02");
    let second = match issue.category {
        IssueCategory::RequirementGap | IssueCategory::MissingEvidence => {
            let mut c = owned("specprobe review ");
            c.append(src);
            c.append(" --project ");
            c.append(root);
            c.append(" --skip-launch --skip-browser");
            new_check(id2, proposal_id, c, "确认需求质量问题已经减少，且不会触发真实项目执行。")
        },
        IssueCategory::MissingExecutionPath | IssueCategory::RuntimeFailure => {
            let mut c = owned("specprobe launch ");
            c.append(root);
            c.append(" --dry-run");
            new_check(id2, proposal_id, c, "确认项目启动命令可以被识别。")
        },
        IssueCategory::BrowserFailure => {
            let mut c = owned("specprobe browser ");
            c.append(src);
            c.append(" --base-url ");
            c.append(review.config.base_url.as_str());
            c.append(" --dry-run");
            new_check(id2, proposal_id, c, "确认浏览器动作计划仍可生成。")
        },
        IssueCategory::ReviewConfiguration => {
            let mut c = owned("specprobe review ");
            c.append(src);
            c.append(" --project ");
            c.append(root);
            new_check(id2, proposal_id, c, "确认修正后的审查参数可以生成报告。")
        },
    };
    checks.push(second);
    assert(check_views(checks@) =~= checks_spec(*review, *issue, proposal_id@));
    checks
}

/// The check made once all fixes are in.
pub open spec fn global_check_spec(review: ReviewReport) -> RegressionCheckView {
    RegressionCheckView {
        id: "GLOBAL-REG-01"@,
        proposal_id: None,
        command: "specprobe review "@ + review.config.requirements_source@ + " --project "@ + review.config.project_root@,
        reason: "完成修复后重新生成综合审查报告，比较 Issue 数量和证据变化。"@,
        required: true,
    }
}

pub fn global_regression_checks(review: &ReviewReport) -> (r: Vec<RegressionCheck>)
    ensures
        check_views(r@) == seq![global_check_spec(*review)],
{
    let mut c = owned("specprobe review ");
    c.append(review.config.requirements_source.as_str());
    c.append(" --project ");
    c.append(review.config.project_root.as_str());
    let mut v: Vec<RegressionCheck> = Vec::new();
    v.push(
        RegressionCheck {
            id: owned("GLOBAL-REG-01"),
            proposal_id: None,
            command: c,
            reason: owned("完成修复后重新生成综合审查报告，比较 Issue 数量和证据变化。"),
            required: true,
        },
    );
    assert(check_views(v@) =~= seq![global_check_spec(*review)]);
    v
}

/// The proposal for `issue` under id `pid`, before its checks are attached.
pub open spec fn proposal_ok(review: ReviewReport, issue: Issue, pid: Seq<char>, p: PatchProposal) -> bool {
    let strategy = strategy_for_issue_spec(issue.category);
    let preview = patch_preview_spec(review, issue, strategy);
    &&& p.id@ == pid
    &&& p.issue_id@ == issue.id@
    &&& p.approval == ApprovalState::Pending
    &&& p.strategy == strategy
    &&& p.safety == safety_spec(strategy, preview is Some)
    &&& p.title@ == "修复 "@ + issue.title@
    &&& views_of(p.target_files@) == target_files_spec(review, issue, strategy)
    &&& p.rationale@ == issue.recommendation@
    &&& views_of(p.steps@) == steps_spec(issue, strategy)
    &&& opt_string_view(p.patch_preview) == preview
    &&& views_of(p.risk_notes@) == risk_notes_spec(strategy)
}

pub fn build_patch_proposal(review: &ReviewReport, issue: &Issue, proposal_id: String) -> (r: PatchProposal)
    ensures
        proposal_ok(*review, *issue, proposal_id@, r),
        r.regression_checks@.len() == 0,
{
    let strategy = strategy_for_issue(issue.category);
    let target_files = target_files_for(review, issue, strategy);
    let patch_preview = patch_preview_for(review, issue, strategy);
    let safety = safety_for(strategy, &patch_preview);
    let mut title = owned("修复 ");
    title.append(issue.title.as_str());
    PatchProposal {
        id: proposal_id,
        issue_id: issue.id.clone(),
        approval: ApprovalState::Pending,
        strategy,
        safety,
        title,
        target_files,
        rationale: issue.recommendation.clone(),
        steps: steps_for_issue(issue, strategy),
        patch_preview,
        risk_notes: risk_notes_for(strategy),
        regression_checks: Vec::new(),
    }
}

/// The id of the `n`-th proposal (counting from one).
pub open spec fn proposal_id(n: nat) -> Seq<char> {
    numbered("PATCH-"@, n)
}

/// The checks of all proposals, in order.
pub open spec fn all_checks(review: ReviewReport, issues: Seq<Issue>) -> Seq<RegressionCheckView>
    decreases issues.len(),
{
    if issues.len() == 0 {
        Seq::empty()
    } else {
        all_checks(review, issues.drop_last()) + checks_spec(
            review,
            issues.last(),
            proposal_id(issues.len()),
        )
    }
}

/// One proposal per issue, numbered in order, each with its checks; the plan
/// holds every proposal's checks and then the global check.
pub fn build_proposals(review: &ReviewReport) -> (r: (Vec<PatchProposal>, RegressionPlan))
    ensures
        r.0@.len() == review.issues@.len(),
        forall|k: int|
            0 <= k < r.0@.len() ==> proposal_ok(*review, review.issues@[k], proposal_id((k + 1) as nat), #[trigger] r.0@[k])
                && check_views(r.0@[k].regression_checks@) == checks_spec(*review, review.issues@[k], proposal_id((k + 1) as nat)),
        check_views(r.1.checks@) == all_checks(*review, review.issues@).push(global_check_spec(*review)),
{
    let mut proposals: Vec<PatchProposal> = Vec::new();
    let mut checks: Vec<RegressionCheck> = Vec::new();
    let mut k: usize = 0;
    while k < review.issues.len()
        invariant
            k <= review.issues@.len(),
            proposals@.len() == k,
            forall|q: int|
                0 <= q < k ==> proposal_ok(*review, review.issues@[q], proposal_id((q + 1) as nat), #[trigger] proposals@[q])
                    && check_views(proposals@[q].regression_checks@) == checks_spec(*review, review.issues@[q], proposal_id((q + 1) as nat)),
            check_views(checks@) == all_checks(*review, review.issues@.take(k as int)),
        decreases review.issues.len() - k,
    {
        let issue = &review.issues[k];
        let pid = numbered_string("PATCH-", k as u128 + 1);
        let mut proposal = build_patch_proposal(review, issue, pid.clone());
        let issue_checks = regression_checks_for(review, issue, pid.as_str());
        let again = regression_checks_for(review, issue, pid.as_str());
        let ghost before = check_views(checks@);
        let ghost before_raw = checks@;
        let mut extra = again;
        let ghost ex = extra@;
        checks.append(&mut extra);
        assert(checks@ =~= before_raw + ex);
        proposal.regression_checks = issue_checks;
        proposals.push(proposal);
        assert(review.issues@.take(k + 1).drop_last() == review.issues@.take(k as int));
        assert(review.issues@.take(k + 1).last() == *issue);
        assert(check_views(checks@) =~= before + checks_spec(*review, *issue, proposal_id((k + 1) as nat)));
        k = k + 1;
    }
    assert(review.issues@.take(review.issues@.len() as int) == review.issues@);
    let ghost before = check_views(checks@);
    let ghost before_raw = checks@;
    let mut global = global_regression_checks(review);
    let ghost g = global@;
    assert(check_views(g) =~= seq![global_check_spec(*review)]);
    checks.append(&mut global);
    assert(checks@ =~= before_raw + g);
    assert(check_views(checks@).len() == before.len() + 1);
    assert forall|i: int| 0 <= i < check_views(checks@).len() implies check_views(checks@)[i] == before.push(global_check_spec(*review))[i] by {
        assert(check_views(checks@)[i] == checks@[i]@);
        if i < before.len() {
            assert(checks@[i] == before_raw[i]);
            assert(before[i] == before_raw[i]@);
        } else {
            assert(checks@[i] == g[0]);
            assert(check_views(g)[0] == g[0]@);
        }
    }
    assert(check_views(checks@) =~= before.push(global_check_spec(*review)));
    (proposals, RegressionPlan { checks })
}

/// How many proposals carry a preview diff.
pub open spec fn preview_count(v: Seq<PatchProposal>) -> nat
    decreases v.len(),
{
    if v.len() == 0 {
        0
    } else {
        preview_count(v.drop_last()) + if v.last().patch_preview is Some {
            1nat
        } else {
            0nat
        }
    }
}

/// The remediation plan of a review: one proposal per issue; nothing is
/// applied automatically, and any proposal awaits the user's approval.
pub fn generate_remediation_report(review: ReviewReport) -> (r: RemediationReport)
    ensures
        r.review == review,
        r.proposals@.len() == review.issues@.len(),
        forall|k: int|
            0 <= k < r.proposals@.len() ==> proposal_ok(review, review.issues@[k], proposal_id((k + 1) as nat), #[trigger] r.proposals@[k])
                && check_views(r.proposals@[k].regression_checks@) == checks_spec(review, review.issues@[k], proposal_id((k + 1) as nat)),
        check_views(r.regression_plan.checks@) == all_checks(review, review.issues@).push(global_check_spec(review)),
        r.summary.issues == review.issues@.len(),
        r.summary.proposals == r.proposals@.len(),
        r.summary.patch_previews == preview_count(r.proposals@),
        r.summary.regression_checks == r.regression_plan.checks@.len(),
        !r.summary.auto_apply_supported,
        r.summary.requires_user_approval == (r.proposals@.len() > 0),
{
    let (proposals, regression_plan) = build_proposals(&review);
    let mut previews: usize = 0;
    let mut pending = false;
    let mut i: usize = 0;
    while i < proposals.len()
        invariant
            i <= proposals@.len(),
            previews == preview_count(proposals@.take(i as int)),
            previews <= i,
            pending == (i > 0 && exists|q: int| 0 <= q < i && (#[trigger] proposals@[q]).approval == ApprovalState::Pending),
            forall|q: int| 0 <= q < proposals@.len() ==> (#[trigger] proposals@[q]).approval == ApprovalState::Pending,
        decreases proposals.len() - i,
    {
        assert(proposals@.take(i + 1).drop_last() == proposals@.take(i as int));
        if proposals[i].patch_preview.is_some() {
            previews = previews + 1;
        }
        if proposals[i].approval == ApprovalState::Pending {
            pending = true;
        }
        i = i + 1;
    }
    assert(proposals@.take(proposals@.len() as int) == proposals@);
    let summary = RemediationSummary {
        issues: review.issues.len(),
        proposals: proposals.len(),
        patch_previews: previews,
        regression_checks: regression_plan.checks.len(),
        auto_apply_supported: false,
        requires_user_approval: pending,
    };
    RemediationReport { review, summary, proposals, regression_plan }
}

/// Each issue gets two checks, and the plan one more: a review with `n`
/// issues has `2n + 1` regression checks.
pub proof fn lemma_check_count(review: ReviewReport, issues: Seq<Issue>)
    ensures
        all_checks(review, issues).len() == 2 * issues.len(),
        all_checks(review, issues).push(global_check_spec(review)).len() == 2 * issues.len() + 1,
    decreases issues.len(),
{
    if issues.len() > 0 {
        lemma_check_count(review, issues.drop_last());
    }
}

/// Every regression check in a plan is required.
pub proof fn lemma_checks_required(review: ReviewReport, issues: Seq<Issue>)
    ensures
        forall|i: int| 0 <= i < all_checks(review, issues).len() ==> (#[trigger] all_checks(review, issues)[i]).required,
    decreases issues.len(),
{
    if issues.len() > 0 {
        lemma_checks_required(review, issues.drop_last());
        let prev = all_checks(review, issues.drop_last());
        let cur = checks_spec(review, issues.last(), proposal_id(issues.len()));
        assert forall|i: int| 0 <= i < all_checks(review, issues).len() implies (#[trigger] all_checks(review, issues)[i]).required by {
            if i < prev.len() {
                assert(all_checks(review, issues)[i] == prev[i]);
            } else {
                assert(all_checks(review, issues)[i] == cur[i - prev.len()]);
            }
        }
    }
}

} // verus!
