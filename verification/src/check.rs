//! The decisions of the one-command check: whether the project's launch
//! command may run, what the user is asked first, and how the review is
//! configured. Scanning, asking and reviewing are left to the caller.
use vstd::prelude::*;
use crate::ai::AiProviderKind;
use crate::review::{review_error_message, ReviewError, ReviewOptions, ReviewReport};
use crate::runtime::{CommandPlan, LaunchCommand};
use crate::scanner::{scan_error_message, ProjectProfile, ScanError};
use crate::text::{
    ascii_lower, ascii_lower_chars, chars_of, join, join_strings, owned, string_of, string_views,
    trim, trim_chars,
};

verus! {

/// Options of a check.
#[derive(Debug)]
pub struct CheckOptions {
    /// The project directory (also where requirement documents are looked
    /// for).
    pub path: String,
    /// A requirement document or directory to use instead of `path`.
    pub requirements: Option<String>,
    pub base_url: String,
    pub provider: AiProviderKind,
    pub cache_dir: Option<String>,
    /// Run the launch command without asking.
    pub assume_yes: bool,
    pub launch_timeout_secs: u64,
    pub browser_timeout_secs: u64,
}

/// The result of a check.
#[derive(Debug)]
pub struct CheckReport {
    pub profile: ProjectProfile,
    /// Whether the launch and the browser really ran (false when the user
    /// declined and the check stayed at the plan).
    pub executed: bool,
    pub review: ReviewReport,
}

/// Why a check failed.
#[derive(Debug)]
pub enum CheckError {
    Scan(ScanError),
    Review(ReviewError),
}

pub open spec fn check_error_message(e: CheckError) -> Seq<char> {
    match e {
        CheckError::Scan(s) => scan_error_message(s),
        CheckError::Review(r) => review_error_message(r),
    }
}

impl CheckError {
    /// The error's message.
    pub fn message(&self) -> (r: String)
        ensures
            r@ == check_error_message(*self),
    {
        match self {
            CheckError::Scan(e) => e.message(),
            CheckError::Review(e) => e.message(),
        }
    }
}

/// The command line as the user reads it.
pub open spec fn command_line(cmd: LaunchCommand) -> Seq<char> {
    trim(cmd.program@ + " "@ + join(string_views(cmd.args@), " "@))
}

pub open spec fn confirmation_message_spec(cmd: LaunchCommand) -> Seq<char> {
    "About to execute the project's launch command: `"@ + command_line(cmd) + "` (from "@ + cmd.source@
        + ")."@
}

/// The question put to the user before the launch command runs.
pub fn confirmation_message(cmd: &LaunchCommand) -> (r: String)
    ensures
        r@ == confirmation_message_spec(*cmd),
{
    let mut line = cmd.program.clone();
    line.append(" ");
    let args = join_strings(&cmd.args, " ");
    line.append(args.as_str());
    let v = chars_of(line.as_str());
    let t = trim_chars(v.as_slice());
    let trimmed = string_of(t.as_slice());
    let mut r = owned("About to execute the project's launch command: `");
    r.append(trimmed.as_str());
    r.append("` (from ");
    r.append(cmd.source.as_str());
    r.append(").");
    r
}

/// Whether the launch command may run, or what to ask first.
#[derive(Debug)]
pub enum ExecutionDecision {
    Execute,
    Confirm(String),
}

/// The safety rule of a check: with `--yes` the project runs; when a launch
/// command was detected the user is asked first; when none was, there is no
/// project code to run and the check goes on (the browser may still probe a
/// running service).
pub fn execution_decision(assume_yes: bool, detected: Option<&CommandPlan>) -> (r: ExecutionDecision)
    ensures
        assume_yes ==> r is Execute,
        !assume_yes && detected is None ==> r is Execute,
        !assume_yes && detected is Some ==> (r matches ExecutionDecision::Confirm(m) && m@
            == confirmation_message_spec(detected->0.command)),
{
    if assume_yes {
        return ExecutionDecision::Execute;
    }
    match detected {
        Some(plan) => ExecutionDecision::Confirm(confirmation_message(&plan.command)),
        None => ExecutionDecision::Execute,
    }
}

/// An answer accepts when, trimmed and in lower case, it is "y" or "yes";
/// anything else (an empty line, end of input) declines.
pub open spec fn accepts(answer: Seq<char>) -> bool {
    let a = ascii_lower(trim(answer));
    a == "y"@ || a == "yes"@
}

/// Whether the user's answer allows the launch.
pub fn confirmation_accepted(answer: &str) -> (r: bool)
    ensures
        r == accepts(answer@),
{
    let v = chars_of(answer);
    let t = trim_chars(v.as_slice());
    let l = ascii_lower_chars(t.as_slice());
    let s = string_of(l.as_slice());
    crate::text::str_eq(s.as_str(), "y") || crate::text::str_eq(s.as_str(), "yes")
}

/// The requirement source of a check: the override, else the project.
pub fn requirements_path(options: &CheckOptions) -> (r: String)
    ensures
        r@ == match options.requirements {
            Some(p) => p@,
            None => options.path@,
        },
{
    match &options.requirements {
        Some(p) => p.clone(),
        None => options.path.clone(),
    }
}

/// The review a check runs: on the project, executing only when allowed,
/// with neither the launch nor the browser skipped.
pub fn check_review_options(options: &CheckOptions, executed: bool) -> (r: ReviewOptions)
    ensures
        r.project_path@ == options.path@,
        r.base_url@ == options.base_url@,
        r.execute == executed,
        !r.skip_launch,
        !r.skip_browser,
        r.launch_timeout_secs == options.launch_timeout_secs,
        r.browser_timeout_secs == options.browser_timeout_secs,
{
    ReviewOptions {
        project_path: options.path.clone(),
        base_url: options.base_url.clone(),
        execute: executed,
        skip_launch: false,
        skip_browser: false,
        launch_timeout_secs: options.launch_timeout_secs,
        browser_timeout_secs: options.browser_timeout_secs,
    }
}

} // verus!
