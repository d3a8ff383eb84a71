//! Launching the project under test: which command starts it, how a run is
//! judged, and which log text is kept. Spawning processes, reading files and
//! waiting are done by the caller; this module holds the decisions.
use vstd::prelude::*;
use crate::json::{json_object_keys, json_section_keys};
use crate::text::{drop_leading, strip_leading, CharClass, 
    ascii_lower, ascii_lower_chars, chars_of, contains_any, contains_any_str, decimal,
    decimal_string, excerpt, excerpt_string, join, join_chars, lines, lines_of, owned,
    signed_decimal, signed_decimal_string, str_views, string_of, string_views, views,
};

verus! {

/// The kind of project a launch command was detected for.
#[derive(Clone, Copy, PartialEq, Eq, Structural, Debug)]
pub enum ProjectAdapterKind {
    Node,
    Rust,
    Python,
    Unknown,
}

/// How sure the detection is that the command starts the project.
#[derive(Clone, Copy, PartialEq, Eq, Structural, Debug)]
pub enum CommandConfidence {
    High,
    Medium,
    Low,
}

/// Severity of a launch diagnostic.
#[derive(Clone, Copy, PartialEq, Eq, Structural, Debug)]
pub enum RuntimeDiagnosticSeverity {
    Info,
    Warning,
    Error,
}

/// Why a project could not be prepared for launching.
#[derive(Debug)]
pub enum RuntimeError {
    /// The project path does not exist.
    NotFound(String),
    /// The project path is not a directory.
    NotDirectory(String),
    /// A file or process could not be handled.
    Io { path: String, message: String },
    /// No launch command could be detected.
    NoLaunchCommand(String),
}

/// The command that starts the project.
#[derive(Debug)]
pub struct LaunchCommand {
    pub program: String,
    pub args: Vec<String>,
    pub working_directory: String,
    pub source: String,
    pub confidence: CommandConfidence,
}

/// How a launch went.
#[derive(Debug)]
pub struct LaunchExecution {
    pub attempted: bool,
    pub dry_run: bool,
    pub success: bool,
    pub timed_out: bool,
    /// A process still running with output when the timeout elapsed counts as
    /// a long-running service, not as a failure.
    pub long_running: bool,
    pub exit_code: Option<i32>,
    pub duration_ms: u128,
    pub timeout_secs: u64,
}

/// Readiness probing of a managed service.
#[derive(Debug)]
pub struct ReadinessReport {
    /// Whether a probe was made (only with a base URL).
    pub probed: bool,
    pub ready: bool,
    pub waited_ms: u128,
    pub detail: String,
}

/// A launch diagnostic.
#[derive(Debug)]
pub struct LaunchDiagnostic {
    pub severity: RuntimeDiagnosticSeverity,
    pub message: String,
}

/// The result of launching (or planning to launch) the project.
#[derive(Debug)]
pub struct LaunchReport {
    pub project_root: String,
    pub adapter: ProjectAdapterKind,
    pub command: LaunchCommand,
    pub execution: LaunchExecution,
    /// Readiness of a managed service; `None` for a one-shot launch.
    pub readiness: Option<ReadinessReport>,
    pub stdout_excerpt: String,
    pub stderr_excerpt: String,
    pub diagnostics: Vec<LaunchDiagnostic>,
}

/// The detected adapter and command.
#[derive(Debug)]
pub struct CommandPlan {
    pub adapter: ProjectAdapterKind,
    pub command: LaunchCommand,
}

/// The facts about a project directory that launch detection reads.
#[derive(Debug)]
pub struct ProjectFiles {
    /// Display form of the project root.
    pub root: String,
    /// Names under `scripts` in `package.json`; `None` when the file is
    /// missing, unreadable, not JSON, or has no `scripts` object.
    pub package_scripts: Option<Vec<String>>,
    pub has_pnpm_lock: bool,
    pub has_yarn_lock: bool,
    pub has_bun_lock: bool,
    pub has_bun_lockb: bool,
    pub has_cargo_toml: bool,
    pub has_app_py: bool,
    pub has_main_py: bool,
}

/// The names under `scripts` in a `package.json` text (a leading byte-order
/// mark is ignored).
pub open spec fn package_scripts_spec(contents: Seq<char>) -> Option<Seq<Seq<char>>> {
    json_section_keys(drop_leading(contents, CharClass::ByteOrderMark), "scripts"@)
}

/// Reads the script names of a `package.json`.
pub fn package_scripts(contents: &str) -> (r: Option<Vec<String>>)
    ensures
        match r {
            Some(v) => package_scripts_spec(contents@) == Some(string_views(v@)),
            None => package_scripts_spec(contents@) is None,
        },
{
    let body = strip_leading(chars_of(contents).as_slice(), CharClass::ByteOrderMark);
    let text = string_of(body.as_slice());
    json_object_keys(text.as_str(), "scripts")
}

pub open spec fn adapter_name(a: ProjectAdapterKind) -> Seq<char> {
    match a {
        ProjectAdapterKind::Node => "node"@,
        ProjectAdapterKind::Rust => "rust"@,
        ProjectAdapterKind::Python => "python"@,
        ProjectAdapterKind::Unknown => "unknown"@,
    }
}

impl ProjectAdapterKind {
    pub fn name(self) -> (r: &'static str)
        ensures
            r@ == adapter_name(self),
    {
        match self {
            ProjectAdapterKind::Node => "node",
            ProjectAdapterKind::Rust => "rust",
            ProjectAdapterKind::Python => "python",
            ProjectAdapterKind::Unknown => "unknown",
        }
    }
}

pub open spec fn confidence_name(c: CommandConfidence) -> Seq<char> {
    match c {
        CommandConfidence::High => "high"@,
        CommandConfidence::Medium => "medium"@,
        CommandConfidence::Low => "low"@,
    }
}

impl CommandConfidence {
    pub fn name(self) -> (r: &'static str)
        ensures
            r@ == confidence_name(self),
    {
        match self {
            CommandConfidence::High => "high",
            CommandConfidence::Medium => "medium",
            CommandConfidence::Low => "low",
        }
    }
}

pub open spec fn runtime_severity_name(s: RuntimeDiagnosticSeverity) -> Seq<char> {
    match s {
        RuntimeDiagnosticSeverity::Info => "info"@,
        RuntimeDiagnosticSeverity::Warning => "warning"@,
        RuntimeDiagnosticSeverity::Error => "error"@,
    }
}

impl RuntimeDiagnosticSeverity {
    pub fn name(self) -> (r: &'static str)
        ensures
            r@ == runtime_severity_name(self),
    {
        match self {
            RuntimeDiagnosticSeverity::Info => "info",
            RuntimeDiagnosticSeverity::Warning => "warning",
            RuntimeDiagnosticSeverity::Error => "error",
        }
    }
}

/// The text of a runtime error.
pub open spec fn runtime_error_message(e: RuntimeError) -> Seq<char> {
    match e {
        RuntimeError::NotFound(p) => "project path does not exist: "@ + p@,
        RuntimeError::NotDirectory(p) => "project path is not a directory: "@ + p@,
        RuntimeError::Io { path, message } => "failed to inspect "@ + path@ + ": "@ + message@,
        RuntimeError::NoLaunchCommand(p) => "no launch command could be detected for "@ + p@,
    }
}

impl RuntimeError {
    /// The error's message (what `Display` shows).
    pub fn message(&self) -> (r: String)
        ensures
            r@ == runtime_error_message(*self),
    {
        match self {
            RuntimeError::NotFound(p) => {
                let mut r = owned("project path does not exist: ");
                r.append(p.as_str());
                r
            },
            RuntimeError::NotDirectory(p) => {
                let mut r = owned("project path is not a directory: ");
                r.append(p.as_str());
                r
            },
            RuntimeError::Io { path, message } => {
                let mut r = owned("failed to inspect ");
                r.append(path.as_str());
                r.append(": ");
                r.append(message.as_str());
                r
            },
            RuntimeError::NoLaunchCommand(p) => {
                let mut r = owned("no launch command could be detected for ");
                r.append(p.as_str());
                r
            },
        }
    }
}

// ---------------------------------------------------------------------------
// Detection
// ---------------------------------------------------------------------------

/// A package manager: its program and the word that runs a script, if any.
#[derive(Debug)]
pub struct PackageManager {
    pub program: &'static str,
    pub run_word: Option<&'static str>,
}

/// `pnpm run`, `yarn`, `bun run` or `npm run`, by lock file.
pub open spec fn package_manager_spec(f: ProjectFiles) -> (Seq<char>, Option<Seq<char>>) {
    if f.has_pnpm_lock {
        ("pnpm"@, Some("run"@))
    } else if f.has_yarn_lock {
        ("yarn"@, None)
    } else if f.has_bun_lock || f.has_bun_lockb {
        ("bun"@, Some("run"@))
    } else {
        ("npm"@, Some("run"@))
    }
}

pub open spec fn package_manager_view(p: PackageManager) -> (Seq<char>, Option<Seq<char>>) {
    (
        p.program@,
        match p.run_word {
            Some(w) => Some(w@),
            None => None,
        },
    )
}

pub fn detect_package_manager(files: &ProjectFiles) -> (r: PackageManager)
    ensures
        package_manager_view(r) == package_manager_spec(*files),
{
    if files.has_pnpm_lock {
        PackageManager { program: "pnpm", run_word: Some("run") }
    } else if files.has_yarn_lock {
        PackageManager { program: "yarn", run_word: None }
    } else if files.has_bun_lock || files.has_bun_lockb {
        PackageManager { program: "bun", run_word: Some("run") }
    } else {
        PackageManager { program: "npm", run_word: Some("run") }
    }
}

/// The arguments that run a script: the run word (if any), then the script.
pub open spec fn args_for_spec(run_word: Option<Seq<char>>, script: Seq<char>) -> Seq<Seq<char>> {
    match run_word {
        Some(w) => seq![w, script],
        None => seq![script],
    }
}

impl PackageManager {
    pub fn args_for(&self, script_name: &str) -> (r: Vec<String>)
        ensures
            string_views(r@) == args_for_spec(package_manager_view(*self).1, script_name@),
    {
        let r = match self.run_word {
            Some(run_word) => vec![owned(run_word), owned(script_name)],
            None => vec![owned(script_name)],
        };
        assert(string_views(r@) =~= args_for_spec(package_manager_view(*self).1, script_name@));
        r
    }
}

/// Scripts tried in order.
pub open spec fn script_candidates() -> Seq<Seq<char>> {
    seq!["dev"@, "start"@, "serve"@, "preview"@, "test"@]
}

/// The first of `dev`, `start`, `serve`, `preview`, `test` among the scripts.
pub open spec fn first_script(scripts: Seq<Seq<char>>) -> Option<Seq<char>> {
    let c = script_candidates();
    if scripts.contains(c[0]) {
        Some(c[0])
    } else if scripts.contains(c[1]) {
        Some(c[1])
    } else if scripts.contains(c[2]) {
        Some(c[2])
    } else if scripts.contains(c[3]) {
        Some(c[3])
    } else if scripts.contains(c[4]) {
        Some(c[4])
    } else {
        None
    }
}

fn has_script(scripts: &Vec<String>, name: &str) -> (r: bool)
    ensures
        r == string_views(scripts@).contains(name@),
{
    let mut i: usize = 0;
    while i < scripts.len()
        invariant
            i <= scripts@.len(),
            forall|j: int| 0 <= j < i ==> string_views(scripts@)[j] != name@,
        decreases scripts.len() - i,
    {
        if crate::text::str_eq(scripts[i].as_str(), name) {
            assert(string_views(scripts@)[i as int] == name@);
            return true;
        }
        i = i + 1;
    }
    false
}

pub struct LaunchCommandView {
    pub program: Seq<char>,
    pub args: Seq<Seq<char>>,
    pub working_directory: Seq<char>,
    pub source: Seq<char>,
    pub confidence: CommandConfidence,
}

impl View for LaunchCommand {
    type V = LaunchCommandView;

    open spec fn view(&self) -> LaunchCommandView {
        LaunchCommandView {
            program: self.program@,
            args: string_views(self.args@),
            working_directory: self.working_directory@,
            source: self.source@,
            confidence: self.confidence,
        }
    }
}

pub open spec fn plan_view(p: Option<CommandPlan>) -> Option<(ProjectAdapterKind, LaunchCommandView)> {
    match p {
        Some(p) => Some((p.adapter, p.command@)),
        None => None,
    }
}

/// The launch command: a Node script through the package manager (medium
/// confidence for `test`, high otherwise), else `cargo run` for a Cargo
/// project, else `python app.py` or `python main.py`.
pub open spec fn detect_launch_spec(f: ProjectFiles) -> Option<(ProjectAdapterKind, LaunchCommandView)> {
    let node = match f.package_scripts {
        Some(scripts) => first_script(string_views(scripts@)),
        None => None,
    };
    match node {
        Some(script) => {
            let pm = package_manager_spec(f);
            Some(
                (
                    ProjectAdapterKind::Node,
                    LaunchCommandView {
                        program: pm.0,
                        args: args_for_spec(pm.1, script),
                        working_directory: f.root@,
                        source: "package.json scripts."@ + script,
                        confidence: if script == "test"@ {
                            CommandConfidence::Medium
                        } else {
                            CommandConfidence::High
                        },
                    },
                ),
            )
        },
        None => if f.has_cargo_toml {
            Some(
                (
                    ProjectAdapterKind::Rust,
                    LaunchCommandView {
                        program: "cargo"@,
                        args: seq!["run"@],
                        working_directory: f.root@,
                        source: "Cargo.toml"@,
                        confidence: CommandConfidence::Medium,
                    },
                ),
            )
        } else if f.has_app_py || f.has_main_py {
            let entry = if f.has_app_py {
                "app.py"@
            } else {
                "main.py"@
            };
            Some(
                (
                    ProjectAdapterKind::Python,
                    LaunchCommandView {
                        program: "python"@,
                        args: seq![entry],
                        working_directory: f.root@,
                        source: entry,
                        confidence: CommandConfidence::Low,
                    },
                ),
            )
        } else {
            None
        },
    }
}

fn first_script_exec(scripts: &Vec<String>) -> (r: Option<&'static str>)
    ensures
        match r {
            Some(s) => first_script(string_views(scripts@)) == Some(s@),
            None => first_script(string_views(scripts@)) is None,
        },
{
    let names = ["dev", "start", "serve", "preview", "test"];
    assert(str_views(names@) =~= script_candidates());
    if has_script(scripts, names[0]) {
        return Some(names[0]);
    }
    if has_script(scripts, names[1]) {
        return Some(names[1]);
    }
    if has_script(scripts, names[2]) {
        return Some(names[2]);
    }
    if has_script(scripts, names[3]) {
        return Some(names[3]);
    }
    if has_script(scripts, names[4]) {
        return Some(names[4]);
    }
    None
}

/// Detects the command that starts the project.
pub fn detect_launch_command(files: &ProjectFiles) -> (r: Option<CommandPlan>)
    ensures
        plan_view(r) == detect_launch_spec(*files),
{
    let node = match &files.package_scripts {
        Some(scripts) => first_script_exec(scripts),
        None => None,
    };
    match node {
        Some(script) => {
            let pm = detect_package_manager(files);
            let mut source = owned("package.json scripts.");
            source.append(script);
            let is_test = crate::text::str_eq(script, "test");
            Some(
                CommandPlan {
                    adapter: ProjectAdapterKind::Node,
                    command: LaunchCommand {
                        program: owned(pm.program),
                        args: pm.args_for(script),
                        working_directory: files.root.clone(),
                        source,
                        confidence: if is_test {
                            CommandConfidence::Medium
                        } else {
                            CommandConfidence::High
                        },
                    },
                },
            )
        },
        None => {
            if files.has_cargo_toml {
                let args = vec![owned("run")];
                assert(string_views(args@) =~= seq!["run"@]);
                Some(
                    CommandPlan {
                        adapter: ProjectAdapterKind::Rust,
                        command: LaunchCommand {
                            program: owned("cargo"),
                            args,
                            working_directory: files.root.clone(),
                            source: owned("Cargo.toml"),
                            confidence: CommandConfidence::Medium,
                        },
                    },
                )
            } else if files.has_app_py || files.has_main_py {
                let entry = if files.has_app_py {
                    "app.py"
                } else {
                    "main.py"
                };
                let args = vec![owned(entry)];
                assert(string_views(args@) =~= seq![entry@]);
                Some(
                    CommandPlan {
                        adapter: ProjectAdapterKind::Python,
                        command: LaunchCommand {
                            program: owned("python"),
                            args,
                            working_directory: files.root.clone(),
                            source: owned(entry),
                            confidence: CommandConfidence::Low,
                        },
                    },
                )
            } else {
                None
            }
        },
    }
}

// ---------------------------------------------------------------------------
// Logs
// ---------------------------------------------------------------------------

/// Keys whose presence hides a whole log line.
pub open spec fn log_secret_keys() -> Seq<Seq<char>> {
    seq!["api_key"@, "apikey"@, "token"@, "secret"@, "password"@]
}

/// A log line, or `[REDACTED LINE]` when its lowercase form names a secret key.
pub open spec fn redact_log_line(line: Seq<char>) -> Seq<char> {
    if contains_any(ascii_lower(line), log_secret_keys()) {
        "[REDACTED LINE]"@
    } else {
        line
    }
}

/// Log text with each line that names a secret key replaced, joined by `\n`.
pub open spec fn redact_sensitive_lines_spec(contents: Seq<char>) -> Seq<char> {
    join(lines(contents).map_values(|l: Seq<char>| redact_log_line(l)), seq!['\n'])
}

/// Replaces every log line that names a secret key by `[REDACTED LINE]`.
pub fn redact_sensitive_lines(contents: &str) -> (r: String)
    ensures
        r@ == redact_sensitive_lines_spec(contents@),
{
    let chars = chars_of(contents);
    let all = lines_of(chars.as_slice());
    let ghost ls = lines(contents@);
    let keys = ["api_key", "apikey", "token", "secret", "password"];
    assert(str_views(keys@) =~= log_secret_keys());
    let marker = chars_of("[REDACTED LINE]");
    let mut out: Vec<Vec<char>> = Vec::new();
    let mut i: usize = 0;
    while i < all.len()
        invariant
            i <= all@.len(),
            views(all@) == ls,
            str_views(keys@) == log_secret_keys(),
            marker@ == "[REDACTED LINE]"@,
            views(out@) == ls.take(i as int).map_values(|l: Seq<char>| redact_log_line(l)),
        decreases all.len() - i,
    {
        let lower = ascii_lower_chars(all[i].as_slice());
        let line = if contains_any_str(lower.as_slice(), &keys) {
            crate::text::copy_chars(marker.as_slice())
        } else {
            crate::text::copy_chars(all[i].as_slice())
        };
        assert(line@ == redact_log_line(ls[i as int]));
        let ghost before = out@;
        out.push(line);
        assert(views(out@) == views(before).push(redact_log_line(ls[i as int])));
        assert(ls.take(i + 1) == ls.take(i as int).push(ls[i as int]));
        i = i + 1;
    }
    assert(ls.take(all@.len() as int) == ls);
    let joined = join_chars(&out, &['\n']);
    assert(['\n']@ == seq!['\n']);
    string_of(joined.as_slice())
}

/// The most characters of a log that are kept.
pub const LOG_EXCERPT_LIMIT: usize = 4000;

/// What is kept of a log file's contents: redacted, then cut to 4000 characters.
pub open spec fn log_excerpt_spec(contents: Seq<char>) -> Seq<char> {
    excerpt(redact_sensitive_lines_spec(contents), 4000)
}

pub fn log_excerpt(contents: &str) -> (r: String)
    ensures
        r@ == log_excerpt_spec(contents@),
{
    let red = redact_sensitive_lines(contents);
    let v = chars_of(red.as_str());
    excerpt_string(v.as_slice(), LOG_EXCERPT_LIMIT)
}

// ---------------------------------------------------------------------------
// Runs
// ---------------------------------------------------------------------------

/// The report of a dry run: the command was detected, nothing was executed.
pub fn dry_run_report(project_root: String, plan: CommandPlan, timeout_secs: u64) -> (r: LaunchReport)
    ensures
        r.project_root@ == project_root@,
        r.adapter == plan.adapter,
        r.command@ == plan.command@,
        !r.execution.attempted && r.execution.dry_run && !r.execution.success,
        !r.execution.timed_out && !r.execution.long_running,
        r.execution.exit_code is None && r.execution.duration_ms == 0,
        r.execution.timeout_secs == timeout_secs,
        r.readiness is None,
        r.stdout_excerpt@.len() == 0 && r.stderr_excerpt@.len() == 0,
        r.diagnostics@.len() == 1,
        r.diagnostics@[0].severity == RuntimeDiagnosticSeverity::Info,
        r.diagnostics@[0].message@
            == "Launch command was detected but not executed because --dry-run was set."@,
{
    LaunchReport {
        project_root,
        adapter: plan.adapter,
        command: plan.command,
        execution: LaunchExecution {
            attempted: false,
            dry_run: true,
            success: false,
            timed_out: false,
            long_running: false,
            exit_code: None,
            duration_ms: 0,
            timeout_secs,
        },
        readiness: None,
        stdout_excerpt: String::new(),
        stderr_excerpt: String::new(),
        diagnostics: vec![
            LaunchDiagnostic {
                severity: RuntimeDiagnosticSeverity::Info,
                message: owned("Launch command was detected but not executed because --dry-run was set."),
            },
        ],
    }
}

/// How a one-shot run went, from what the process did: it succeeded when it
/// exited successfully before the timeout, or when it was still running
/// with output at the timeout (a long-running service).
pub fn run_outcome(
    exit_success: bool,
    exit_code: Option<i32>,
    timed_out: bool,
    has_output: bool,
    duration_ms: u128,
    timeout_secs: u64,
) -> (r: LaunchExecution)
    ensures
        r.attempted && !r.dry_run,
        r.timed_out == timed_out,
        r.long_running == (timed_out && has_output),
        r.success == ((exit_success && !timed_out) || (timed_out && has_output)),
        r.exit_code == exit_code,
        r.duration_ms == duration_ms,
        r.timeout_secs == timeout_secs,
{
    let long_running = timed_out && has_output;
    LaunchExecution {
        attempted: true,
        dry_run: false,
        success: (exit_success && !timed_out) || long_running,
        timed_out,
        long_running,
        exit_code,
        duration_ms,
        timeout_secs,
    }
}

pub open spec fn long_running_message() -> Seq<char> {
    "Process was still running with output when the timeout elapsed; treated as a long-running service, not a failure."@
}

/// Diagnostics of a one-shot run: a long-running service is noted; otherwise
/// a timeout is a warning and an unsuccessful exit an error.
pub open spec fn run_diagnostics_spec(long_running: bool, timed_out: bool, success: bool) -> Seq<
    (RuntimeDiagnosticSeverity, Seq<char>),
> {
    if long_running {
        seq![(RuntimeDiagnosticSeverity::Info, long_running_message())]
    } else {
        let a = if timed_out {
            seq![(RuntimeDiagnosticSeverity::Warning, "Process exceeded the timeout and was killed."@)]
        } else {
            Seq::empty()
        };
        if !success {
            a.push((RuntimeDiagnosticSeverity::Error, "Process did not exit successfully."@))
        } else {
            a
        }
    }
}

pub open spec fn launch_diagnostic_views(v: Seq<LaunchDiagnostic>) -> Seq<(RuntimeDiagnosticSeverity, Seq<char>)> {
    v.map_values(|d: LaunchDiagnostic| (d.severity, d.message@))
}

pub fn run_diagnostics(execution: &LaunchExecution) -> (r: Vec<LaunchDiagnostic>)
    ensures
        launch_diagnostic_views(r@) == run_diagnostics_spec(
            execution.long_running,
            execution.timed_out,
            execution.success,
        ),
{
    let mut diagnostics: Vec<LaunchDiagnostic> = Vec::new();
    if execution.long_running {
        diagnostics.push(
            LaunchDiagnostic {
                severity: RuntimeDiagnosticSeverity::Info,
                message: owned(
                    "Process was still running with output when the timeout elapsed; treated as a long-running service, not a failure.",
                ),
            },
        );
    } else {
        if execution.timed_out {
            diagnostics.push(
                LaunchDiagnostic {
                    severity: RuntimeDiagnosticSeverity::Warning,
                    message: owned("Process exceeded the timeout and was killed."),
                },
            );
        }
        if !execution.success {
            diagnostics.push(
                LaunchDiagnostic {
                    severity: RuntimeDiagnosticSeverity::Error,
                    message: owned("Process did not exit successfully."),
                },
            );
        }
    }
    assert(launch_diagnostic_views(diagnostics@) =~= run_diagnostics_spec(
        execution.long_running,
        execution.timed_out,
        execution.success,
    ));
    diagnostics
}

/// The report of an executed one-shot launch.
pub fn executed_report(
    project_root: String,
    plan: CommandPlan,
    execution: LaunchExecution,
    stdout_excerpt: String,
    stderr_excerpt: String,
) -> (r: LaunchReport)
    ensures
        r.project_root@ == project_root@,
        r.adapter == plan.adapter,
        r.command@ == plan.command@,
        r.execution == execution,
        r.readiness is None,
        r.stdout_excerpt@ == stdout_excerpt@,
        r.stderr_excerpt@ == stderr_excerpt@,
        launch_diagnostic_views(r.diagnostics@) == run_diagnostics_spec(
            execution.long_running,
            execution.timed_out,
            execution.success,
        ),
{
    let diagnostics = run_diagnostics(&execution);
    LaunchReport {
        project_root,
        adapter: plan.adapter,
        command: plan.command,
        execution,
        readiness: None,
        stdout_excerpt,
        stderr_excerpt,
        diagnostics,
    }
}

/// Diagnostics when a managed service is shut down: the readiness result
/// when a probe was made, and an error if the process had already stopped.
pub open spec fn shutdown_diagnostics_spec(readiness: Option<(bool, bool, u128, Seq<char>)>, was_running: bool) -> Seq<
    (RuntimeDiagnosticSeverity, Seq<char>),
> {
    let a = match readiness {
        Some((probed, ready, waited_ms, detail)) => if probed && ready {
            seq![
                (
                    RuntimeDiagnosticSeverity::Info,
                    "Service became ready in "@ + decimal(waited_ms as nat) + " ms."@,
                ),
            ]
        } else if probed {
            seq![(RuntimeDiagnosticSeverity::Error, detail)]
        } else {
            Seq::empty()
        },
        None => Seq::empty(),
    };
    if !was_running {
        a.push(
            (RuntimeDiagnosticSeverity::Error, "Service process was no longer running before shutdown."@),
        )
    } else {
        a
    }
}

pub open spec fn readiness_tuple(r: Option<ReadinessReport>) -> Option<(bool, bool, u128, Seq<char>)> {
    match r {
        Some(r) => Some((r.probed, r.ready, r.waited_ms, r.detail@)),
        None => None,
    }
}

/// The report of a managed service after shutdown: it succeeded when it was
/// ready (by the probe, or by still running when no probe was made) and still
/// running at shutdown.
pub fn shutdown_report(
    project_root: String,
    adapter: ProjectAdapterKind,
    command: LaunchCommand,
    readiness: Option<ReadinessReport>,
    was_running: bool,
    exit_code: Option<i32>,
    duration_ms: u128,
    stdout_excerpt: String,
    stderr_excerpt: String,
) -> (r: LaunchReport)
    ensures
        r.project_root@ == project_root@,
        r.adapter == adapter,
        r.command@ == command@,
        r.execution.attempted && !r.execution.dry_run && !r.execution.timed_out,
        r.execution.success == (match readiness {
            Some(rr) => rr.ready,
            None => was_running,
        } && was_running),
        r.execution.long_running == was_running,
        r.execution.exit_code == exit_code,
        r.execution.duration_ms == duration_ms,
        r.execution.timeout_secs == 0,
        readiness_tuple(r.readiness) == readiness_tuple(readiness),
        r.stdout_excerpt@ == stdout_excerpt@,
        r.stderr_excerpt@ == stderr_excerpt@,
        launch_diagnostic_views(r.diagnostics@) == shutdown_diagnostics_spec(
            readiness_tuple(readiness),
            was_running,
        ),
{
    let ready = match &readiness {
        Some(report) => report.ready,
        None => was_running,
    };
    let mut diagnostics: Vec<LaunchDiagnostic> = Vec::new();
    match &readiness {
        Some(report) => {
            if report.probed && report.ready {
                let mut message = owned("Service became ready in ");
                let n = decimal_string(report.waited_ms);
                message.append(n.as_str());
                message.append(" ms.");
                diagnostics.push(LaunchDiagnostic { severity: RuntimeDiagnosticSeverity::Info, message });
            } else if report.probed {
                diagnostics.push(
                    LaunchDiagnostic {
                        severity: RuntimeDiagnosticSeverity::Error,
                        message: report.detail.clone(),
                    },
                );
            }
        },
        None => {},
    }
    if !was_running {
        diagnostics.push(
            LaunchDiagnostic {
                severity: RuntimeDiagnosticSeverity::Error,
                message: owned("Service process was no longer running before shutdown."),
            },
        );
    }
    assert(launch_diagnostic_views(diagnostics@) =~= shutdown_diagnostics_spec(
        readiness_tuple(readiness),
        was_running,
    ));
    LaunchReport {
        project_root,
        adapter,
        command,
        execution: LaunchExecution {
            attempted: true,
            dry_run: false,
            success: ready && was_running,
            timed_out: false,
            long_running: was_running,
            exit_code,
            duration_ms,
            timeout_secs: 0,
        },
        readiness,
        stdout_excerpt,
        stderr_excerpt,
        diagnostics,
    }
}

/// What one readiness poll decides.
#[derive(Debug)]
pub enum ReadinessStep {
    /// Wait and poll again.
    Wait,
    /// Polling is over with this report.
    Done(ReadinessReport),
}

/// One readiness poll of a managed service: an exited process ends polling
/// as not ready, any HTTP response as ready, an elapsed timeout as not ready;
/// otherwise the caller waits and polls again.
pub fn readiness_step(
    exited: Option<Option<i32>>,
    responded: bool,
    url: &str,
    elapsed_ms: u128,
    timeout_secs: u64,
) -> (r: ReadinessStep)
    ensures
        exited is Some ==> (r matches ReadinessStep::Done(rep) && rep.probed && !rep.ready
            && rep.waited_ms == elapsed_ms && rep.detail@
            == "Process exited before becoming ready (exit code "@ + exit_code_debug(exited->0)
            + ")."@),
        exited is None && responded ==> (r matches ReadinessStep::Done(rep) && rep.probed
            && rep.ready && rep.waited_ms == elapsed_ms && rep.detail@ == "Server responded at "@
            + url@ + "."@),
        exited is None && !responded && elapsed_ms >= (if timeout_secs == 0 { 1 } else { timeout_secs }) * 1000
            ==> (r matches ReadinessStep::Done(rep) && rep.probed && !rep.ready
            && rep.waited_ms == elapsed_ms && rep.detail@ == "Timed out after "@ + decimal(
            timeout_secs as nat,
        ) + "s waiting for "@ + url@ + "."@),
        exited is None && !responded && elapsed_ms < (if timeout_secs == 0 { 1 } else { timeout_secs }) * 1000
            ==> r is Wait,
{
    match exited {
        Some(code) => {
            let mut detail = owned("Process exited before becoming ready (exit code ");
            match code {
                Some(c) => {
                    detail.append("Some(");
                    let t = signed_decimal_string(c as i64);
                    detail.append(t.as_str());
                    detail.append(")");
                },
                None => {
                    detail.append("None");
                },
            }
            detail.append(").");
            ReadinessStep::Done(
                ReadinessReport { probed: true, ready: false, waited_ms: elapsed_ms, detail },
            )
        },
        None => {
            if responded {
                let mut detail = owned("Server responded at ");
                detail.append(url);
                detail.append(".");
                return ReadinessStep::Done(
                    ReadinessReport { probed: true, ready: true, waited_ms: elapsed_ms, detail },
                );
            }
            let secs: u128 = if timeout_secs == 0 {
                1
            } else {
                timeout_secs as u128
            };
            if elapsed_ms >= secs * 1000 {
                let mut detail = owned("Timed out after ");
                let t = decimal_string(timeout_secs as u128);
                detail.append(t.as_str());
                detail.append("s waiting for ");
                detail.append(url);
                detail.append(".");
                ReadinessStep::Done(
                    ReadinessReport { probed: true, ready: false, waited_ms: elapsed_ms, detail },
                )
            } else {
                ReadinessStep::Wait
            }
        },
    }
}

/// `{:?}` of an optional exit code.
pub open spec fn exit_code_debug(code: Option<i32>) -> Seq<char> {
    match code {
        Some(c) => "Some("@ + signed_decimal(c as int) + ")"@,
        None => "None"@,
    }
}

/// The report when no base URL is given: no probe, ready.
pub fn unprobed_readiness(waited_ms: u128) -> (r: ReadinessReport)
    ensures
        !r.probed && r.ready && r.waited_ms == waited_ms,
        r.detail@ == "No base URL provided; skipped readiness probe."@,
{
    ReadinessReport {
        probed: false,
        ready: true,
        waited_ms,
        detail: owned("No base URL provided; skipped readiness probe."),
    }
}

/// A Node launch runs one of the project's own scripts with the package
/// manager its lock file names: `pnpm run <script>` with a pnpm lock,
/// otherwise `yarn <script>` (no run word) with a yarn lock, otherwise
/// `bun run <script>` with a bun lock, and `npm run <script>` without any.
pub proof fn lemma_node_command_follows_lock_files(f: ProjectFiles)
    ensures
        match detect_launch_spec(f) {
            Some((ProjectAdapterKind::Node, c)) => {
                let script = c.args.last();
                &&& c.args.len() >= 1
                &&& (f.package_scripts matches Some(v) && string_views(v@).contains(script))
                &&& f.has_pnpm_lock ==> c.program == "pnpm"@ && c.args == seq!["run"@, script]
                &&& !f.has_pnpm_lock && f.has_yarn_lock ==> c.program == "yarn"@ && c.args == seq![script]
                &&& !f.has_pnpm_lock && !f.has_yarn_lock && (f.has_bun_lock || f.has_bun_lockb) ==> c.program
                    == "bun"@ && c.args == seq!["run"@, script]
                &&& !f.has_pnpm_lock && !f.has_yarn_lock && !f.has_bun_lock && !f.has_bun_lockb ==> c.program
                    == "npm"@ && c.args == seq!["run"@, script]
            },
            _ => true,
        },
{
    match f.package_scripts {
        Some(v) => {
            match first_script(string_views(v@)) {
                Some(s) => {
                    let (_, c) = detect_launch_spec(f)->0;
                    assert(c.args.last() == s);
                },
                None => {},
            }
        },
        None => {},
    }
}

} // verus!
