//! Environment readiness report. Running the commands and reading the
//! environment is left to the caller, which hands over what it saw.
use vstd::prelude::*;

use crate::text::{chars_of, lines, lines_of, opt_string_view, owned, string_of, trim, trim_chars, str_eq};

verus! {

/// What running one command printed.
#[derive(Debug)]
pub struct CommandOutput {
    pub success: bool,
    pub stdout: String,
    pub stderr: String,
}

/// One command that was looked up and run.
#[derive(Debug)]
pub struct CommandProbe {
    /// Where the executable was found on `PATH`.
    pub resolved_path: Option<String>,
    /// What running it gave, or why it could not run.
    pub outcome: Result<CommandOutput, String>,
}

/// Everything the report is built from.
#[derive(Debug)]
pub struct EnvironmentProbe {
    pub rustc: CommandProbe,
    pub cargo: CommandProbe,
    pub git: CommandProbe,
    pub node: CommandProbe,
    pub npm: CommandProbe,
    pub docker: CommandProbe,
    pub ollama: CommandProbe,
    /// The MSVC compiler `cl`, run without arguments.
    pub cl: CommandProbe,
    /// A `cl.exe` found in a Visual Studio installation.
    pub msvc_discovered: Option<String>,
    pub openai_api_key: Option<String>,
    pub anthropic_api_key: Option<String>,
    pub deepseek_api_key: Option<String>,
}

#[derive(Debug)]
pub struct ToolCheck {
    pub name: String,
    pub available: bool,
    pub version: Option<String>,
    pub path: Option<String>,
    pub note: Option<String>,
}

#[derive(Debug)]
pub struct AiProviderCheck {
    pub name: String,
    pub configured: bool,
    pub source: String,
}

#[derive(Debug)]
pub struct DoctorReport {
    pub tools: Vec<ToolCheck>,
    pub ai_providers: Vec<AiProviderCheck>,
    pub core_ready: bool,
    pub web_testing_ready: bool,
    pub ai_ready: bool,
    pub notes: Vec<String>,
}

/// The first line of `ls`, from `i` on, that is not blank, trimmed.
pub open spec fn first_nonblank_from(ls: Seq<Seq<char>>, i: int) -> Option<Seq<char>>
    decreases ls.len() - i,
{
    if i < 0 || i >= ls.len() {
        None
    } else if trim(ls[i]).len() > 0 {
        Some(trim(ls[i]))
    } else {
        first_nonblank_from(ls, i + 1)
    }
}

/// The first non-blank line of `s`, trimmed.
pub open spec fn first_line_spec(s: Seq<char>) -> Option<Seq<char>> {
    first_nonblank_from(lines(s), 0)
}

/// The first non-blank line of `value`, trimmed.
pub fn first_non_empty_line(value: &str) -> (r: Option<String>)
    ensures
        opt_string_view(r) == first_line_spec(value@),
{
    let ls = lines_of(chars_of(value).as_slice());
    let ghost l = lines(value@);
    let mut i: usize = 0;
    while i < ls.len()
        invariant
            i <= ls@.len(),
            l == lines(value@),
            ls@.len() == l.len(),
            forall|k: int| 0 <= k < l.len() ==> #[trigger] ls@[k]@ == l[k],
            first_nonblank_from(l, 0) == first_nonblank_from(l, i as int),
        decreases ls.len() - i,
    {
        let t = trim_chars(ls[i].as_slice());
        assert(ls@[i as int]@ == l[i as int]);
        if t.len() > 0 {
            assert(t@ == trim(l[i as int]));
            assert(first_nonblank_from(l, i as int) == Some(trim(l[i as int])));
            return Some(string_of(t.as_slice()));
        }
        i = i + 1;
    }
    None
}

/// The version text of a command: standard error when the tool is `cl` or
/// standard output is blank (and standard error is not), else standard output.
pub open spec fn version_text(name: Seq<char>, stdout: Seq<char>, stderr: Seq<char>) -> Seq<char> {
    if (name == "cl"@ || trim(stdout).len() == 0) && trim(stderr).len() > 0 {
        trim(stderr)
    } else {
        trim(stdout)
    }
}

/// The check of one tool from what running it gave.
pub open spec fn tool_check_ok(name: Seq<char>, probe: CommandProbe, t: ToolCheck) -> bool {
    &&& t.name@ == name
    &&& match probe.outcome {
        Ok(out) => {
            &&& t.available == out.success
            &&& opt_string_view(t.version) == first_line_spec(version_text(name, out.stdout@, out.stderr@))
            &&& opt_string_view(t.path) == opt_string_view(probe.resolved_path)
            &&& opt_string_view(t.note) == if out.success {
                None
            } else {
                Some("Command returned an error."@)
            }
        },
        Err(e) => {
            &&& !t.available
            &&& t.version is None
            &&& t.path is None
            &&& opt_string_view(t.note) == Some(e@)
        },
    }
}

/// Checks one tool from what running it gave.
pub fn inspect_command(name: &str, probe: CommandProbe) -> (r: ToolCheck)
    ensures
        tool_check_ok(name@, probe, r),
{
    match probe.outcome {
        Ok(out) => {
            let so = trim_chars(chars_of(out.stdout.as_str()).as_slice());
            let se = trim_chars(chars_of(out.stderr.as_str()).as_slice());
            let text = if (str_eq(name, "cl") || so.len() == 0) && se.len() > 0 {
                string_of(se.as_slice())
            } else {
                string_of(so.as_slice())
            };
            proof {
                reveal_strlit("cl");
            }
            ToolCheck {
                name: owned(name),
                available: out.success,
                version: first_non_empty_line(text.as_str()),
                path: probe.resolved_path,
                note: if out.success {
                    None
                } else {
                    Some(owned("Command returned an error."))
                },
            }
        },
        Err(e) => ToolCheck { name: owned(name), available: false, version: None, path: None, note: Some(e) },
    }
}

/// The MSVC check: the active `cl` when it runs, else an installation found
/// on disk (present but not active), else absent.
pub open spec fn msvc_check_ok(active: ToolCheck, discovered: Option<String>, t: ToolCheck) -> bool {
    &&& t.name@ == "msvc"@
    &&& if active.available {
        &&& t.available
        &&& opt_string_view(t.version) == opt_string_view(active.version)
        &&& opt_string_view(t.path) == opt_string_view(active.path)
        &&& opt_string_view(t.note) == opt_string_view(active.note)
    } else {
        &&& t.available == discovered is Some
        &&& t.version is None
        &&& opt_string_view(t.path) == opt_string_view(discovered)
        &&& opt_string_view(t.note) == Some(
            if discovered is Some {
                "Installed, but the Visual Studio developer environment is not active."@
            } else {
                "Visual C++ build tools were not found."@
            },
        )
    }
}

pub fn inspect_msvc(active: ToolCheck, discovered: Option<String>) -> (r: ToolCheck)
    ensures
        msvc_check_ok(active, discovered, r),
{
    if active.available {
        return ToolCheck {
            name: owned("msvc"),
            available: true,
            version: active.version,
            path: active.path,
            note: active.note,
        };
    }
    let found = discovered.is_some();
    ToolCheck {
        name: owned("msvc"),
        available: found,
        version: None,
        path: discovered,
        note: Some(
            if found {
                owned("Installed, but the Visual Studio developer environment is not active.")
            } else {
                owned("Visual C++ build tools were not found.")
            },
        ),
    }
}

/// A provider configured by an environment variable that is set and not empty.
pub fn inspect_env_provider(name: &str, variable: &str, value: &Option<String>) -> (r: AiProviderCheck)
    ensures
        r.name@ == name@,
        r.source@ == variable@,
        r.configured == (value is Some && value.unwrap()@.len() > 0),
{
    let configured = match value {
        Some(v) => chars_of(v.as_str()).len() > 0,
        None => false,
    };
    proof {
        broadcast use vstd::string::group_string_axioms;
    }
    AiProviderCheck { name: owned(name), configured, source: owned(variable) }
}

/// Whether the first tool named `name` is available.
pub open spec fn tool_available_spec(tools: Seq<ToolCheck>, name: Seq<char>) -> bool {
    exists|i: int|
        0 <= i < tools.len() && (#[trigger] tools[i]).name@ == name && tools[i].available
            && forall|j: int| 0 <= j < i ==> (#[trigger] tools[j]).name@ != name
}

pub fn tool_available(tools: &Vec<ToolCheck>, name: &str) -> (r: bool)
    ensures
        r == tool_available_spec(tools@, name@),
{
    let mut i: usize = 0;
    while i < tools.len()
        invariant
            i <= tools@.len(),
            forall|j: int| 0 <= j < i ==> (#[trigger] tools@[j]).name@ != name@,
        decreases tools.len() - i,
    {
        if str_eq(tools[i].name.as_str(), name) {
            proof {
                if !tools@[i as int].available && tool_available_spec(tools@, name@) {
                    let k = choose|k: int|
                        0 <= k < tools@.len() && (#[trigger] tools@[k]).name@ == name@
                            && tools@[k].available && forall|j: int|
                            0 <= j < k ==> (#[trigger] tools@[j]).name@ != name@;
                    assert(k != i);
                    if k < i {
                    } else {
                        assert(tools@[i as int].name@ == name@);
                    }
                }
            }
            return tools[i].available;
        }
        i = i + 1;
    }
    proof {
        if tool_available_spec(tools@, name@) {
            let k = choose|k: int|
                0 <= k < tools@.len() && (#[trigger] tools@[k]).name@ == name@
                    && tools@[k].available && forall|j: int|
                    0 <= j < k ==> (#[trigger] tools@[j]).name@ != name@;
            assert(tools@[k].name@ != name@);
        }
    }
    false
}

pub const NOTE_WEB_TESTING: &'static str =
    "Node.js and npm are required before browser automation can be enabled.";

pub const NOTE_NO_AI: &'static str =
    "No AI provider is configured yet; static inspection remains available.";

pub const NOTE_MSVC_INACTIVE: &'static str =
    "MSVC is installed but not active in this shell; use scripts/cargo-msvc.ps1.";

/// The names of the tools in the report, in order.
pub open spec fn tool_names() -> Seq<Seq<char>> {
    seq!["rustc"@, "cargo"@, "git"@, "node"@, "npm"@, "docker"@, "ollama"@, "msvc"@]
}

/// The report: the tools in a fixed order ending with MSVC, the providers
/// (three API keys and a local Ollama), readiness flags and notes.
pub open spec fn report_ok(p: EnvironmentProbe, r: DoctorReport) -> bool {
    let t = r.tools@;
    let a = r.ai_providers@;
    &&& t.len() == 8
    &&& tool_check_ok("rustc"@, p.rustc, t[0])
    &&& tool_check_ok("cargo"@, p.cargo, t[1])
    &&& tool_check_ok("git"@, p.git, t[2])
    &&& tool_check_ok("node"@, p.node, t[3])
    &&& tool_check_ok("npm"@, p.npm, t[4])
    &&& tool_check_ok("docker"@, p.docker, t[5])
    &&& tool_check_ok("ollama"@, p.ollama, t[6])
    &&& t[7].name@ == "msvc"@
    &&& a.len() == 4
    &&& a[0].name@ == "OpenAI-compatible API"@ && a[0].source@ == "OPENAI_API_KEY"@
    &&& a[0].configured == (p.openai_api_key is Some && p.openai_api_key.unwrap()@.len() > 0)
    &&& a[1].name@ == "Anthropic"@ && a[1].source@ == "ANTHROPIC_API_KEY"@
    &&& a[1].configured == (p.anthropic_api_key is Some && p.anthropic_api_key.unwrap()@.len() > 0)
    &&& a[2].name@ == "DeepSeek"@ && a[2].source@ == "DEEPSEEK_API_KEY"@
    &&& a[2].configured == (p.deepseek_api_key is Some && p.deepseek_api_key.unwrap()@.len() > 0)
    &&& a[3].name@ == "Ollama"@ && a[3].source@ == "local command"@
    &&& a[3].configured == t[6].available
    &&& r.core_ready == (t[0].available && t[1].available && t[2].available)
    &&& r.web_testing_ready == (t[3].available && t[4].available)
    &&& r.ai_ready == (a[0].configured || a[1].configured || a[2].configured || a[3].configured)
    &&& string_views_of(r.notes@) == notes_spec(
        r.web_testing_ready,
        r.ai_ready,
        t[7].available && t[7].version is None,
    )
}

pub open spec fn string_views_of(v: Seq<String>) -> Seq<Seq<char>> {
    v.map_values(|s: String| s@)
}

pub open spec fn notes_spec(web_ready: bool, ai_ready: bool, msvc_inactive: bool) -> Seq<Seq<char>> {
    let a = if !web_ready {
        seq![NOTE_WEB_TESTING@]
    } else {
        Seq::<Seq<char>>::empty()
    };
    let b = if !ai_ready {
        a.push(NOTE_NO_AI@)
    } else {
        a
    };
    if msvc_inactive {
        b.push(NOTE_MSVC_INACTIVE@)
    } else {
        b
    }
}

/// Builds the readiness report from what the caller saw.
pub fn inspect_environment(p: EnvironmentProbe) -> (r: DoctorReport)
    ensures
        report_ok(p, r),
{
    let ghost p0 = p;
    let EnvironmentProbe {
        rustc,
        cargo,
        git,
        node,
        npm,
        docker,
        ollama,
        cl,
        msvc_discovered,
        openai_api_key,
        anthropic_api_key,
        deepseek_api_key,
    } = p;
    let mut tools: Vec<ToolCheck> = Vec::new();
    tools.push(inspect_command("rustc", rustc));
    tools.push(inspect_command("cargo", cargo));
    tools.push(inspect_command("git", git));
    tools.push(inspect_command("node", node));
    tools.push(inspect_command("npm", npm));
    tools.push(inspect_command("docker", docker));
    tools.push(inspect_command("ollama", ollama));
    let active = inspect_command("cl", cl);
    tools.push(inspect_msvc(active, msvc_discovered));
    proof {
        reveal_strlit("rustc");
        reveal_strlit("cargo");
        reveal_strlit("git");
        reveal_strlit("node");
        reveal_strlit("npm");
        reveal_strlit("docker");
        reveal_strlit("ollama");
        reveal_strlit("msvc");
    }
    let ollama_ready = tools[6].available;
    let mut ai_providers: Vec<AiProviderCheck> = Vec::new();
    ai_providers.push(inspect_env_provider("OpenAI-compatible API", "OPENAI_API_KEY", &openai_api_key));
    ai_providers.push(inspect_env_provider("Anthropic", "ANTHROPIC_API_KEY", &anthropic_api_key));
    ai_providers.push(inspect_env_provider("DeepSeek", "DEEPSEEK_API_KEY", &deepseek_api_key));
    ai_providers.push(
        AiProviderCheck { name: owned("Ollama"), configured: ollama_ready, source: owned("local command") },
    );
    let core_ready = tools[0].available && tools[1].available && tools[2].available;
    let web_testing_ready = tools[3].available && tools[4].available;
    let ai_ready = ai_providers[0].configured || ai_providers[1].configured
        || ai_providers[2].configured || ai_providers[3].configured;
    let mut notes: Vec<String> = Vec::new();
    if !web_testing_ready {
        notes.push(owned(NOTE_WEB_TESTING));
    }
    if !ai_ready {
        notes.push(owned(NOTE_NO_AI));
    }
    if tools[7].available && tools[7].version.is_none() {
        notes.push(owned(NOTE_MSVC_INACTIVE));
    }
    let r = DoctorReport { tools, ai_providers, core_ready, web_testing_ready, ai_ready, notes };
    assert(string_views_of(r.notes@) =~= notes_spec(
        r.web_testing_ready,
        r.ai_ready,
        r.tools@[7].available && r.tools@[7].version is None,
    ));
    r
}

/// The report always lists the eight tools in order, whatever the probe saw;
/// the core is ready when rustc, cargo and git are, web testing when node and
/// npm are, AI when any provider is configured, and the Ollama provider is
/// configured exactly when the ollama tool is available.
pub proof fn lemma_report_lists_core_tools(p: EnvironmentProbe, r: DoctorReport)
    requires
        report_ok(p, r),
    ensures
        r.tools@.len() == 8,
        forall|k: int| 0 <= k < 8 ==> (#[trigger] r.tools@[k]).name@ == tool_names()[k],
        r.core_ready == (r.tools@[0].available && r.tools@[1].available && r.tools@[2].available),
        r.web_testing_ready == (r.tools@[3].available && r.tools@[4].available),
        r.ai_ready == exists|k: int| 0 <= k < r.ai_providers@.len() && (#[trigger] r.ai_providers@[k]).configured,
        exists|k: int|
            0 <= k < r.ai_providers@.len() && (#[trigger] r.ai_providers@[k]).name@ == "Ollama"@
                && r.ai_providers@[k].configured == r.tools@[6].available,
{
    let a = r.ai_providers@;
    assert(a[3].name@ == "Ollama"@);
    if r.ai_ready {
        if a[0].configured {
            assert(a[0].configured);
        } else if a[1].configured {
            assert(a[1].configured);
        } else if a[2].configured {
            assert(a[2].configured);
        } else {
            assert(a[3].configured);
        }
    }
}

} // verus!
