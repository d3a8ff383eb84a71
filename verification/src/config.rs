//! Project settings: each setting is taken from the command line, else the
//! environment, else the project's `specprobe.toml`, else a built-in default.
//! Reading and parsing the file is left to the caller.
use vstd::prelude::*;

use crate::ai::{AiProviderKind, provider_name};
use crate::text::{
    ascii_lower, ascii_lower_chars, chars_eq_str, chars_of, opt_string_view, owned, string_of,
    push_char,
};

verus! {

pub const CONFIG_FILE_NAME: &'static str = "specprobe.toml";

pub const DEFAULT_BASE_URL: &'static str = "http://127.0.0.1:3000";

pub const DEFAULT_LAUNCH_TIMEOUT_SECS: u64 = 15;

pub const DEFAULT_BROWSER_TIMEOUT_SECS: u64 = 10;

/// Name under which an invalid provider from the environment is reported.
pub const PROVIDER_ENV_NAME: &'static str = "SPECPROBE_PROVIDER";

/// Why the settings could not be resolved.
#[derive(Debug)]
pub enum ConfigError {
    /// The file could not be read.
    Io { path: String, message: String },
    /// The file is not a valid configuration.
    Parse { path: String, message: String },
    /// A provider name that is none of `mock`, `openai-compatible`, `ollama`.
    InvalidProvider { path: String, value: String },
}

/// The contents of `specprobe.toml`.
#[derive(Debug, Default)]
pub struct ProjectConfig {
    pub base_url: Option<String>,
    /// `mock`, `openai-compatible` or `ollama`.
    pub provider: Option<String>,
    /// Requirement document or directory, relative to the project root.
    pub requirements: Option<String>,
    pub launch_timeout_secs: Option<u64>,
    pub browser_timeout_secs: Option<u64>,
    pub no_cache: Option<bool>,
}

/// A configuration with the file it came from.
#[derive(Debug)]
pub struct LoadedConfig {
    pub source: String,
    pub config: ProjectConfig,
}

/// The environment layer.
#[derive(Debug, Default)]
pub struct EnvOverrides {
    pub base_url: Option<String>,
    pub provider: Option<String>,
}

/// The command-line layer; `None` means not given.
#[derive(Debug, Default)]
pub struct CliOverrides {
    pub base_url: Option<String>,
    pub provider: Option<AiProviderKind>,
    pub requirements: Option<String>,
    pub launch_timeout_secs: Option<u64>,
    pub browser_timeout_secs: Option<u64>,
    /// `--no-cache` was given.
    pub no_cache: bool,
}

/// The settings in effect.
#[derive(Debug)]
pub struct ResolvedSettings {
    pub base_url: String,
    pub provider: AiProviderKind,
    pub requirements: Option<String>,
    pub launch_timeout_secs: u64,
    pub browser_timeout_secs: u64,
    pub no_cache: bool,
}

/// The provider named by `text`, ignoring ASCII case.
pub open spec fn provider_named(text: Seq<char>) -> Option<AiProviderKind> {
    if ascii_lower(text) == provider_name(AiProviderKind::Mock) {
        Some(AiProviderKind::Mock)
    } else if ascii_lower(text) == provider_name(AiProviderKind::OpenaiCompatible) {
        Some(AiProviderKind::OpenaiCompatible)
    } else if ascii_lower(text) == provider_name(AiProviderKind::Ollama) {
        Some(AiProviderKind::Ollama)
    } else {
        None
    }
}

/// Parses a provider name, ignoring ASCII case.
pub fn parse_provider(text: &str) -> (r: Option<AiProviderKind>)
    ensures
        r == provider_named(text@),
{
    let lower = ascii_lower_chars(chars_of(text).as_slice());
    if chars_eq_str(lower.as_slice(), "mock") {
        Some(AiProviderKind::Mock)
    } else if chars_eq_str(lower.as_slice(), "openai-compatible") {
        Some(AiProviderKind::OpenaiCompatible)
    } else if chars_eq_str(lower.as_slice(), "ollama") {
        Some(AiProviderKind::Ollama)
    } else {
        None
    }
}

/// `relative` below `base`, as a path join does it: an absolute `relative`
/// stands alone, and one `/` separates the two.
pub open spec fn join_path(base: Seq<char>, relative: Seq<char>) -> Seq<char> {
    if relative.len() > 0 && relative[0] == '/' {
        relative
    } else if base.len() == 0 {
        relative
    } else if base.last() == '/' {
        base + relative
    } else {
        base + seq!['/'] + relative
    }
}

/// Joins `relative` to `base`.
pub fn join_path_string(base: &str, relative: &str) -> (r: String)
    ensures
        r@ == join_path(base@, relative@),
{
    let b = chars_of(base);
    let rel = chars_of(relative);
    if rel.len() > 0 && rel[0] == '/' {
        return string_of(rel.as_slice());
    }
    if b.len() == 0 {
        return string_of(rel.as_slice());
    }
    let mut out = string_of(b.as_slice());
    if b[b.len() - 1] != '/' {
        push_char(&mut out, '/');
    }
    let mut i: usize = 0;
    let ghost start = out@;
    while i < rel.len()
        invariant
            i <= rel@.len(),
            out@ == start + rel@.take(i as int),
        decreases rel.len() - i,
    {
        push_char(&mut out, rel[i]);
        assert(rel@.take(i + 1) == rel@.take(i as int).push(rel@[i as int]));
        i = i + 1;
    }
    assert(rel@.take(rel@.len() as int) == rel@);
    out
}

/// The first value that is present, else `fallback`.
pub open spec fn first_present<T>(a: Option<T>, b: Option<T>, fallback: T) -> T {
    match a {
        Some(x) => x,
        None => match b {
            Some(y) => y,
            None => fallback,
        },
    }
}

/// What a provider given as text resolves to: `Err(())` for an unknown name.
pub open spec fn provider_layer(text: Option<Seq<char>>) -> Result<Option<AiProviderKind>, ()> {
    match text {
        Some(t) => match provider_named(t) {
            Some(k) => Ok(Some(k)),
            None => Err(()),
        },
        None => Ok(None),
    }
}

pub open spec fn config_of(loaded: Option<&LoadedConfig>) -> Option<ProjectConfig> {
    match loaded {
        Some(l) => Some(l.config),
        None => None,
    }
}

pub open spec fn config_provider_text(loaded: Option<&LoadedConfig>) -> Option<Seq<char>> {
    match loaded {
        Some(l) => opt_string_view(l.config.provider),
        None => None,
    }
}

/// The settings, field by field: command line, else environment, else file,
/// else default. The timeouts and the requirement path have no environment
/// layer; `no_cache` holds when either the command line or the file asks for it.
pub open spec fn settings_ok(
    project_path: Seq<char>,
    cli: CliOverrides,
    env: EnvOverrides,
    loaded: Option<&LoadedConfig>,
    r: ResolvedSettings,
) -> bool {
    let file_base_url = match loaded {
        Some(l) => opt_string_view(l.config.base_url),
        None => None,
    };
    let file_requirements = match loaded {
        Some(l) => match l.config.requirements {
            Some(rel) => Some(join_path(project_path, rel@)),
            None => None,
        },
        None => None,
    };
    let file_launch = match loaded {
        Some(l) => l.config.launch_timeout_secs,
        None => None,
    };
    let file_browser = match loaded {
        Some(l) => l.config.browser_timeout_secs,
        None => None,
    };
    let file_no_cache = match loaded {
        Some(l) => l.config.no_cache == Some(true),
        None => false,
    };
    let env_provider = provider_layer(opt_string_view(env.provider));
    let file_provider = provider_layer(config_provider_text(loaded));
    &&& r.base_url@ == first_present(
        opt_string_view(cli.base_url),
        opt_string_view(env.base_url),
        first_present(file_base_url, None, DEFAULT_BASE_URL@),
    )
    &&& r.provider == first_present(
        cli.provider,
        env_provider->Ok_0,
        first_present(file_provider->Ok_0, None, AiProviderKind::Mock),
    )
    &&& opt_string_view(r.requirements) == match cli.requirements {
        Some(p) => Some(p@),
        None => file_requirements,
    }
    &&& r.launch_timeout_secs == first_present(cli.launch_timeout_secs, file_launch, DEFAULT_LAUNCH_TIMEOUT_SECS)
    &&& r.browser_timeout_secs == first_present(cli.browser_timeout_secs, file_browser, DEFAULT_BROWSER_TIMEOUT_SECS)
    &&& r.no_cache == (cli.no_cache || file_no_cache)
}

/// `e` reports `value` as an invalid provider found in `path`.
pub open spec fn is_invalid_provider(e: ConfigError, path: Seq<char>, value: Seq<char>) -> bool {
    match e {
        ConfigError::InvalidProvider { path: p, value: v } => p@ == path && v@ == value,
        _ => false,
    }
}

fn resolve_provider_text(text: Option<&String>, path: &str) -> (r: Result<Option<AiProviderKind>, ConfigError>)
    ensures
        match r {
            Ok(k) => provider_layer(match text { Some(t) => Some(t@), None => None }) == Ok::<Option<AiProviderKind>, ()>(k),
            Err(e) => provider_layer(match text { Some(t) => Some(t@), None => None }) is Err
                && is_invalid_provider(e, path@, text.unwrap()@),
        },
{
    match text {
        Some(t) => match parse_provider(t.as_str()) {
            Some(k) => Ok(Some(k)),
            None => Err(ConfigError::InvalidProvider { path: owned(path), value: t.clone() }),
        },
        None => Ok(None),
    }
}

/// Merges the layers. An unknown provider name in the file or the
/// environment is an error (the file's path, or `SPECPROBE_PROVIDER`, names
/// where it came from); the file's provider is checked first. The file's
/// requirement path is taken relative to the project.
pub fn resolve_settings(
    project_path: &str,
    cli: CliOverrides,
    env: EnvOverrides,
    loaded: Option<&LoadedConfig>,
) -> (r: Result<ResolvedSettings, ConfigError>)
    ensures
        match r {
            Ok(s) => provider_layer(config_provider_text(loaded)) is Ok && provider_layer(
                opt_string_view(env.provider),
            ) is Ok && settings_ok(project_path@, cli, env, loaded, s),
            Err(e) => if provider_layer(config_provider_text(loaded)) is Err {
                is_invalid_provider(e, loaded.unwrap().source@, config_provider_text(loaded).unwrap())
            } else {
                provider_layer(opt_string_view(env.provider)) is Err
                    && is_invalid_provider(e, PROVIDER_ENV_NAME@, opt_string_view(env.provider).unwrap())
            },
        },
{
    let file_provider = match loaded {
        Some(l) => {
            let t = match &l.config.provider {
                Some(t) => Some(t),
                None => None,
            };
            match resolve_provider_text(t, l.source.as_str()) {
                Ok(k) => k,
                Err(e) => {
                    return Err(e);
                },
            }
        },
        None => None,
    };
    let env_t = match &env.provider {
        Some(t) => Some(t),
        None => None,
    };
    let env_provider = match resolve_provider_text(env_t, PROVIDER_ENV_NAME) {
        Ok(k) => k,
        Err(e) => {
            return Err(e);
        },
    };
    let requirements = match cli.requirements {
        Some(p) => Some(p),
        None => match loaded {
            Some(l) => match &l.config.requirements {
                Some(rel) => Some(join_path_string(project_path, rel.as_str())),
                None => None,
            },
            None => None,
        },
    };
    let base_url = match cli.base_url {
        Some(u) => u,
        None => match env.base_url {
            Some(u) => u,
            None => match loaded {
                Some(l) => match &l.config.base_url {
                    Some(u) => u.clone(),
                    None => owned(DEFAULT_BASE_URL),
                },
                None => owned(DEFAULT_BASE_URL),
            },
        },
    };
    let provider = match cli.provider {
        Some(k) => k,
        None => match env_provider {
            Some(k) => k,
            None => match file_provider {
                Some(k) => k,
                None => AiProviderKind::Mock,
            },
        },
    };
    let launch_timeout_secs = match cli.launch_timeout_secs {
        Some(v) => v,
        None => match loaded {
            Some(l) => match l.config.launch_timeout_secs {
                Some(v) => v,
                None => DEFAULT_LAUNCH_TIMEOUT_SECS,
            },
            None => DEFAULT_LAUNCH_TIMEOUT_SECS,
        },
    };
    let browser_timeout_secs = match cli.browser_timeout_secs {
        Some(v) => v,
        None => match loaded {
            Some(l) => match l.config.browser_timeout_secs {
                Some(v) => v,
                None => DEFAULT_BROWSER_TIMEOUT_SECS,
            },
            None => DEFAULT_BROWSER_TIMEOUT_SECS,
        },
    };
    let file_no_cache = match loaded {
        Some(l) => match l.config.no_cache {
            Some(b) => b,
            None => false,
        },
        None => false,
    };
    Ok(
        ResolvedSettings {
            base_url,
            provider,
            requirements,
            launch_timeout_secs,
            browser_timeout_secs,
            no_cache: cli.no_cache || file_no_cache,
        },
    )
}

impl ConfigError {
    /// The message shown for the error.
    pub fn message(&self) -> (r: String)
        ensures
            match self {
                ConfigError::InvalidProvider { path, value } => r@ == "invalid provider '"@ + value@
                    + "' in "@ + path@ + " (expected mock | openai-compatible | ollama)"@,
                ConfigError::Io { path, message } => r@ == "failed to read "@ + path@ + ": "@ + message@,
                ConfigError::Parse { path, message } => r@ == "failed to parse "@ + path@ + ": "@ + message@,
            },
    {
        match self {
            ConfigError::InvalidProvider { path, value } => {
                let mut s = owned("invalid provider '");
                s = crate::text::concat_string(&s, value.as_str());
                s = crate::text::concat_string(&s, "' in ");
                s = crate::text::concat_string(&s, path.as_str());
                s = crate::text::concat_string(&s, " (expected mock | openai-compatible | ollama)");
                s
            },
            ConfigError::Io { path, message } => {
                let mut s = owned("failed to read ");
                s = crate::text::concat_string(&s, path.as_str());
                s = crate::text::concat_string(&s, ": ");
                crate::text::concat_string(&s, message.as_str())
            },
            ConfigError::Parse { path, message } => {
                let mut s = owned("failed to parse ");
                s = crate::text::concat_string(&s, path.as_str());
                s = crate::text::concat_string(&s, ": ");
                crate::text::concat_string(&s, message.as_str())
            },
        }
    }
}

} // verus!
