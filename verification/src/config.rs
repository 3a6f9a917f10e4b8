//! Configuration: providers, model profiles, effort levels and hooks.
use vstd::prelude::*;
use crate::map::{NamedMap, text_lt};
use crate::text::{chars_of, eq_str, lower, owned, push_all, push_str, string_of, to_lower, trim, trim_chars};

verus! {

/// Which API a provider speaks.
#[derive(Debug, Clone, Copy, PartialEq, Eq, Structural)]
pub enum ProviderKind {
    Openai,
    Anthropic,
    LocalOpenaiCompatible,
    Ollama,
}

/// How tool calls are written in prompts for a model.
#[derive(Debug, Clone, Copy, PartialEq, Eq, Structural)]
pub enum ToolProtocol {
    Xml,
    SimpleJson,
}

impl Default for ToolProtocol {
    fn default() -> (r: Self)
        ensures
            r == ToolProtocol::Xml,
    {
        ToolProtocol::Xml
    }
}

/// The single effort control, from least to most.
#[derive(Debug, Clone, Copy, PartialEq, Eq, Structural)]
pub enum EffortLevel {
    Low,
    Medium,
    High,
    Max,
}

impl Default for EffortLevel {
    fn default() -> (r: Self)
        ensures
            r == EffortLevel::Medium,
    {
        EffortLevel::Medium
    }
}

/// The text an effort level is displayed and stored as.
pub open spec fn effort_text(e: EffortLevel) -> Seq<char> {
    match e {
        EffortLevel::Low => "low"@,
        EffortLevel::Medium => "medium"@,
        EffortLevel::High => "high"@,
        EffortLevel::Max => "max"@,
    }
}

/// The OpenAI reasoning effort an effort level maps to.
pub open spec fn openai_effort_text(e: EffortLevel) -> Seq<char> {
    match e {
        EffortLevel::Low => "low"@,
        EffortLevel::Medium => "medium"@,
        EffortLevel::High | EffortLevel::Max => "high"@,
    }
}

/// The effort level a (trimmed, lower-cased) name denotes.
pub open spec fn effort_from_name(name: Seq<char>) -> Option<EffortLevel> {
    if name == "low"@ {
        Some(EffortLevel::Low)
    } else if name == "medium"@ || name == "default"@ {
        Some(EffortLevel::Medium)
    } else if name == "high"@ {
        Some(EffortLevel::High)
    } else if name == "max"@ || name == "maximum"@ {
        Some(EffortLevel::Max)
    } else {
        None
    }
}

/// The effort level a text names, ignoring surrounding whitespace and ASCII case.
pub open spec fn parse_effort(value: Seq<char>) -> Option<EffortLevel> {
    effort_from_name(lower(trim(value)))
}

/// Each effort level has its own name, and parsing a level's name gives the
/// level back.
pub proof fn lemma_effort_names_round_trip(e: EffortLevel, f: EffortLevel)
    ensures
        parse_effort(effort_text(e)) == Some(e),
        e != f ==> effort_text(e) != effort_text(f),
{
    reveal_strlit("low");
    reveal_strlit("medium");
    reveal_strlit("high");
    reveal_strlit("max");
    reveal_strlit("default");
    reveal_strlit("maximum");
    let s = effort_text(e);
    assert(s[0] == s[0]);
    assert(s.last() == s[s.len() - 1]);
    assert(crate::text::trim_start(s) == s);
    assert(crate::text::trim_end(s) == s);
    assert(lower(s) =~= s);
}

/// The message for an unknown effort name.
pub open spec fn unknown_effort_message(value: Seq<char>) -> Seq<char> {
    "unknown effort level `"@ + lower(trim(value)) + "`; use low, medium, high, or max"@
}

impl EffortLevel {
    pub fn as_str(self) -> (r: &'static str)
        ensures
            r@ == effort_text(self),
    {
        match self {
            EffortLevel::Low => "low",
            EffortLevel::Medium => "medium",
            EffortLevel::High => "high",
            EffortLevel::Max => "max",
        }
    }

    pub fn openai_reasoning_effort(self) -> (r: &'static str)
        ensures
            r@ == openai_effort_text(self),
    {
        match self {
            EffortLevel::Low => "low",
            EffortLevel::Medium => "medium",
            EffortLevel::High | EffortLevel::Max => "high",
        }
    }

    /// Parses an effort level name (`low`, `medium`/`default`, `high`,
    /// `max`/`maximum`), ignoring surrounding whitespace and ASCII case.
    pub fn from_str(value: &str) -> (r: Result<EffortLevel, String>)
        ensures
            match r {
                Ok(e) => parse_effort(value@) == Some(e),
                Err(m) => parse_effort(value@) is None && m@ == unknown_effort_message(value@),
            },
    {
        let name = to_lower(&trim_chars(&chars_of(value)));
        if eq_str(&name, "low") {
            Ok(EffortLevel::Low)
        } else if eq_str(&name, "medium") || eq_str(&name, "default") {
            Ok(EffortLevel::Medium)
        } else if eq_str(&name, "high") {
            Ok(EffortLevel::High)
        } else if eq_str(&name, "max") || eq_str(&name, "maximum") {
            Ok(EffortLevel::Max)
        } else {
            let mut m = chars_of("unknown effort level `");
            push_all(&mut m, &name);
            push_str(&mut m, "`; use low, medium, high, or max");
            Err(string_of(&m))
        }
    }
}

/// One configured provider.
#[derive(Debug)]
pub struct ProviderConfig {
    pub kind: ProviderKind,
    pub api_key_env: Option<String>,
    pub base_url: Option<String>,
    pub effort: Option<EffortLevel>,
    pub reasoning_effort: Option<String>,
    pub max_output_tokens: Option<u32>,
}

pub fn clone_opt_string(s: &Option<String>) -> (r: Option<String>)
    ensures
        r == *s,
{
    match s {
        Some(v) => Some(v.clone()),
        None => None,
    }
}

impl Clone for ProviderConfig {
    fn clone(&self) -> (r: Self)
        ensures
            r == *self,
    {
        ProviderConfig {
            kind: self.kind,
            api_key_env: clone_opt_string(&self.api_key_env),
            base_url: clone_opt_string(&self.base_url),
            effort: self.effort,
            reasoning_effort: clone_opt_string(&self.reasoning_effort),
            max_output_tokens: self.max_output_tokens,
        }
    }
}

/// How the harness tunes itself for one model.
#[derive(Debug)]
pub struct ModelProfile {
    pub provider: Option<String>,
    pub supports_system: bool,
    pub prefer_think_false: bool,
    pub effort: Option<EffortLevel>,
    pub tool_protocol: ToolProtocol,
    pub max_tool_prompt_size: Option<usize>,
    pub reasoning_field: bool,
    pub context_budget: Option<usize>,
    pub notes: Option<String>,
}

impl ModelProfile {
    /// The profile used for a model that has none configured.
    pub open spec fn spec_default() -> ModelProfile {
        ModelProfile {
            provider: None,
            supports_system: true,
            prefer_think_false: false,
            effort: None,
            tool_protocol: ToolProtocol::Xml,
            max_tool_prompt_size: None,
            reasoning_field: false,
            context_budget: None,
            notes: None,
        }
    }
}

impl Default for ModelProfile {
    fn default() -> (r: Self)
        ensures
            r == ModelProfile::spec_default(),
    {
        ModelProfile {
            provider: None,
            supports_system: true,
            prefer_think_false: false,
            effort: None,
            tool_protocol: ToolProtocol::Xml,
            max_tool_prompt_size: None,
            reasoning_field: false,
            context_budget: None,
            notes: None,
        }
    }
}

impl Clone for ModelProfile {
    fn clone(&self) -> (r: Self)
        ensures
            r == *self,
    {
        ModelProfile {
            provider: clone_opt_string(&self.provider),
            supports_system: self.supports_system,
            prefer_think_false: self.prefer_think_false,
            effort: self.effort,
            tool_protocol: self.tool_protocol,
            max_tool_prompt_size: self.max_tool_prompt_size,
            reasoning_field: self.reasoning_field,
            context_budget: self.context_budget,
            notes: clone_opt_string(&self.notes),
        }
    }
}

/// A hook command and its arguments.
#[derive(Debug)]
pub struct HookCommand {
    pub command: String,
    pub args: Vec<String>,
}

/// Hooks that run before and after each tool call.
#[derive(Debug)]
pub struct HooksConfig {
    pub pre_tool: Vec<HookCommand>,
    pub post_tool: Vec<HookCommand>,
}

impl Default for HooksConfig {
    fn default() -> (r: Self)
        ensures
            r.pre_tool@.len() == 0,
            r.post_tool@.len() == 0,
    {
        HooksConfig { pre_tool: Vec::new(), post_tool: Vec::new() }
    }
}

/// How to reach one MCP server.
#[derive(Debug)]
pub enum McpServerConfig {
    Stdio { command: String, args: Vec<String> },
    Http { url: String, bearer_token_env: Option<String> },
}

/// The configured MCP servers.
#[derive(Debug)]
pub struct McpConfig {
    pub servers: NamedMap<McpServerConfig>,
}

impl Default for McpConfig {
    fn default() -> (r: Self)
        ensures
            r.servers.wf(),
            r.servers.entries@.len() == 0,
    {
        McpConfig { servers: NamedMap::new() }
    }
}

/// The whole configuration.
#[derive(Debug)]
pub struct AppConfig {
    pub default_provider: String,
    pub default_model: String,
    pub permission_profile: String,
    pub effort: EffortLevel,
    pub max_agent_turns: usize,
    pub providers: NamedMap<ProviderConfig>,
    pub model_profiles: NamedMap<ModelProfile>,
    pub mcp: McpConfig,
    pub hooks: HooksConfig,
}

/// The effort a provider configuration sets, if any: its `effort`, else its
/// legacy `reasoning_effort` when that names a level.
pub open spec fn provider_effort(p: ProviderConfig) -> Option<EffortLevel> {
    match p.effort {
        Some(e) => Some(e),
        None => match p.reasoning_effort {
            Some(t) => parse_effort(t@),
            None => None,
        },
    }
}

impl AppConfig {
    /// The maps are in key order.
    pub open spec fn wf(&self) -> bool {
        &&& self.providers.wf()
        &&& self.model_profiles.wf()
        &&& self.mcp.servers.wf()
    }

    /// Effort is resolved from the model profile, then the provider, then
    /// the global setting.
    pub open spec fn spec_resolve_effort(&self, provider: Seq<char>, model: Seq<char>) -> EffortLevel {
        match self.model_profiles.lookup(model) {
            Some(p) if p.effort is Some => p.effort->0,
            _ => match self.providers.lookup(provider) {
                Some(pc) if provider_effort(pc) is Some => provider_effort(pc)->0,
                _ => self.effort,
            },
        }
    }

    pub fn resolve_effort(&self, provider_name: &str, model_name: &str) -> (r: EffortLevel)
        requires
            self.wf(),
        ensures
            r == self.spec_resolve_effort(provider_name@, model_name@),
    {
        if let Some(profile) = self.model_profiles.get(model_name) {
            if let Some(effort) = profile.effort {
                return effort;
            }
        }
        if let Some(provider) = self.providers.get(provider_name) {
            if let Some(effort) = provider.effort {
                return effort;
            }
            if let Some(text) = &provider.reasoning_effort {
                if let Ok(effort) = EffortLevel::from_str(text.as_str()) {
                    return effort;
                }
            }
        }
        self.effort
    }
}

fn provider_config(
    kind: ProviderKind,
    api_key_env: Option<&str>,
    base_url: &str,
    effort: Option<EffortLevel>,
    max_output_tokens: u32,
) -> (r: ProviderConfig)
    ensures
        r.kind == kind,
        match api_key_env {
            Some(k) => r.api_key_env matches Some(v) && v@ == k@,
            None => r.api_key_env is None,
        },
        r.base_url matches Some(u) && u@ == base_url@,
        r.effort == effort,
        r.reasoning_effort is None,
        r.max_output_tokens == Some(max_output_tokens),
{
    ProviderConfig {
        kind,
        api_key_env: match api_key_env {
            Some(k) => Some(owned(k)),
            None => None,
        },
        base_url: Some(owned(base_url)),
        effort,
        reasoning_effort: None,
        max_output_tokens: Some(max_output_tokens),
    }
}

impl Default for AppConfig {
    /// The starter configuration: OpenAI by default, with Anthropic, a local
    /// OpenAI-compatible server and Ollama configured, and a profile for a
    /// small local model.
    fn default() -> (r: Self)
        ensures
            r.wf(),
            r.default_provider@ == "openai"@,
            r.default_model@ == "gpt-5.5"@,
            r.permission_profile@ == "ask"@,
            r.effort == EffortLevel::Medium,
            r.max_agent_turns == 8,
            r.providers.keys() == seq!["anthropic"@, "local"@, "ollama"@, "openai"@],
            r.providers.entries@[3].1.effort == Some(EffortLevel::High),
            r.providers.entries@[0].1.effort is None,
            r.providers.entries@[1].1.effort is None,
            r.providers.entries@[2].1.effort is None,
            r.providers.entries@[3].1.kind == ProviderKind::Openai,
            r.providers.entries@[0].1.kind == ProviderKind::Anthropic,
            r.providers.entries@[1].1.kind == ProviderKind::LocalOpenaiCompatible,
            r.providers.entries@[2].1.kind == ProviderKind::Ollama,
            forall|i: int| 0 <= i < 4 ==> (#[trigger] r.providers.entries@[i]).1.reasoning_effort is None,
            r.model_profiles.keys() == seq!["qwen3.5:0.8b"@],
            r.model_profiles.entries@[0].1.effort == Some(EffortLevel::Low),
            r.model_profiles.entries@[0].1.tool_protocol == ToolProtocol::SimpleJson,
            r.model_profiles.entries@[0].1.provider matches Some(p) && p@ == "ollama"@,
            r.model_profiles.entries@[0].1.context_budget == Some(4096usize),
            r.model_profiles.entries@[0].1.max_tool_prompt_size == Some(1200usize),
            !r.model_profiles.entries@[0].1.supports_system,
            r.model_profiles.entries@[0].1.prefer_think_false,
            r.model_profiles.entries@[0].1.reasoning_field,
            r.model_profiles.entries@[0].1.notes matches Some(n) && n@
                == "Small local model profile optimized for short prompts."@,
            r.providers.entries@[0].1.api_key_env matches Some(k) && k@ == "ANTHROPIC_API_KEY"@,
            r.providers.entries@[0].1.base_url matches Some(u) && u@ == "https://api.anthropic.com/v1"@,
            r.providers.entries@[0].1.max_output_tokens == Some(8192u32),
            r.providers.entries@[1].1.api_key_env is None,
            r.providers.entries@[1].1.base_url matches Some(u) && u@ == "http://localhost:11434/v1"@,
            r.providers.entries@[1].1.max_output_tokens == Some(4096u32),
            r.providers.entries@[2].1.api_key_env is None,
            r.providers.entries@[2].1.base_url matches Some(u) && u@ == "http://localhost:11434"@,
            r.providers.entries@[2].1.max_output_tokens == Some(1024u32),
            r.providers.entries@[3].1.api_key_env matches Some(k) && k@ == "OPENAI_API_KEY"@,
            r.providers.entries@[3].1.base_url matches Some(u) && u@ == "https://api.openai.com/v1"@,
            r.providers.entries@[3].1.max_output_tokens == Some(8192u32),
            r.mcp.servers.entries@.len() == 0,
            r.hooks.pre_tool@.len() == 0,
            r.hooks.post_tool@.len() == 0,
    {
        let mut providers: Vec<(String, ProviderConfig)> = Vec::new();
        providers.push(
            (
                owned("anthropic"),
                provider_config(
                    ProviderKind::Anthropic,
                    Some("ANTHROPIC_API_KEY"),
                    "https://api.anthropic.com/v1",
                    None,
                    8192,
                ),
            ),
        );
        providers.push(
            (
                owned("local"),
                provider_config(
                    ProviderKind::LocalOpenaiCompatible,
                    None,
                    "http://localhost:11434/v1",
                    None,
                    4096,
                ),
            ),
        );
        providers.push(
            (
                owned("ollama"),
                provider_config(ProviderKind::Ollama, None, "http://localhost:11434", None, 1024),
            ),
        );
        providers.push(
            (
                owned("openai"),
                provider_config(
                    ProviderKind::Openai,
                    Some("OPENAI_API_KEY"),
                    "https://api.openai.com/v1",
                    Some(EffortLevel::High),
                    8192,
                ),
            ),
        );
        let mut profiles: Vec<(String, ModelProfile)> = Vec::new();
        profiles.push(
            (
                owned("qwen3.5:0.8b"),
                ModelProfile {
                    provider: Some(owned("ollama")),
                    supports_system: false,
                    prefer_think_false: true,
                    effort: Some(EffortLevel::Low),
                    tool_protocol: ToolProtocol::SimpleJson,
                    max_tool_prompt_size: Some(1200),
                    reasoning_field: true,
                    context_budget: Some(4096),
                    notes: Some(owned("Small local model profile optimized for short prompts.")),
                },
            ),
        );
        let r = AppConfig {
            default_provider: owned("openai"),
            default_model: owned("gpt-5.5"),
            permission_profile: owned("ask"),
            effort: EffortLevel::Medium,
            max_agent_turns: 8,
            providers: NamedMap { entries: providers },
            model_profiles: NamedMap { entries: profiles },
            mcp: McpConfig::default(),
            hooks: HooksConfig::default(),
        };
        proof {
            reveal_strlit("anthropic");
            reveal_strlit("local");
            reveal_strlit("ollama");
            reveal_strlit("openai");
            reveal_with_fuel(text_lt, 3);
            assert(text_lt("anthropic"@, "local"@));
            assert(text_lt("local"@, "ollama"@));
            assert(text_lt("ollama"@, "openai"@)) by {
                reveal_with_fuel(text_lt, 3);
            }
            crate::map::lemma_text_lt_transitive("anthropic"@, "local"@, "ollama"@);
            crate::map::lemma_text_lt_transitive("anthropic"@, "ollama"@, "openai"@);
            crate::map::lemma_text_lt_transitive("local"@, "ollama"@, "openai"@);
            assert(r.providers.keys() =~= seq!["anthropic"@, "local"@, "ollama"@, "openai"@]);
            assert(r.model_profiles.keys() =~= seq!["qwen3.5:0.8b"@]);
        }
        r
    }
}

/// What the configuration's location depends on: the platform and the
/// environment variables that name the user's directories.
#[derive(Debug)]
pub struct PathEnv {
    pub windows: bool,
    pub home: Option<String>,
    pub appdata: Option<String>,
    pub username: Option<String>,
    pub user: Option<String>,
}

/// A separator of the platform's paths.
pub open spec fn is_separator(c: char, windows: bool) -> bool {
    c == '/' || (windows && c == '\\')
}

/// A path that starts with a drive letter and a colon (`C:`).
pub open spec fn has_drive(p: Seq<char>) -> bool {
    p.len() >= 2 && (('a' <= p[0] && p[0] <= 'z') || ('A' <= p[0] && p[0] <= 'Z')) && p[1] == ':'
}

/// A Windows path that starts with two separators (`\\server\share`,
/// `\\?\..`, `\\.\..`).
pub open spec fn starts_unc(p: Seq<char>) -> bool {
    p.len() >= 2 && is_separator(p[0], true) && is_separator(p[1], true)
}

/// A Windows path with a prefix: a drive, or two leading separators.
pub open spec fn has_prefix(p: Seq<char>) -> bool {
    has_drive(p) || starts_unc(p)
}

/// The first index at or after `i` that holds a Windows separator, or the
/// length.
pub open spec fn separator_from(p: Seq<char>, i: int) -> int
    decreases p.len() - i,
{
    if i >= p.len() {
        p.len() as int
    } else if is_separator(p[i], true) {
        i
    } else {
        separator_from(p, i + 1)
    }
}

/// The length of a Windows path's prefix: two for a drive; for two leading
/// separators, up to the separator that ends the second component after
/// them (`\\server\share`); none otherwise.
pub open spec fn prefix_len(p: Seq<char>) -> int {
    if has_drive(p) {
        2
    } else if starts_unc(p) {
        let i = separator_from(p, 2);
        if i >= p.len() {
            p.len() as int
        } else {
            separator_from(p, i + 1)
        }
    } else {
        0
    }
}

/// Whether joining a relative segment to `base` puts a separator between
/// them: `base` is not empty, does not end in a separator, and is not a bare
/// drive (`C:`).
pub open spec fn needs_separator(base: Seq<char>, windows: bool) -> bool {
    base.len() > 0 && !is_separator(base.last(), windows) && !(windows && base.len() == 2 && has_drive(base))
}

/// `base.join(segment)` as `PathBuf::push` does it. On Unix an absolute
/// segment (one that starts with `/`) replaces `base`. On Windows a segment
/// with a prefix replaces `base`, and a segment with a root but no prefix
/// keeps only `base`'s prefix. Otherwise the segment follows `base`, after
/// the platform's separator where [`needs_separator`] says so.
pub open spec fn join_path(base: Seq<char>, segment: Seq<char>, windows: bool) -> Seq<char> {
    if windows && has_prefix(segment) {
        segment
    } else if segment.len() > 0 && is_separator(segment[0], windows) {
        if windows {
            base.take(prefix_len(base)) + segment
        } else {
            segment
        }
    } else if needs_separator(base, windows) {
        base + (if windows {
            seq!['\\']
        } else {
            seq!['/']
        }) + segment
    } else {
        base + segment
    }
}

fn is_separator_exec(c: char, windows: bool) -> (r: bool)
    ensures
        r == is_separator(c, windows),
{
    c == '/' || (windows && c == '\\')
}

fn has_drive_exec(p: &Vec<char>) -> (r: bool)
    ensures
        r == has_drive(p@),
{
    p.len() >= 2 && (('a' <= p[0] && p[0] <= 'z') || ('A' <= p[0] && p[0] <= 'Z')) && p[1] == ':'
}

fn separator_from_exec(p: &Vec<char>, i: usize) -> (r: usize)
    requires
        i <= p@.len(),
    ensures
        r == separator_from(p@, i as int),
        i <= r <= p@.len(),
    decreases p@.len() - i,
{
    if i >= p.len() {
        p.len()
    } else if is_separator_exec(p[i], true) {
        i
    } else {
        separator_from_exec(p, i + 1)
    }
}

fn prefix_len_exec(p: &Vec<char>) -> (r: usize)
    ensures
        r == prefix_len(p@),
        r <= p@.len(),
{
    if has_drive_exec(p) {
        2
    } else if p.len() >= 2 && is_separator_exec(p[0], true) && is_separator_exec(p[1], true) {
        let i = separator_from_exec(p, 2);
        if i >= p.len() {
            p.len()
        } else {
            separator_from_exec(p, i + 1)
        }
    } else {
        0
    }
}

pub fn join_path_exec(base: &Vec<char>, segment: &str, windows: bool) -> (r: Vec<char>)
    ensures
        r@ == join_path(base@, segment@, windows),
{
    let seg = chars_of(segment);
    if windows && (has_drive_exec(&seg) || (seg.len() >= 2 && is_separator_exec(seg[0], true)
        && is_separator_exec(seg[1], true))) {
        return seg;
    }
    if seg.len() > 0 && is_separator_exec(seg[0], windows) {
        if windows {
            let n = prefix_len_exec(base);
            let mut out = crate::text::slice_chars(base, 0, n);
            assert(out@ =~= base@.take(n as int));
            crate::text::push_all(&mut out, &seg);
            return out;
        } else {
            return seg;
        }
    }
    let mut out = base.clone();
    assert(out@ == base@);
    if base.len() > 0 && !is_separator_exec(base[base.len() - 1], windows) && !(windows && base.len() == 2
        && has_drive_exec(base)) {
        out.push(if windows {
            '\\'
        } else {
            '/'
        });
    }
    crate::text::push_all(&mut out, &seg);
    out
}

/// The user name segment of Windows paths: `USERNAME`, else `USER`, else
/// `username`.
pub open spec fn username_segment(env: PathEnv) -> Seq<char> {
    match env.username {
        Some(u) => u@,
        None => match env.user {
            Some(u) => u@,
            None => "username"@,
        },
    }
}

/// The directory of the configuration: `%APPDATA%\<user>\ClaudeCodeX` on Windows,
/// `$HOME/.config/ClaudeCodeX` elsewhere.
pub open spec fn config_root(env: PathEnv) -> Result<Seq<char>, Seq<char>> {
    if env.windows {
        match env.appdata {
            Some(a) => Ok(join_path(join_path(a@, username_segment(env), true), "ClaudeCodeX"@, true)),
            None => Err("APPDATA is not set"@),
        }
    } else {
        match env.home {
            Some(h) => Ok(join_path(join_path(h@, ".config"@, false), "ClaudeCodeX"@, false)),
            None => Err("HOME is not set"@),
        }
    }
}

/// The directory of sessions and skills: `%APPDATA%\<user>\ClaudeCodeX\data` on
/// Windows, `$HOME/.local/share/ClaudeCodeX` elsewhere.
pub open spec fn data_root(env: PathEnv) -> Result<Seq<char>, Seq<char>> {
    if env.windows {
        match env.appdata {
            Some(a) => Ok(
                join_path(join_path(join_path(a@, username_segment(env), true), "ClaudeCodeX"@, true), "data"@, true),
            ),
            None => Err("APPDATA is not set"@),
        }
    } else {
        match env.home {
            Some(h) => Ok(
                join_path(join_path(join_path(h@, ".local"@, false), "share"@, false), "ClaudeCodeX"@, false),
            ),
            None => Err("HOME is not set"@),
        }
    }
}

pub open spec fn text_result(r: Result<String, String>) -> Result<Seq<char>, Seq<char>> {
    match r {
        Ok(s) => Ok(s@),
        Err(e) => Err(e@),
    }
}

fn username_exec(env: &PathEnv) -> (r: String)
    ensures
        r@ == username_segment(*env),
{
    match &env.username {
        Some(u) => u.clone(),
        None => match &env.user {
            Some(u) => u.clone(),
            None => owned("username"),
        },
    }
}

fn config_root_exec(env: &PathEnv) -> (r: Result<Vec<char>, String>)
    ensures
        match r {
            Ok(v) => config_root(*env) == Ok::<Seq<char>, Seq<char>>(v@),
            Err(e) => config_root(*env) == Err::<Seq<char>, Seq<char>>(e@),
        },
{
    if env.windows {
        match &env.appdata {
            Some(a) => {
                let u = username_exec(env);
                let base = join_path_exec(&chars_of(a.as_str()), u.as_str(), true);
                Ok(join_path_exec(&base, "ClaudeCodeX", true))
            },
            None => Err(owned("APPDATA is not set")),
        }
    } else {
        match &env.home {
            Some(h) => {
                let base = join_path_exec(&chars_of(h.as_str()), ".config", false);
                Ok(join_path_exec(&base, "ClaudeCodeX", false))
            },
            None => Err(owned("HOME is not set")),
        }
    }
}

impl AppConfig {
    /// Where the configuration file is: `config.toml` in [`config_root`].
    pub fn config_path(env: &PathEnv) -> (r: Result<String, String>)
        ensures
            text_result(r) == match config_root(*env) {
                Ok(root) => Ok(join_path(root, "config.toml"@, env.windows)),
                Err(e) => Err(e),
            },
    {
        match config_root_exec(env) {
            Ok(root) => Ok(string_of(&join_path_exec(&root, "config.toml", env.windows))),
            Err(e) => Err(e),
        }
    }

    /// Where sessions and skills are kept: [`data_root`].
    pub fn data_dir(env: &PathEnv) -> (r: Result<String, String>)
        ensures
            text_result(r) == data_root(*env),
    {
        if env.windows {
            match &env.appdata {
                Some(a) => {
                    let u = username_exec(env);
                    let base = join_path_exec(&chars_of(a.as_str()), u.as_str(), true);
                    let base = join_path_exec(&base, "ClaudeCodeX", true);
                    Ok(string_of(&join_path_exec(&base, "data", true)))
                },
                None => Err(owned("APPDATA is not set")),
            }
        } else {
            match &env.home {
                Some(h) => {
                    let base = join_path_exec(&chars_of(h.as_str()), ".local", false);
                    let base = join_path_exec(&base, "share", false);
                    Ok(string_of(&join_path_exec(&base, "ClaudeCodeX", false)))
                },
                None => Err(owned("HOME is not set")),
            }
        }
    }
}

} // verus!
