//! Model providers as data: kinds, addresses, messages and model profiles.
use vstd::prelude::*;
use crate::text::str_eq;
use crate::text::str_contains;
use crate::text::contains;
use crate::text::concat2;
use crate::text::to_owned_string;
use crate::text::trim_str;
use crate::text::trim;
use crate::text::has_prefix;
use crate::text::starts_with_str;
use crate::text::to_lowercase;
use crate::text::lowercase;

verus! {

/// A local model server.
#[derive(Debug, Clone, Copy, PartialEq, Eq, Structural)]
pub enum ProviderKind {
    Ollama,
    LmStudio,
}

impl Default for ProviderKind {
    fn default() -> (r: Self)
        ensures
            r == ProviderKind::Ollama,
    {
        ProviderKind::Ollama
    }
}

/// The address a provider listens on when nothing else is said.
pub open spec fn default_url_of(k: ProviderKind) -> Seq<char> {
    match k {
        ProviderKind::Ollama => "http://localhost:11434"@,
        ProviderKind::LmStudio => "http://localhost:1234"@,
    }
}

/// Host addresses that the environment gives: `OLLAMA_HOST` and
/// `LM_STUDIO_HOST`, where set.
#[derive(Debug, Clone)]
pub struct HostEnv {
    pub ollama_host: Option<String>,
    pub lm_studio_host: Option<String>,
}

/// The environment's address for a provider, if set.
pub open spec fn env_host(env: HostEnv, k: ProviderKind) -> Option<Seq<char>> {
    match k {
        ProviderKind::Ollama => match env.ollama_host {
            Some(h) => Some(h@),
            None => None,
        },
        ProviderKind::LmStudio => match env.lm_studio_host {
            Some(h) => Some(h@),
            None => None,
        },
    }
}

/// An address with surrounding whitespace removed and `http://` put in front
/// unless it names `http://` or `https://` already; empty stays empty.
pub open spec fn normalized(url: Seq<char>) -> Seq<char> {
    let t = trim(url);
    if t.len() == 0 {
        Seq::empty()
    } else if has_prefix(t, "http://"@) || has_prefix(t, "https://"@) {
        t
    } else {
        "http://"@ + t
    }
}

/// The address to use: an explicit address other than the default wins;
/// then the environment's; then an explicit address (the default itself);
/// then the default.
pub open spec fn resolved_url(k: ProviderKind, custom: Option<Seq<char>>, env: HostEnv) -> Seq<char> {
    if custom is Some && trim(custom->0).len() != 0 && trim(custom->0) != default_url_of(k) {
        normalized(trim(custom->0))
    } else if env_host(env, k) is Some && trim(env_host(env, k)->0).len() != 0 {
        normalized(env_host(env, k)->0)
    } else if custom is Some && trim(custom->0).len() != 0 {
        normalized(trim(custom->0))
    } else {
        default_url_of(k)
    }
}

impl ProviderKind {
    /// The provider's name in configuration files.
    pub fn as_str(&self) -> (r: &'static str)
        ensures
            r@ == match *self {
                ProviderKind::Ollama => "ollama"@,
                ProviderKind::LmStudio => "lmstudio"@,
            },
    {
        match self {
            ProviderKind::Ollama => "ollama",
            ProviderKind::LmStudio => "lmstudio",
        }
    }

    /// The address the provider listens on by default.
    pub fn default_base_url(&self) -> (r: &'static str)
        ensures
            r@ == default_url_of(*self),
    {
        match self {
            ProviderKind::Ollama => "http://localhost:11434",
            ProviderKind::LmStudio => "http://localhost:1234",
        }
    }

    /// The provider's name for people.
    pub fn display_name(&self) -> (r: &'static str)
        ensures
            r@ == match *self {
                ProviderKind::Ollama => "Ollama"@,
                ProviderKind::LmStudio => "LM Studio"@,
            },
    {
        match self {
            ProviderKind::Ollama => "Ollama",
            ProviderKind::LmStudio => "LM Studio",
        }
    }

    /// The base address to talk to, from an explicit address and the
    /// environment's host variables (see `resolved_url`).
    pub fn resolve_base_url(&self, custom_url: Option<&str>, env: &HostEnv) -> (r: String)
        ensures
            r@ == resolved_url(
                *self,
                match custom_url {
                    Some(u) => Some(u@),
                    None => None,
                },
                *env,
            ),
    {
        if let Some(url) = custom_url {
            let trimmed = trim_str(url);
            if trimmed.unicode_len() != 0 && !str_eq(trimmed, self.default_base_url()) {
                return normalize_url(trimmed);
            }
        }
        let host = match self {
            ProviderKind::Ollama => &env.ollama_host,
            ProviderKind::LmStudio => &env.lm_studio_host,
        };
        if let Some(h) = host {
            if trim_str(h.as_str()).unicode_len() != 0 {
                return normalize_url(h.as_str());
            }
        }
        if let Some(url) = custom_url {
            let trimmed = trim_str(url);
            if trimmed.unicode_len() != 0 {
                return normalize_url(trimmed);
            }
        }
        to_owned_string(self.default_base_url())
    }
}

/// Trims an address and puts `http://` in front unless it has a scheme (see `normalized`).
pub fn normalize_url(url: &str) -> (r: String)
    ensures
        r@ == normalized(url@),
{
    let trimmed = trim_str(url);
    if trimmed.unicode_len() == 0 {
        return String::new();
    }
    if starts_with_str(trimmed, "http://") || starts_with_str(trimmed, "https://") {
        to_owned_string(trimmed)
    } else {
        concat2("http://", trimmed)
    }
}

/// Which provider to use, where, with which model.
#[derive(Debug, Clone)]
pub struct ProviderConfig {
    pub kind: ProviderKind,
    pub base_url: String,
    pub model: String,
}

impl Default for ProviderConfig {
    fn default() -> (r: Self)
        ensures
            r.kind == ProviderKind::Ollama,
            r.base_url@ == "http://localhost:11434"@,
            r.model@ == "qwen2.5-coder:7b"@,
    {
        ProviderConfig {
            kind: ProviderKind::Ollama,
            base_url: to_owned_string("http://localhost:11434"),
            model: to_owned_string("qwen2.5-coder:7b"),
        }
    }
}

impl ProviderConfig {
    /// A configuration from its three parts.
    pub fn new(kind: ProviderKind, base_url: String, model: String) -> (r: Self)
        ensures
            r.kind == kind,
            r.base_url == base_url,
            r.model == model,
    {
        ProviderConfig { kind, base_url, model }
    }
}

/// One message of a chat: who says it, and what.
#[derive(Debug, Clone)]
pub struct ChatMessage {
    pub role: String,
    pub content: String,
}

impl ChatMessage {
    /// A message from the user.
    pub fn user(content: &str) -> (r: Self)
        ensures
            r.role@ == "user"@,
            r.content@ == content@,
    {
        ChatMessage { role: to_owned_string("user"), content: to_owned_string(content) }
    }

    /// A message from the assistant.
    pub fn assistant(content: &str) -> (r: Self)
        ensures
            r.role@ == "assistant"@,
            r.content@ == content@,
    {
        ChatMessage { role: to_owned_string("assistant"), content: to_owned_string(content) }
    }

    /// A system message.
    pub fn system(content: &str) -> (r: Self)
        ensures
            r.role@ == "system"@,
            r.content@ == content@,
    {
        ChatMessage { role: to_owned_string("system"), content: to_owned_string(content) }
    }
}

/// A piece of a streamed reply.
#[derive(Debug, Clone)]
pub struct StreamChunk {
    pub content_delta: String,
    pub done: bool,
    pub prompt_tokens: u32,
    pub completion_tokens: u32,
}

/// A model that a provider offers.
#[derive(Debug, Clone)]
pub struct ModelInfo {
    pub name: String,
    pub size_bytes: Option<u64>,
}

/// What is assumed of a model from its name.
#[derive(Debug, Clone)]
pub struct ModelProfile {
    pub name: String,
    pub context_window: u32,
    pub supports_tools: bool,
}

/// Context window and tool support guessed from a lower-cased model name.
pub open spec fn profile_of(lower: Seq<char>) -> (u32, bool) {
    if contains(lower, "qwen2.5-coder"@) || contains(lower, "deepseek-coder"@) {
        (32768, true)
    } else if contains(lower, "qwen"@) || contains(lower, "deepseek"@) {
        (32768, false)
    } else if contains(lower, "llama3"@) || contains(lower, "llama-3"@) {
        (8192, false)
    } else if contains(lower, "mistral"@) || contains(lower, "mixtral"@) {
        (32768, false)
    } else if contains(lower, "codellama"@) {
        (16384, false)
    } else if contains(lower, "phi"@) {
        (4096, false)
    } else {
        (8192, false)
    }
}

impl ModelProfile {
    /// The profile guessed from a model's name (see `profile_of`).
    pub fn infer(name: &str) -> (r: Self)
        ensures
            r.name@ == name@,
            (r.context_window, r.supports_tools) == profile_of(lowercase(name@)),
    {
        let lower = to_lowercase(name);
        let l = lower.as_str();
        let (context_window, supports_tools) = if str_contains(l, "qwen2.5-coder") || str_contains(l, "deepseek-coder") {
            (32768u32, true)
        } else if str_contains(l, "qwen") || str_contains(l, "deepseek") {
            (32768u32, false)
        } else if str_contains(l, "llama3") || str_contains(l, "llama-3") {
            (8192u32, false)
        } else if str_contains(l, "mistral") || str_contains(l, "mixtral") {
            (32768u32, false)
        } else if str_contains(l, "codellama") {
            (16384u32, false)
        } else if str_contains(l, "phi") {
            (4096u32, false)
        } else {
            (8192u32, false)
        };
        ModelProfile { name: to_owned_string(name), context_window, supports_tools }
    }
}

} // verus!
