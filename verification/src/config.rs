//! The agent's settings, their defaults, and how overrides apply.
use vstd::prelude::*;
use crate::text::to_owned_string;
use crate::text::to_lowercase;
use crate::text::lowercase;
use crate::text::chars_of;
use crate::text::string_from_chars;
use crate::text::str_eq;
use crate::paths::path_join;
use crate::paths::joined;
use crate::provider::ProviderKind;
use crate::provider::ProviderConfig;
use crate::provider::HostEnv;
use crate::provider::resolved_url;

verus! {

/// The settings of one repository (`.shrimp/config.toml`, every field optional).
#[derive(Debug, Clone)]
pub struct ShrimpConfig {
    pub repo_root: String,
    pub provider: ProviderKind,
    pub base_url: String,
    pub model: String,
    pub auto_approve: bool,
    pub max_context_tokens: usize,
}

/// The repository root when none is given.
pub fn default_repo_root() -> (r: String)
    ensures
        r@ == "."@,
{
    to_owned_string(".")
}

/// The provider when none is configured.
pub fn default_provider() -> (r: ProviderKind)
    ensures
        r == ProviderKind::Ollama,
{
    ProviderKind::Ollama
}

/// The base address when none is configured: empty, to be resolved.
pub fn default_base_url() -> (r: String)
    ensures
        r@ == Seq::<char>::empty(),
{
    String::new()
}

/// The model when none is configured.
pub fn default_model() -> (r: String)
    ensures
        r@ == "qwen2.5-coder:7b"@,
{
    to_owned_string("qwen2.5-coder:7b")
}

/// Whether edits are approved without asking, when not configured.
pub fn default_auto_approve() -> (r: bool)
    ensures
        r == true,
{
    true
}

/// The prompt budget when none is configured.
pub fn default_max_context_tokens() -> (r: usize)
    ensures
        r == 8192,
{
    8192
}

/// The settings as they are written, before the address is resolved.
pub struct ConfigFile {
    pub provider: Option<ProviderKind>,
    pub base_url: Option<String>,
    pub model: Option<String>,
    pub auto_approve: Option<bool>,
    pub max_context_tokens: Option<usize>,
}

impl ShrimpConfig {
    /// The default settings for a repository: Ollama with its resolved
    /// address, the default model, auto-approval, 8192 tokens.
    pub fn defaults(repo_root: String, env: &HostEnv) -> (r: Self)
        ensures
            r.repo_root == repo_root,
            r.provider == ProviderKind::Ollama,
            r.base_url@ == resolved_url(ProviderKind::Ollama, None, *env),
            r.model@ == "qwen2.5-coder:7b"@,
            r.auto_approve == true,
            r.max_context_tokens == 8192,
    {
        let provider = ProviderKind::Ollama;
        let base_url = provider.resolve_base_url(None, env);
        ShrimpConfig {
            repo_root,
            provider,
            base_url,
            model: default_model(),
            auto_approve: default_auto_approve(),
            max_context_tokens: default_max_context_tokens(),
        }
    }

    /// The settings of a repository from what its configuration file held
    /// (`None` when it could not be read or parsed): missing fields take
    /// their defaults, and the address is resolved for the provider — an
    /// empty one as if none were given.
    pub fn from_file(repo_root: String, file: Option<ConfigFile>, env: &HostEnv) -> (r: Self)
        ensures
            r.repo_root == repo_root,
            file is None ==> {
                &&& r.provider == ProviderKind::Ollama
                &&& r.model@ == "qwen2.5-coder:7b"@
                &&& r.auto_approve
                &&& r.max_context_tokens == 8192
                &&& r.base_url@ == resolved_url(ProviderKind::Ollama, None, *env)
            },
            file matches Some(f) ==> {
                &&& r.provider == (match f.provider { Some(p) => p, None => ProviderKind::Ollama })
                &&& r.model@ == (match f.model { Some(m) => m@, None => "qwen2.5-coder:7b"@ })
                &&& r.auto_approve == (match f.auto_approve { Some(a) => a, None => true })
                &&& r.max_context_tokens == (match f.max_context_tokens { Some(m) => m, None => 8192 })
                &&& r.base_url@ == (match f.base_url {
                    Some(u) => if u@.len() == 0 { resolved_url(r.provider, None, *env) } else { resolved_url(r.provider, Some(u@), *env) },
                    None => resolved_url(r.provider, None, *env),
                })
            },
    {
        let mut cfg = match file {
            Some(f) => ShrimpConfig {
                repo_root,
                provider: match f.provider {
                    Some(p) => p,
                    None => default_provider(),
                },
                base_url: match f.base_url {
                    Some(u) => u,
                    None => default_base_url(),
                },
                model: match f.model {
                    Some(m) => m,
                    None => default_model(),
                },
                auto_approve: match f.auto_approve {
                    Some(a) => a,
                    None => default_auto_approve(),
                },
                max_context_tokens: match f.max_context_tokens {
                    Some(m) => m,
                    None => default_max_context_tokens(),
                },
            },
            None => ShrimpConfig::defaults(repo_root, env),
        };
        proof {
            crate::laws::law_resolved_address_is_stable(ProviderKind::Ollama, *env);
        }
        if cfg.base_url.as_str().unicode_len() == 0 {
            cfg.base_url = cfg.provider.resolve_base_url(None, env);
        } else {
            let current = cfg.base_url.clone();
            cfg.base_url = cfg.provider.resolve_base_url(Some(current.as_str()), env);
        }
        cfg
    }

    /// The provider settings that these settings name.
    pub fn provider_config(&self) -> (r: ProviderConfig)
        ensures
            r.kind == self.provider,
            r.base_url@ == self.base_url@,
            r.model@ == self.model@,
    {
        ProviderConfig::new(self.provider, self.base_url.clone(), self.model.clone())
    }

    /// Where the code index lives: `<repo>/.shrimp/index`.
    pub fn index_dir(&self) -> (r: String)
        ensures
            r@ == joined(joined(self.repo_root@, ".shrimp"@), "index"@),
    {
        let d = path_join(self.repo_root.as_str(), ".shrimp");
        path_join(d.as_str(), "index")
    }

    /// Where sessions are saved: `<repo>/.shrimp/sessions`.
    pub fn sessions_dir(&self) -> (r: String)
        ensures
            r@ == joined(joined(self.repo_root@, ".shrimp"@), "sessions"@),
    {
        let d = path_join(self.repo_root.as_str(), ".shrimp");
        path_join(d.as_str(), "sessions")
    }

    /// Where file snapshots are kept: `<repo>/.shrimp/snapshots`.
    pub fn snapshots_dir(&self) -> (r: String)
        ensures
            r@ == joined(joined(self.repo_root@, ".shrimp"@), "snapshots"@),
    {
        let d = path_join(self.repo_root.as_str(), ".shrimp");
        path_join(d.as_str(), "snapshots")
    }
}

/// The provider that a command-line name means: `lmstudio` or `lm_studio`
/// (any case, `-` read as `_`) is LM Studio, anything else Ollama.
pub open spec fn provider_named(lower: Seq<char>) -> ProviderKind {
    let n = Seq::new(lower.len(), |i: int| if lower[i] == '-' { '_' } else { lower[i] });
    if n == "lmstudio"@ || n == "lm_studio"@ {
        ProviderKind::LmStudio
    } else {
        ProviderKind::Ollama
    }
}

/// The provider that a command-line name means (see `provider_named`).
pub fn parse_provider(s: &str) -> (r: ProviderKind)
    ensures
        r == provider_named(lowercase(s@)),
{
    let lower = to_lowercase(s);
    let v = chars_of(lower.as_str());
    let mut w: Vec<char> = Vec::new();
    let mut i: usize = 0;
    while i < v.len()
        invariant
            0 <= i <= v.len(),
            w@ == Seq::new(i as nat, |k: int| if v@[k] == '-' { '_' } else { v@[k] }),
        decreases v.len() - i,
    {
        if v[i] == '-' {
            w.push('_');
        } else {
            w.push(v[i]);
        }
        assert(w@ =~= Seq::new((i + 1) as nat, |k: int| if v@[k] == '-' { '_' } else { v@[k] }));
        i = i + 1;
    }
    let n = string_from_chars(&w);
    assert(w@ =~= Seq::new(lower@.len(), |k: int| if lower@[k] == '-' { '_' } else { lower@[k] }));
    if str_eq(n.as_str(), "lmstudio") || str_eq(n.as_str(), "lm_studio") {
        ProviderKind::LmStudio
    } else {
        ProviderKind::Ollama
    }
}

/// What the command line sets: provider name, model, base address.
pub struct CliOverrides {
    pub provider: Option<String>,
    pub model: Option<String>,
    pub base_url: Option<String>,
}

/// Applies command-line settings: a provider name sets the provider, a model
/// the model; an address is resolved for the (new) provider, and without one
/// a changed provider gets its own resolved address.
pub fn apply_overrides(cfg: &mut ShrimpConfig, cli: &CliOverrides, env: &HostEnv)
    ensures
        final(cfg).provider == (match cli.provider {
            Some(p) => provider_named(lowercase(p@)),
            None => old(cfg).provider,
        }),
        final(cfg).model@ == (match cli.model {
            Some(m) => m@,
            None => old(cfg).model@,
        }),
        final(cfg).base_url@ == (match cli.base_url {
            Some(u) => resolved_url(final(cfg).provider, Some(u@), *env),
            None => if final(cfg).provider != old(cfg).provider {
                resolved_url(final(cfg).provider, None, *env)
            } else {
                old(cfg).base_url@
            },
        }),
        final(cfg).repo_root == old(cfg).repo_root,
        final(cfg).auto_approve == old(cfg).auto_approve,
        final(cfg).max_context_tokens == old(cfg).max_context_tokens,
{
    let old_provider = cfg.provider;
    if let Some(p) = &cli.provider {
        cfg.provider = parse_provider(p.as_str());
    }
    if let Some(m) = &cli.model {
        cfg.model = m.clone();
    }
    if let Some(u) = &cli.base_url {
        cfg.base_url = cfg.provider.resolve_base_url(Some(u.as_str()), env);
    } else if cfg.provider != old_provider {
        cfg.base_url = cfg.provider.resolve_base_url(None, env);
    }
}

} // verus!
