//! Configuration: the providers, their models, and the arguments of the proxy command.
use vstd::prelude::*;

use crate::json::opt_string;
use crate::proxy::ProxyConfig;
use crate::text::{same_text, texts};

verus! {

// ── providers ─────────────────────────────────────────────────────────

/// The providers by name. No name occurs twice.
#[derive(Debug)]
pub struct SpawnerConfig {
    pub providers: Vec<(String, ProviderConfig)>,
}

#[derive(Debug)]
pub struct ProviderConfig {
    pub base_url: String,
    pub proxy_url: String,
    pub api_key: String,
    pub wire_api: String,
    pub models: Vec<ModelConfig>,
}

#[derive(Debug)]
pub struct ModelConfig {
    pub slug: String,
    pub context_window: i64,
}

pub fn default_wire_api() -> (wire_api: String)
    ensures
        wire_api@ == "responses"@,
{
    "responses".to_owned()
}

/// The provider with this name.
pub open spec fn provider_named(
    providers: Seq<(String, ProviderConfig)>,
    name: Seq<char>,
) -> Option<ProviderConfig>
    decreases providers.len(),
{
    if providers.len() == 0 {
        None
    } else if providers[0].0@ == name {
        Some(providers[0].1)
    } else {
        provider_named(providers.drop_first(), name)
    }
}

/// Whether no name occurs twice.
pub open spec fn distinct_names(providers: Seq<(String, ProviderConfig)>) -> bool {
    forall|i: int, k: int|
        0 <= i < k < providers.len() ==> (#[trigger] providers[i]).0@ != (
        #[trigger] providers[k]).0@
}

impl SpawnerConfig {
    pub fn provider(&self, name: &str) -> (found: Option<&ProviderConfig>)
        ensures
            match found {
                Some(provider) => provider_named(self.providers@, name@) == Some(*provider),
                None => provider_named(self.providers@, name@) == None::<ProviderConfig>,
            },
    {
        let ghost all = self.providers@;
        let mut i: usize = 0;
        assert(all.skip(0) =~= all);
        while i < self.providers.len()
            invariant
                i <= self.providers@.len(),
                all == self.providers@,
                provider_named(all, name@) == provider_named(all.skip(i as int), name@),
            decreases self.providers@.len() - i,
        {
            if same_text(self.providers[i].0.as_str(), name) {
                return Some(&self.providers[i].1);
            }
            assert(all.skip(i as int).drop_first() =~= all.skip(i + 1));
            i += 1;
        }
        None
    }
}

/// Where no name occurs twice, every provider is found under its name, in whatever order they
/// stand.
pub proof fn law_every_provider_is_found(providers: Seq<(String, ProviderConfig)>, i: int)
    requires
        distinct_names(providers),
        0 <= i < providers.len(),
    ensures
        provider_named(providers, providers[i].0@) == Some(providers[i].1),
    decreases providers.len(),
{
    if i > 0 {
        assert(providers[0].0@ != providers[i].0@);
        let rest = providers.drop_first();
        assert forall|a: int, b: int| 0 <= a < b < rest.len() implies (#[trigger] rest[a]).0@ != (
        #[trigger] rest[b]).0@ by {
            assert(rest[a] == providers[a + 1] && rest[b] == providers[b + 1]);
        }
        law_every_provider_is_found(rest, i - 1);
    }
}

// ── models ────────────────────────────────────────────────────────────

/// The model that is meant: the one that was named, else the provider's first.
pub open spec fn wanted_model(model: Option<Seq<char>>, models: Seq<ModelConfig>) -> Seq<char> {
    match model {
        Some(slug) => slug,
        None => if models.len() > 0 {
            models[0].slug@
        } else {
            "unknown"@
        },
    }
}

/// The first model with this slug.
pub open spec fn model_named(models: Seq<ModelConfig>, slug: Seq<char>) -> Option<ModelConfig>
    decreases models.len(),
{
    if models.len() == 0 {
        None
    } else if models[0].slug@ == slug {
        Some(models[0])
    } else {
        model_named(models.drop_first(), slug)
    }
}

impl ProviderConfig {
    /// The slug of the model that is meant.
    pub fn model_slug<'b>(&'b self, model: &'b Option<String>) -> (slug: &'b str)
        ensures
            slug@ == wanted_model(opt_string(*model), self.models@),
    {
        match model {
            Some(slug) => slug.as_str(),
            None => if self.models.len() > 0 {
                self.models[0].slug.as_str()
            } else {
                "unknown"
            },
        }
    }

    pub fn model(&self, slug: &str) -> (found: Option<&ModelConfig>)
        ensures
            match found {
                Some(model) => model_named(self.models@, slug@) == Some(*model),
                None => model_named(self.models@, slug@) == None::<ModelConfig>,
            },
    {
        let ghost all = self.models@;
        let mut i: usize = 0;
        assert(all.skip(0) =~= all);
        while i < self.models.len()
            invariant
                i <= self.models@.len(),
                all == self.models@,
                model_named(all, slug@) == model_named(all.skip(i as int), slug@),
            decreases self.models@.len() - i,
        {
            if same_text(self.models[i].slug.as_str(), slug) {
                return Some(&self.models[i]);
            }
            assert(all.skip(i as int).drop_first() =~= all.skip(i + 1));
            i += 1;
        }
        None
    }
}

pub open spec fn unknown_provider(provider: Seq<char>) -> Seq<char> {
    "provider '"@ + provider + "' not in mcp-spawner.toml"@
}

pub open spec fn unknown_model(slug: Seq<char>, provider: Seq<char>) -> Seq<char> {
    "model '"@ + slug + "' not in provider '"@ + provider + "'"@
}

/// The provider and the model that are meant, or what is missing.
pub open spec fn selected(
    config: SpawnerConfig,
    provider: Seq<char>,
    model: Option<Seq<char>>,
) -> Result<(ProviderConfig, ModelConfig), Seq<char>> {
    match provider_named(config.providers@, provider) {
        Some(p) => match model_named(p.models@, wanted_model(model, p.models@)) {
            Some(m) => Ok((p, m)),
            None => Err(unknown_model(wanted_model(model, p.models@), provider)),
        },
        None => Err(unknown_provider(provider)),
    }
}

/// Picks the provider and the model that are meant, or says what is missing.
pub fn select<'a>(config: &'a SpawnerConfig, provider: &str, model: &Option<String>) -> (picked:
    Result<(&'a ProviderConfig, &'a ModelConfig), String>)
    ensures
        match selected(*config, provider@, opt_string(*model)) {
            Ok(found) => picked matches Ok(pair) && *pair.0 == found.0 && *pair.1 == found.1,
            Err(message) => picked matches Err(e) && e@ == message,
        },
{
    match config.provider(provider) {
        Some(p) => {
            let slug = p.model_slug(model);
            match p.model(slug) {
                Some(m) => Ok((p, m)),
                None => Err(
                    "model '".to_owned().concat(slug).concat("' not in provider '").concat(
                        provider,
                    ).concat("'"),
                ),
            }
        },
        None => Err(
            "provider '".to_owned().concat(provider).concat("' not in mcp-spawner.toml"),
        ),
    }
}

/// A model that has been selected is the provider's, and is the one that was named.
pub proof fn law_the_selected_model_is_the_one_named(
    config: SpawnerConfig,
    provider: Seq<char>,
    model: Option<Seq<char>>,
)
    requires
        selected(config, provider, model) is Ok,
    ensures
        selected(config, provider, model)->Ok_0.0.models@.contains(
            selected(config, provider, model)->Ok_0.1,
        ),
        model matches Some(slug) ==> selected(config, provider, model)->Ok_0.1.slug@ == slug,
{
    let found = selected(config, provider, model)->Ok_0;
    lemma_model_named(found.0.models@, wanted_model(model, found.0.models@));
}

pub proof fn lemma_model_named(models: Seq<ModelConfig>, slug: Seq<char>)
    requires
        model_named(models, slug) is Some,
    ensures
        model_named(models, slug)->Some_0.slug@ == slug,
        models.contains(model_named(models, slug)->Some_0),
    decreases models.len(),
{
    if models[0].slug@ == slug {
        assert(models[0] == model_named(models, slug)->Some_0);
    } else {
        let rest = models.drop_first();
        lemma_model_named(rest, slug);
        let k = choose|k: int|
            0 <= k < rest.len() && rest[k] == model_named(models, slug)->Some_0;
        assert(models[k + 1] == model_named(models, slug)->Some_0);
    }
}

// ── the proxy command ─────────────────────────────────────────────────

/// The arguments of the proxy command.
#[derive(Debug, PartialEq, Eq)]
pub struct ProxyArgs {
    pub provider: String,
    pub listen: String,
    pub model: Option<String>,
}

pub struct ProxyArgsView {
    pub provider: Seq<char>,
    pub listen: Seq<char>,
    pub model: Option<Seq<char>>,
}

impl View for ProxyArgs {
    type V = ProxyArgsView;

    open spec fn view(&self) -> ProxyArgsView {
        ProxyArgsView {
            provider: self.provider@,
            listen: self.listen@,
            model: opt_string(self.model),
        }
    }
}

/// The flags that have been read so far.
pub struct FlagsView {
    pub provider: Option<Seq<char>>,
    pub listen: Option<Seq<char>>,
    pub model: Option<Seq<char>>,
}

pub open spec fn no_flags() -> FlagsView {
    FlagsView { provider: None, listen: None, model: None }
}

pub open spec fn is_flag(arg: Seq<char>) -> bool {
    arg == "--provider"@ || arg == "--listen"@ || arg == "--model"@
}

/// The flags once `flag` has been given a value.
pub open spec fn with_flag(flags: FlagsView, flag: Seq<char>, value: Seq<char>) -> FlagsView {
    if flag == "--provider"@ {
        FlagsView { provider: Some(value), ..flags }
    } else if flag == "--listen"@ {
        FlagsView { listen: Some(value), ..flags }
    } else {
        FlagsView { model: Some(value), ..flags }
    }
}

/// Reads flags and their values from index `i` on.
pub open spec fn read_flags(args: Seq<Seq<char>>, i: int, flags: FlagsView) -> Result<
    FlagsView,
    Seq<char>,
>
    decreases args.len() - i,
{
    if i >= args.len() {
        Ok(flags)
    } else if !is_flag(args[i]) {
        Err("unknown proxy argument: "@ + args[i])
    } else if i + 1 >= args.len() {
        Err("missing value for "@ + args[i])
    } else {
        read_flags(args, i + 2, with_flag(flags, args[i], args[i + 1]))
    }
}

/// What a command line means. The program and the command come before the flags.
pub open spec fn proxy_args(args: Seq<Seq<char>>) -> Result<ProxyArgsView, Seq<char>> {
    match read_flags(args, 2, no_flags()) {
        Ok(flags) => match flags.provider {
            Some(provider) => Ok(
                ProxyArgsView {
                    provider,
                    listen: match flags.listen {
                        Some(listen) => listen,
                        None => "127.0.0.1:15722"@,
                    },
                    model: flags.model,
                },
            ),
            None => Err("missing --provider"@),
        },
        Err(message) => Err(message),
    }
}

pub fn parse_proxy_args(args: &[String]) -> (parsed: Result<ProxyArgs, String>)
    ensures
        match proxy_args(texts(args@)) {
            Ok(view) => parsed matches Ok(a) && a@ == view,
            Err(message) => parsed matches Err(e) && e@ == message,
        },
{
    let ghost all = texts(args@);
    let mut provider: Option<String> = None;
    let mut listen: Option<String> = None;
    let mut model: Option<String> = None;
    let mut i: usize = 2;
    while i < args.len()
        invariant
            2 <= i,
            i <= args.len() || i == 2,
            all == texts(args@),
            read_flags(all, 2, no_flags()) == read_flags(
                all,
                i as int,
                (FlagsView {
                    provider: opt_string(provider),
                    listen: opt_string(listen),
                    model: opt_string(model),
                }),
            ),
        decreases args.len() - i,
    {
        let flag = args[i].as_str();
        assert(all[i as int] == flag@);
        let is_provider = same_text(flag, "--provider");
        let is_listen = same_text(flag, "--listen");
        let is_model = same_text(flag, "--model");
        if !is_provider && !is_listen && !is_model {
            return Err("unknown proxy argument: ".to_owned().concat(flag));
        }
        if i + 1 >= args.len() {
            return Err("missing value for ".to_owned().concat(flag));
        }
        let value = args[i + 1].clone();
        assert(all[i + 1] == value@);
        proof {
            reveal_strlit("--provider");
            reveal_strlit("--listen");
            reveal_strlit("--model");
            assert("--provider"@.len() == 10 && "--listen"@.len() == 8 && "--model"@.len() == 7);
        }
        if is_provider {
            provider = Some(value);
        } else if is_listen {
            listen = Some(value);
        } else {
            model = Some(value);
        }
        i += 2;
    }
    match provider {
        Some(provider) => Ok(
            ProxyArgs {
                provider,
                listen: match listen {
                    Some(listen) => listen,
                    None => "127.0.0.1:15722".to_owned(),
                },
                model,
            },
        ),
        None => Err("missing --provider".to_owned()),
    }
}

proof fn lemma_read_more_flags(
    args: Seq<Seq<char>>,
    i: int,
    flags: FlagsView,
    flag: Seq<char>,
    value: Seq<char>,
)
    requires
        read_flags(args, i, flags) is Ok,
        0 <= i <= args.len(),
        is_flag(flag),
    ensures
        read_flags(args.push(flag).push(value), i, flags) == Ok::<FlagsView, Seq<char>>(
            with_flag(read_flags(args, i, flags)->Ok_0, flag, value),
        ),
    decreases args.len() - i,
{
    let longer = args.push(flag).push(value);
    if i < args.len() {
        assert(longer[i] == args[i] && longer[i + 1] == args[i + 1]);
        lemma_read_more_flags(args, i + 2, with_flag(flags, args[i], args[i + 1]), flag, value);
    } else {
        assert(longer[i] == flag && longer[i + 1] == value);
        assert(read_flags(longer, i + 2, with_flag(flags, flag, value)) == Ok::<
            FlagsView,
            Seq<char>,
        >(with_flag(flags, flag, value)));
    }
}

/// Of several values for one flag the last one counts, and the other flags keep theirs.
pub proof fn law_the_last_flag_counts(args: Seq<Seq<char>>, flag: Seq<char>, value: Seq<char>)
    requires
        proxy_args(args) is Ok,
        is_flag(flag),
    ensures
        proxy_args(args.push(flag).push(value)) is Ok,
        ({
            let before = proxy_args(args)->Ok_0;
            let after = proxy_args(args.push(flag).push(value))->Ok_0;
            &&& after.provider == if flag == "--provider"@ {
                value
            } else {
                before.provider
            }
            &&& after.listen == if flag == "--listen"@ {
                value
            } else {
                before.listen
            }
            &&& after.model == if flag == "--model"@ {
                Some(value)
            } else {
                before.model
            }
        }),
{
    reveal_strlit("--provider");
    reveal_strlit("--listen");
    reveal_strlit("--model");
    assert("--provider"@.len() == 10 && "--listen"@.len() == 8 && "--model"@.len() == 7);
    lemma_read_more_flags(args, 2, no_flags(), flag, value);
}

/// Whether a daemon is the one that a command line asks for, with the provider that it means.
pub open spec fn is_daemon(cfg: ProxyConfig, args: ProxyArgs, provider: ProviderConfig) -> bool {
    &&& cfg.provider_name@ == args.provider@
    &&& cfg.upstream_base@ == provider.base_url@
    &&& cfg.api_key@ == provider.api_key@
    &&& cfg.model_slug@ == wanted_model(opt_string(args.model), provider.models@)
}

/// The daemon that a command line asks for, or why there is none.
pub fn daemon_config(args: &ProxyArgs, config: &SpawnerConfig) -> (daemon: Result<
    ProxyConfig,
    String,
>)
    ensures
        match selected(*config, args.provider@, opt_string(args.model)) {
            Ok(found) => daemon matches Ok(cfg) && is_daemon(cfg, *args, found.0),
            Err(message) => daemon matches Err(e) && e@ == message,
        },
{
    match select(config, args.provider.as_str(), &args.model) {
        Ok((provider, _)) => Ok(
            ProxyConfig {
                provider_name: args.provider.clone(),
                upstream_base: provider.base_url.clone(),
                api_key: provider.api_key.clone(),
                model_slug: provider.model_slug(&args.model).to_owned(),
            },
        ),
        Err(message) => Err(message),
    }
}

} // verus!
