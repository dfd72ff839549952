//! The configuration: domain tiers, the complexity-based fallback, and how both come
//! from the YAML file.

use crate::environment::{resolve_env_vars, resolved, Environment};
use crate::keywords::{RawScoringKeywords, ScoringKeywords};
use crate::source::Source;
use vstd::prelude::*;

verus! {

/// A tier as it stands in the YAML file, with unresolved `${VAR}` placeholders.
#[derive(Debug, Clone)]
pub struct RawTier {
    /// Model identifier (e.g. `"deepseek-v4-pro"`)
    pub model: String,
    /// API base URL (e.g. `"https://api.deepseek.com"`)
    pub api_base: String,
    /// API key (supports `${VAR}` for environment variables)
    pub api_key: String,
    /// Authentication header name (default: `"Bearer"`)
    pub auth_header: String,
    /// List of keywords used to score this tier
    pub keywords: Vec<String>,
    /// Multiplicative weight for the tier (default: 1)
    pub weight: u32,
    /// Tier used when no keywords match and no complexity fallback is active
    pub default: bool,
}

/// A fallback tier as it stands in the YAML file.
#[derive(Debug, Clone)]
pub struct RawFallbackTier {
    pub model: String,
    pub api_base: String,
    pub api_key: String,
    pub auth_header: String,
}

/// The complexity-based fallback as it stands in the YAML file.
#[derive(Debug, Clone)]
pub struct RawFallbackConfig {
    /// Complexity threshold to switch to the "complex" tier (default: 3)
    pub threshold: u32,
    pub simple: RawFallbackTier,
    pub complex: RawFallbackTier,
}

/// The configuration as it stands in the YAML file.
#[derive(Debug)]
pub struct RawConfig {
    pub port: u16,
    pub host: String,
    /// Optional shared secret for proxy-level authentication.
    /// When set, clients must send an `X-RouterCrabs-Key` header with this value.
    pub proxy_key: Option<String>,
    /// Path to the complexity scoring keywords file (default: `keywords.yaml`)
    pub keywords_path: String,
    pub tiers: Vec<RawTier>,
    pub fallback: Option<RawFallbackConfig>,
}

/// The authentication header of a tier that names none.
pub fn default_auth_header() -> (res: String)
    ensures
        res@ == "Bearer"@,
{
    "Bearer".to_owned()
}

/// The weight of a tier that gives none.
pub fn default_weight() -> (res: u32)
    ensures
        res == 1,
{
    1
}

/// The complexity threshold of a fallback that gives none.
pub fn default_complexity_threshold() -> (res: u32)
    ensures
        res == 3,
{
    3
}

/// The port of a configuration that gives none.
pub fn default_port() -> (res: u16)
    ensures
        res == 8001,
{
    8001
}

/// The address of a configuration that gives none.
pub fn default_host() -> (res: String)
    ensures
        res@ == "127.0.0.1"@,
{
    "127.0.0.1".to_owned()
}

/// The keywords file of a configuration that names none.
pub fn default_keywords_path() -> (res: String)
    ensures
        res@ == "keywords.yaml"@,
{
    "keywords.yaml".to_owned()
}

/// A fully resolved tier: `${VAR}` placeholders have been replaced with their values
/// from the environment.
#[derive(Debug, Clone)]
pub struct Tier {
    /// Tier name (derived from the `model` field)
    pub name: String,
    /// Model identifier
    pub model: String,
    /// API base URL
    pub api_base: String,
    /// API key (resolved)
    pub api_key: String,
    /// Authentication header
    pub auth_header: String,
    /// Keywords for this tier
    pub keywords: Vec<String>,
    /// Multiplicative weight
    pub weight: u32,
    /// Is this the default tier?
    pub default: bool,
}

impl Tier {
    /// The tier is the raw one, under the given name, resolved in the environment.
    pub open spec fn resolves(
        self,
        raw: RawTier,
        name: Seq<char>,
        env: Map<Seq<char>, Seq<char>>,
    ) -> bool {
        &&& self.name@ == name
        &&& self.model == raw.model
        &&& self.api_base@ == resolved(raw.api_base@, env)
        &&& self.api_key@ == resolved(raw.api_key@, env)
        &&& self.auth_header == raw.auth_header
        &&& self.keywords == raw.keywords
        &&& self.weight == raw.weight
        &&& self.default == raw.default
    }

    /// Converts a [`RawTier`] into a [`Tier`] by resolving environment variables in
    /// `api_base` and `api_key`.
    pub fn from_raw(raw: RawTier, name: String, env: &Environment) -> (res: Self)
        ensures
            res.resolves(raw, name@, env@),
            res.name@ == name@,
            res.model@ == raw.model@,
            res.api_base@ == resolved(raw.api_base@, env@),
            res.api_key@ == resolved(raw.api_key@, env@),
            res.auth_header@ == raw.auth_header@,
            res.keywords@ == raw.keywords@,
            res.weight == raw.weight,
            res.default == raw.default,
    {
        Tier {
            name,
            model: raw.model,
            api_base: resolve_env_vars(raw.api_base.as_str(), env),
            api_key: resolve_env_vars(raw.api_key.as_str(), env),
            auth_header: raw.auth_header,
            keywords: raw.keywords,
            weight: raw.weight,
            default: raw.default,
        }
    }
}

/// A resolved fallback tier (used for complexity-based routing).
#[derive(Debug, Clone)]
pub struct FallbackTier {
    pub model: String,
    pub api_base: String,
    pub api_key: String,
    pub auth_header: String,
}

impl FallbackTier {
    /// The tier is the raw one, resolved in the environment.
    pub open spec fn resolves(self, raw: RawFallbackTier, env: Map<Seq<char>, Seq<char>>) -> bool {
        &&& self.model == raw.model
        &&& self.api_base@ == resolved(raw.api_base@, env)
        &&& self.api_key@ == resolved(raw.api_key@, env)
        &&& self.auth_header == raw.auth_header
    }

    /// Resolves environment variables in `api_base` and `api_key`.
    pub fn from_raw(raw: RawFallbackTier, env: &Environment) -> (res: Self)
        ensures
            res.resolves(raw, env@),
            res.model@ == raw.model@,
            res.api_base@ == resolved(raw.api_base@, env@),
            res.api_key@ == resolved(raw.api_key@, env@),
            res.auth_header@ == raw.auth_header@,
    {
        FallbackTier {
            model: raw.model,
            api_base: resolve_env_vars(raw.api_base.as_str(), env),
            api_key: resolve_env_vars(raw.api_key.as_str(), env),
            auth_header: raw.auth_header,
        }
    }
}

/// Complexity-based routing configuration (used when no keywords match).
#[derive(Debug, Clone)]
pub struct FallbackConfig {
    /// Complexity threshold (score >= threshold gives the complex tier)
    pub threshold: u32,
    /// Tier for simple requests
    pub simple: FallbackTier,
    /// Tier for complex requests
    pub complex: FallbackTier,
}

impl FallbackConfig {
    /// The fallback is the raw one, resolved in the environment.
    pub open spec fn resolves(
        self,
        raw: RawFallbackConfig,
        env: Map<Seq<char>, Seq<char>>,
    ) -> bool {
        &&& self.threshold == raw.threshold
        &&& self.simple.resolves(raw.simple, env)
        &&& self.complex.resolves(raw.complex, env)
    }

    /// Resolves both tiers.
    pub fn from_raw(raw: RawFallbackConfig, env: &Environment) -> (res: Self)
        ensures
            res.resolves(raw, env@),
            res.threshold == raw.threshold,
            res.simple.model@ == raw.simple.model@,
            res.complex.model@ == raw.complex.model@,
    {
        FallbackConfig {
            threshold: raw.threshold,
            simple: FallbackTier::from_raw(raw.simple, env),
            complex: FallbackTier::from_raw(raw.complex, env),
        }
    }
}

/// Each tier is the raw one at its place, named after its model.
pub open spec fn tiers_resolve(
    tiers: Seq<Tier>,
    raw: Seq<RawTier>,
    env: Map<Seq<char>, Seq<char>>,
) -> bool {
    &&& tiers.len() == raw.len()
    &&& forall|k: int|
        0 <= k < raw.len() ==> (#[trigger] tiers[k]).resolves(raw[k], raw[k].model@, env)
}

/// Resolves the tiers, each named after its model.
pub fn resolve_tiers(raw: Vec<RawTier>, env: &Environment) -> (res: Vec<Tier>)
    ensures
        tiers_resolve(res@, raw@, env@),
{
    let mut tiers: Vec<Tier> = Vec::new();
    for tier in it: raw.into_iter()
        invariant
            it.seq() == raw@,
            tiers_resolve(tiers@, raw@.take(it.index() as int), env@),
    {
        let name = tier.model.clone();
        tiers.push(Tier::from_raw(tier, name, env));
    }
    tiers
}

/// Why a configuration cannot be used.
#[derive(Debug)]
pub enum ConfigFault {
    /// The file cannot be read, for the given reason.
    Unreadable(String),
    /// The file is not a configuration in YAML, for the given reason.
    InvalidYaml(String),
    /// There is neither a tier nor a fallback.
    NoTier,
    /// There are tiers, but neither a default one nor a fallback.
    NoDefault,
}

/// A configuration file that cannot be used.
#[derive(Debug)]
pub struct ConfigError {
    /// The path of the file
    pub path: String,
    /// What is wrong with it
    pub fault: ConfigFault,
}

impl ConfigError {
    /// The message that tells the user of the error.
    pub open spec fn message_view(self) -> Seq<char> {
        match self.fault {
            ConfigFault::Unreadable(e) => "Cannot read "@ + self.path@ + ": "@ + e@,
            ConfigFault::InvalidYaml(e) => "Invalid YAML in "@ + self.path@ + ": "@ + e@,
            ConfigFault::NoTier => "No tier nor fallback defined in "@ + self.path@,
            ConfigFault::NoDefault => "No tier with `default: true` and no `fallback` section in "@
                + self.path@,
        }
    }

    /// The message that tells the user of the error.
    pub fn message(&self) -> (res: String)
        ensures
            res@ == self.message_view(),
    {
        let mut res = String::new();
        match &self.fault {
            ConfigFault::Unreadable(e) => {
                res.append("Cannot read ");
                res.append(self.path.as_str());
                res.append(": ");
                res.append(e.as_str());
            },
            ConfigFault::InvalidYaml(e) => {
                res.append("Invalid YAML in ");
                res.append(self.path.as_str());
                res.append(": ");
                res.append(e.as_str());
            },
            ConfigFault::NoTier => {
                res.append("No tier nor fallback defined in ");
                res.append(self.path.as_str());
            },
            ConfigFault::NoDefault => {
                res.append("No tier with `default: true` and no `fallback` section in ");
                res.append(self.path.as_str());
            },
        }
        assert(res@ =~= self.message_view());
        res
    }
}

/// One of the raw tiers is marked as the default.
pub open spec fn raw_default_exists(tiers: Seq<RawTier>) -> bool {
    exists|k: int| 0 <= k < tiers.len() && (#[trigger] tiers[k]).default
}

/// Whether one of the raw tiers is marked as the default.
pub fn has_raw_default(tiers: &[RawTier]) -> (res: bool)
    ensures
        res == raw_default_exists(tiers@),
        res == exists|k: int| 0 <= k < tiers@.len() && (#[trigger] tiers@[k]).default,
{
    let mut k: usize = 0;
    while k < tiers.len()
        invariant
            k <= tiers@.len(),
            forall|j: int| 0 <= j < k ==> !(#[trigger] tiers@[j]).default,
        decreases tiers@.len() - k,
    {
        if tiers[k].default {
            return true;
        }
        k += 1;
    }
    false
}

impl RawConfig {
    /// There is neither a tier nor a fallback.
    pub open spec fn lacks_tier(self) -> bool {
        self.tiers@.len() == 0 && self.fallback is None
    }

    /// There are tiers, but neither a default one nor a fallback.
    pub open spec fn lacks_default(self) -> bool {
        &&& self.tiers@.len() > 0
        &&& !raw_default_exists(self.tiers@)
        &&& self.fallback is None
    }

    /// Checks that every request will find a tier.
    pub fn check(&self) -> (res: Result<(), ConfigFault>)
        ensures
            match res {
                Ok(_) => !self.lacks_tier() && !self.lacks_default(),
                Err(ConfigFault::NoTier) => self.lacks_tier(),
                Err(ConfigFault::NoDefault) => self.lacks_default(),
                Err(_) => false,
            },
            res is Ok <==> self.fallback is Some || exists|k: int|
                0 <= k < self.tiers@.len() && (#[trigger] self.tiers@[k]).default,
            res matches Err(fault) ==> (fault is NoTier <==> self.tiers@.len() == 0),
    {
        if self.tiers.len() == 0 && self.fallback.is_none() {
            return Err(ConfigFault::NoTier);
        }
        if self.tiers.len() > 0 && !has_raw_default(self.tiers.as_slice())
            && self.fallback.is_none() {
            return Err(ConfigFault::NoDefault);
        }
        Ok(())
    }
}

/// The full configuration.
#[derive(Debug)]
pub struct TiersConfig {
    /// Listening port
    pub port: u16,
    /// Listening address (default: `127.0.0.1`)
    pub host: String,
    /// Optional shared secret for proxy-level authentication.
    /// When set, clients must send an `X-RouterCrabs-Key` header with this value.
    pub proxy_key: Option<String>,
    /// Resolved domain tiers
    pub tiers: Vec<Tier>,
    /// Complexity-based routing configuration
    pub fallback: Option<FallbackConfig>,
    /// Complexity scoring keywords
    pub keywords: ScoringKeywords,
}

/// One of the tiers is marked as the default.
pub open spec fn default_exists(tiers: Seq<Tier>) -> bool {
    exists|k: int| 0 <= k < tiers.len() && (#[trigger] tiers[k]).default
}

/// What a client sent in the `X-RouterCrabs-Key` header.
pub open spec fn key_view(sent: Option<&str>) -> Option<Seq<char>> {
    match sent {
        Some(key) => Some(key@),
        None => None,
    }
}

impl TiersConfig {
    /// The configuration is the raw one, resolved in the environment, with the scoring
    /// keywords of the given file.
    pub open spec fn resolves(
        self,
        raw: RawConfig,
        keywords: Source<RawScoringKeywords>,
        env: Map<Seq<char>, Seq<char>>,
    ) -> bool {
        &&& self.port == raw.port
        &&& self.host == raw.host
        &&& self.proxy_key == raw.proxy_key
        &&& tiers_resolve(self.tiers@, raw.tiers@, env)
        &&& match (self.fallback, raw.fallback) {
            (Some(fallback), Some(raw_fallback)) => fallback.resolves(raw_fallback, env),
            (None, None) => true,
            _ => false,
        }
        &&& self.keywords.loads(keywords)
    }

    /// There is a tier for requests that no keyword decides.
    pub open spec fn has_last_resort(self) -> bool {
        self.fallback is Some || default_exists(self.tiers@)
    }

    /// Builds a configuration from the YAML files that were read and parsed: the one at
    /// `path`, and the scoring keywords that it points to.
    ///
    /// # Errors
    /// Returns an error if the file is unreadable, the YAML is invalid, or if neither a
    /// tier with `default: true` nor a `fallback` section is present.
    pub fn load(
        path: &str,
        source: Source<RawConfig>,
        keywords: Source<RawScoringKeywords>,
        env: &Environment,
    ) -> (res: Result<Self, ConfigError>)
        ensures
            match source {
                Source::Unreadable(e) => res matches Err(error) && error.path@ == path@
                    && error.fault == ConfigFault::Unreadable(e),
                Source::Malformed(e) => res matches Err(error) && error.path@ == path@
                    && error.fault == ConfigFault::InvalidYaml(e),
                Source::Parsed(raw) => if raw.lacks_tier() {
                    res matches Err(error) && error.path@ == path@ && error.fault
                        == ConfigFault::NoTier
                } else if raw.lacks_default() {
                    res matches Err(error) && error.path@ == path@ && error.fault
                        == ConfigFault::NoDefault
                } else {
                    res matches Ok(config) && config.resolves(raw, keywords, env@)
                },
            },
            res matches Ok(config) ==> config.has_last_resort(),
            source matches Source::Parsed(raw) ==> (res is Ok <==> raw.fallback is Some
                || exists|k: int| 0 <= k < raw.tiers@.len() && (#[trigger] raw.tiers@[k]).default),
            source matches Source::Parsed(raw) ==> (res matches Err(error) ==> (
            error.fault is NoTier <==> raw.tiers@.len() == 0)),
    {
        let raw = match source {
            Source::Unreadable(e) => {
                return Err(
                    ConfigError { path: path.to_owned(), fault: ConfigFault::Unreadable(e) },
                );
            },
            Source::Malformed(e) => {
                return Err(
                    ConfigError { path: path.to_owned(), fault: ConfigFault::InvalidYaml(e) },
                );
            },
            Source::Parsed(raw) => raw,
        };
        if let Err(fault) = raw.check() {
            return Err(ConfigError { path: path.to_owned(), fault });
        }
        let config = TiersConfig {
            port: raw.port,
            host: raw.host,
            proxy_key: raw.proxy_key,
            tiers: resolve_tiers(raw.tiers, env),
            fallback: match raw.fallback {
                Some(fallback) => Some(FallbackConfig::from_raw(fallback, env)),
                None => None,
            },
            keywords: ScoringKeywords::load(keywords),
        };
        proof {
            if raw.fallback is None {
                let k = choose|k: int|
                    0 <= k < raw.tiers@.len() && (#[trigger] raw.tiers@[k]).default;
                assert(config.tiers@[k].default);
            }
        }
        Ok(config)
    }

    /// A client may use the proxy: no shared secret is set, or the client sent it.
    pub open spec fn lets_in(self, sent: Option<Seq<char>>) -> bool {
        match self.proxy_key {
            Some(secret) => sent == Some(secret@),
            None => true,
        }
    }

    /// Whether a client that sent the given `X-RouterCrabs-Key` header may use the proxy.
    pub fn admits(&self, sent: Option<&str>) -> (res: bool)
        ensures
            res == self.lets_in(key_view(sent)),
            match (self.proxy_key, sent) {
                (Some(secret), Some(key)) => res == (secret@ == key@),
                (Some(_), None) => !res,
                (None, _) => res,
            },
    {
        match &self.proxy_key {
            Some(secret) => match sent {
                Some(key) => *secret == key.to_owned(),
                None => false,
            },
            None => true,
        }
    }
}

/// Every tier of a loaded configuration says what the raw tier at its place says. Its
/// name is its model, and the base URL and the key are resolved.
pub proof fn law_tiers_keep_what_the_file_says(
    config: TiersConfig,
    raw: RawConfig,
    keywords: Source<RawScoringKeywords>,
    env: Map<Seq<char>, Seq<char>>,
    k: int,
)
    requires
        config.resolves(raw, keywords, env),
        0 <= k < raw.tiers@.len(),
    ensures
        config.tiers@.len() == raw.tiers@.len(),
        config.tiers@[k].name@ == raw.tiers@[k].model@,
        config.tiers@[k].model@ == raw.tiers@[k].model@,
        config.tiers@[k].api_base@ == resolved(raw.tiers@[k].api_base@, env),
        config.tiers@[k].api_key@ == resolved(raw.tiers@[k].api_key@, env),
        config.tiers@[k].auth_header@ == raw.tiers@[k].auth_header@,
        config.tiers@[k].keywords@ == raw.tiers@[k].keywords@,
        config.tiers@[k].weight == raw.tiers@[k].weight,
        config.tiers@[k].default == raw.tiers@[k].default,
{
    law_resolved_tiers(config.tiers@, raw.tiers@, env, k);
}

/// Each resolved tier says what the raw tier at its place says, named after its model.
pub proof fn law_resolved_tiers(
    tiers: Seq<Tier>,
    raw: Seq<RawTier>,
    env: Map<Seq<char>, Seq<char>>,
    k: int,
)
    requires
        tiers_resolve(tiers, raw, env),
        0 <= k < raw.len(),
    ensures
        tiers.len() == raw.len(),
        tiers[k].name@ == raw[k].model@,
        tiers[k].model@ == raw[k].model@,
        tiers[k].api_base@ == resolved(raw[k].api_base@, env),
        tiers[k].api_key@ == resolved(raw[k].api_key@, env),
        tiers[k].auth_header@ == raw[k].auth_header@,
        tiers[k].keywords@ == raw[k].keywords@,
        tiers[k].weight == raw[k].weight,
        tiers[k].default == raw[k].default,
{
    assert(tiers[k].resolves(raw[k], raw[k].model@, env));
}

/// A resolved fallback says what the raw one says: the threshold, and of both tiers the
/// model, the resolved base URL, the resolved key and the authentication header.
pub proof fn law_resolved_fallback(
    fallback: FallbackConfig,
    raw: RawFallbackConfig,
    env: Map<Seq<char>, Seq<char>>,
)
    requires
        fallback.resolves(raw, env),
    ensures
        fallback.threshold == raw.threshold,
        fallback.simple.model@ == raw.simple.model@,
        fallback.simple.api_base@ == resolved(raw.simple.api_base@, env),
        fallback.simple.api_key@ == resolved(raw.simple.api_key@, env),
        fallback.simple.auth_header@ == raw.simple.auth_header@,
        fallback.complex.model@ == raw.complex.model@,
        fallback.complex.api_base@ == resolved(raw.complex.api_base@, env),
        fallback.complex.api_key@ == resolved(raw.complex.api_key@, env),
        fallback.complex.auth_header@ == raw.complex.auth_header@,
{
}

/// A loaded configuration keeps the port, the address and the shared secret of the file.
/// It has as many tiers as the file, and a fallback exactly where the file has one.
pub proof fn law_settings_are_kept(
    config: TiersConfig,
    raw: RawConfig,
    keywords: Source<RawScoringKeywords>,
    env: Map<Seq<char>, Seq<char>>,
)
    requires
        config.resolves(raw, keywords, env),
    ensures
        config.port == raw.port,
        config.host@ == raw.host@,
        config.tiers@.len() == raw.tiers@.len(),
        config.proxy_key is Some <==> raw.proxy_key is Some,
        config.proxy_key is Some ==> config.proxy_key->0@ == raw.proxy_key->0@,
        config.fallback is Some <==> raw.fallback is Some,
        config.fallback is Some ==> config.fallback->0.resolves(raw.fallback->0, env),
        config.keywords.loads(keywords),
{
}

/// One default tier among any others is a last resort, and so is a fallback. Without
/// either there is none.
pub proof fn law_last_resort(config: TiersConfig, k: int)
    ensures
        config.fallback is Some ==> config.has_last_resort(),
        0 <= k < config.tiers@.len() && config.tiers@[k].default ==> config.has_last_resort(),
        config.fallback is None && (forall|j: int|
            0 <= j < config.tiers@.len() ==> !(#[trigger] config.tiers@[j]).default)
            ==> !config.has_last_resort(),
{
}

/// A shared secret lets in the clients that send it, letter by letter, and no others.
/// Without one every client is let in.
pub proof fn law_only_the_secret_lets_in(config: TiersConfig, sent: Seq<char>)
    ensures
        config.proxy_key matches Some(secret) ==> (config.lets_in(Some(sent)) <==> sent == secret@)
            && !config.lets_in(None),
        config.proxy_key is None ==> config.lets_in(Some(sent)) && config.lets_in(None),
{
}

/// What a client sent is taken as it is.
pub proof fn law_key_as_sent(key: &str)
    ensures
        key_view(Some(key)) == Some(key@),
        key_view(None) == None::<Seq<char>>,
{
}

/// The message names the file, and the reason where there is one.
pub proof fn law_error_message(error: ConfigError)
    ensures
        error.fault matches ConfigFault::Unreadable(e) ==> error.message_view() == "Cannot read "@
            + error.path@ + ": "@ + e@,
        error.fault matches ConfigFault::InvalidYaml(e) ==> error.message_view()
            == "Invalid YAML in "@ + error.path@ + ": "@ + e@,
        error.fault is NoTier ==> error.message_view() == "No tier nor fallback defined in "@
            + error.path@,
        error.fault is NoDefault ==> error.message_view()
            == "No tier with `default: true` and no `fallback` section in "@ + error.path@,
{
}

} // verus!
