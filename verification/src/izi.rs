//! The iziRouter service: its configuration, its choice of tier and its answers to
//! clients.

use crate::config::{
    has_raw_default, key_view, law_resolved_fallback, law_resolved_tiers, raw_default_exists,
    resolve_tiers, tiers_resolve, ConfigError, ConfigFault, FallbackConfig, FallbackTier,
    RawFallbackConfig, RawTier, Tier, TiersConfig,
};
use crate::environment::{resolved, Environment};
use crate::json::{
    all_contents, array_value, contents, object_value, set_field, string_value, takes_fields,
    Json,
};
use crate::keywords::{RawScoringKeywords, ScoringKeywords};
use crate::message::{ChatRequest, Message};
use crate::proxy::{
    forward_request, header_views, law_request_headers, law_where_and_what_is_sent,
    UpstreamRequest,
};
use crate::routing::{
    all_views, best_match, chosen, conversation_matches, domain_reason, find_default,
    is_first_default, is_routable, law_one_winner, match_report, match_tiers, no_match,
    report_matches, routable, route_by_complexity, routed_by_complexity, same_tier, wins,
};
use crate::scoring::{complexity, score_complexity};
use crate::source::Source;
use crate::text::{
    decimal, decimal_string, is_numeral, joined, law_numeral_of_a_number, numeral_value, parse_u16,
    views,
};
use serde_json::Value;
use std::borrow::Cow;
use vstd::prelude::*;

verus! {

/// The environment variables that the service reads, besides those that its
/// configuration file refers to.
pub const SETTINGS: [&'static str; 5] = [
    "PORT", "DEEPSEEK_API_KEY", "DEEPSEEK_API_BASE", "FLASH_MODEL", "PRO_MODEL",
];

/// The configuration as it stands in the YAML file.
#[derive(Debug)]
pub struct RawAppConfig {
    /// Listening port (default: the variable `PORT`, or else 8001)
    pub port: Option<u16>,
    pub host: String,
    /// Optional shared secret for proxy-level authentication.
    /// When set, clients must send an `X-RouterCrabs-Key` header with this value.
    pub proxy_key: Option<String>,
    /// Path to the complexity scoring keywords file (default: `keywords.yaml`)
    pub keywords_path: String,
    pub tiers: Vec<RawTier>,
    pub fallback: Option<RawFallbackConfig>,
}

/// The value of a variable, or the default where it is not defined.
pub open spec fn setting(
    env: Map<Seq<char>, Seq<char>>,
    name: Seq<char>,
    default: Seq<char>,
) -> Seq<char> {
    if env.contains_key(name) {
        env[name]
    } else {
        default
    }
}

/// The port that the variable `PORT` gives. It is 8001 where the variable is not defined
/// or is not the decimal numeral of a port.
pub open spec fn listening_port(env: Map<Seq<char>, Seq<char>>) -> int {
    if env.contains_key("PORT"@) && is_numeral(env["PORT"@]) && numeral_value(env["PORT"@])
        <= u16::MAX {
        numeral_value(env["PORT"@])
    } else {
        8001
    }
}

/// A tier of the DeepSeek provider, with the key and the address that the environment
/// gives.
pub open spec fn is_deepseek_tier(
    tier: FallbackTier,
    model: Seq<char>,
    env: Map<Seq<char>, Seq<char>>,
) -> bool {
    &&& tier.model@ == model
    &&& tier.api_base@ == setting(env, "DEEPSEEK_API_BASE"@, "https://api.deepseek.com"@)
    &&& tier.api_key@ == setting(env, "DEEPSEEK_API_KEY"@, Seq::empty())
    &&& tier.auth_header@ == "Bearer"@
}

/// The fallback that the environment gives: DeepSeek Flash for simple requests, DeepSeek
/// Pro for those that score at least 3.
pub open spec fn is_deepseek_fallback(
    fallback: FallbackConfig,
    env: Map<Seq<char>, Seq<char>>,
) -> bool {
    &&& fallback.threshold == 3
    &&& is_deepseek_tier(
        fallback.simple,
        setting(env, "FLASH_MODEL"@, "deepseek-v4-flash"@),
        env,
    )
    &&& is_deepseek_tier(
        fallback.complex,
        setting(env, "PRO_MODEL"@, "deepseek-v4-pro"@),
        env,
    )
}

fn setting_or(env: &Environment, name: &str, default: &str) -> (res: String)
    ensures
        res@ == setting(env@, name@, default@),
{
    match env.get(name) {
        Some(value) => value,
        None => default.to_owned(),
    }
}

/// The port to listen on where the configuration file gives none.
pub fn port_from_environment(env: &Environment) -> (res: u16)
    ensures
        res == listening_port(env@),
        !env@.contains_key("PORT"@) ==> res == 8001,
        env@.contains_key("PORT"@) && is_numeral(env@["PORT"@]) && numeral_value(env@["PORT"@])
            <= 65535 ==> res == numeral_value(env@["PORT"@]),
        env@.contains_key("PORT"@) && !(is_numeral(env@["PORT"@]) && numeral_value(env@["PORT"@])
            <= 65535) ==> res == 8001,
{
    match env.get("PORT") {
        Some(text) => match parse_u16(text.as_str()) {
            Some(port) => port,
            None => 8001,
        },
        None => 8001,
    }
}

fn deepseek_tier(model: String, env: &Environment) -> (res: FallbackTier)
    ensures
        is_deepseek_tier(res, model@, env@),
{
    FallbackTier {
        model,
        api_base: setting_or(env, "DEEPSEEK_API_BASE", "https://api.deepseek.com"),
        api_key: env.value("DEEPSEEK_API_KEY"),
        auth_header: "Bearer".to_owned(),
    }
}

/// The fallback that the environment gives.
pub fn deepseek_fallback(env: &Environment) -> (res: FallbackConfig)
    ensures
        is_deepseek_fallback(res, env@),
{
    FallbackConfig {
        threshold: 3,
        simple: deepseek_tier(setting_or(env, "FLASH_MODEL", "deepseek-v4-flash"), env),
        complex: deepseek_tier(setting_or(env, "PRO_MODEL", "deepseek-v4-pro"), env),
    }
}

impl RawAppConfig {
    /// The file has neither a fallback nor a default tier.
    pub open spec fn has_no_last_resort(self) -> bool {
        self.fallback is None && !raw_default_exists(self.tiers@)
    }

    /// The fallback comes from the environment: the file has no last resort, and
    /// `DEEPSEEK_API_KEY` is defined.
    pub open spec fn takes_deepseek(self, env: Map<Seq<char>, Seq<char>>) -> bool {
        self.has_no_last_resort() && env.contains_key("DEEPSEEK_API_KEY"@)
    }

    /// Some request would find no tier.
    pub open spec fn is_incomplete(self, env: Map<Seq<char>, Seq<char>>) -> bool {
        self.has_no_last_resort() && !env.contains_key("DEEPSEEK_API_KEY"@)
    }

    /// The configuration is the one that the file gives in the environment, with the
    /// scoring keywords of the given file.
    pub open spec fn gives(
        self,
        config: TiersConfig,
        keywords: Source<RawScoringKeywords>,
        env: Map<Seq<char>, Seq<char>>,
    ) -> bool {
        &&& config.port == match self.port {
            Some(port) => port as int,
            None => listening_port(env),
        }
        &&& config.host == self.host
        &&& config.proxy_key == self.proxy_key
        &&& tiers_resolve(config.tiers@, self.tiers@, env)
        &&& match (self.fallback, config.fallback) {
            (Some(raw), Some(fallback)) => fallback.resolves(raw, env),
            (None, Some(fallback)) => self.takes_deepseek(env) && is_deepseek_fallback(
                fallback,
                env,
            ),
            (None, None) => !self.takes_deepseek(env),
            (Some(_), None) => false,
        }
        &&& config.keywords.loads(keywords)
    }

    /// Checks that every request will find a tier.
    pub fn check(&self, env: &Environment) -> (res: Result<(), ConfigFault>)
        ensures
            match res {
                Ok(_) => !self.is_incomplete(env@),
                Err(ConfigFault::NoTier) => self.is_incomplete(env@) && self.tiers@.len() == 0,
                Err(ConfigFault::NoDefault) => self.is_incomplete(env@) && self.tiers@.len() > 0,
                Err(_) => false,
            },
            res is Ok <==> self.fallback is Some || (exists|k: int|
                0 <= k < self.tiers@.len() && (#[trigger] self.tiers@[k]).default)
                || env@.contains_key("DEEPSEEK_API_KEY"@),
    {
        if self.fallback.is_some() || has_raw_default(self.tiers.as_slice()) || env.get(
            "DEEPSEEK_API_KEY",
        ).is_some() {
            return Ok(());
        }
        if self.tiers.len() == 0 {
            Err(ConfigFault::NoTier)
        } else {
            Err(ConfigFault::NoDefault)
        }
    }
}

/// Builds the configuration of the service from the YAML files that were read and parsed:
/// the one at `path`, and the scoring keywords that it points to.
///
/// Where the file gives no port, the variable `PORT` does. Where it gives neither a
/// fallback nor a default tier, the fallback is made of the DeepSeek models, provided that
/// `DEEPSEEK_API_KEY` is defined.
///
/// # Errors
/// Returns an error if the file is unreadable, the YAML is invalid, or if there is neither
/// a tier with `default: true` nor a fallback.
pub fn load_config(
    path: &str,
    source: Source<RawAppConfig>,
    keywords: Source<RawScoringKeywords>,
    env: &Environment,
) -> (res: Result<TiersConfig, ConfigError>)
    ensures
        match source {
            Source::Unreadable(e) => res matches Err(error) && error.path@ == path@ && error.fault
                == ConfigFault::Unreadable(e),
            Source::Malformed(e) => res matches Err(error) && error.path@ == path@ && error.fault
                == ConfigFault::InvalidYaml(e),
            Source::Parsed(raw) => if raw.is_incomplete(env@) {
                res matches Err(error) && error.path@ == path@ && error.fault == (
                if raw.tiers@.len() == 0 {
                    ConfigFault::NoTier
                } else {
                    ConfigFault::NoDefault
                })
            } else {
                res matches Ok(config) && raw.gives(config, keywords, env@)
            },
        },
        res matches Ok(config) ==> config.has_last_resort(),
        source matches Source::Parsed(raw) ==> (res is Ok <==> raw.fallback is Some
            || env@.contains_key("DEEPSEEK_API_KEY"@) || exists|k: int|
            0 <= k < raw.tiers@.len() && (#[trigger] raw.tiers@[k]).default),
        source matches Source::Parsed(raw) ==> (res matches Err(error) ==> (
        error.fault is NoTier <==> raw.tiers@.len() == 0)),
{
    let raw = match source {
        Source::Unreadable(e) => {
            return Err(ConfigError { path: path.to_owned(), fault: ConfigFault::Unreadable(e) });
        },
        Source::Malformed(e) => {
            return Err(ConfigError { path: path.to_owned(), fault: ConfigFault::InvalidYaml(e) });
        },
        Source::Parsed(raw) => raw,
    };
    if let Err(fault) = raw.check(env) {
        return Err(ConfigError { path: path.to_owned(), fault });
    }
    let has_default = has_raw_default(raw.tiers.as_slice());
    let config = TiersConfig {
        port: match raw.port {
            Some(port) => port,
            None => port_from_environment(env),
        },
        host: raw.host,
        proxy_key: raw.proxy_key,
        tiers: resolve_tiers(raw.tiers, env),
        fallback: match raw.fallback {
            Some(fallback) => Some(FallbackConfig::from_raw(fallback, env)),
            None => if has_default {
                None
            } else {
                Some(deepseek_fallback(env))
            },
        },
        keywords: ScoringKeywords::load(keywords),
    };
    proof {
        if has_default {
            let k = choose|k: int| 0 <= k < raw.tiers@.len() && (#[trigger] raw.tiers@[k]).default;
            assert(config.tiers@[k].default);
        }
    }
    Ok(config)
}

/// The message that tells the user of a configuration error.
pub open spec fn error_view(error: ConfigError) -> Seq<char> {
    match error.fault {
        ConfigFault::Unreadable(e) => "Impossible de lire "@ + error.path@ + ": "@ + e@,
        ConfigFault::InvalidYaml(e) => "YAML invalide dans "@ + error.path@ + ": "@ + e@,
        ConfigFault::NoTier => "Aucun tier défini dans "@ + error.path@,
        ConfigFault::NoDefault => "Aucun tier avec `default: true` dans "@ + error.path@,
    }
}

/// The message that tells the user of a configuration error.
pub fn error_message(error: &ConfigError) -> (res: String)
    ensures
        res@ == error_view(*error),
{
    let mut res = match &error.fault {
        ConfigFault::Unreadable(_) => "Impossible de lire ".to_owned(),
        ConfigFault::InvalidYaml(_) => "YAML invalide dans ".to_owned(),
        ConfigFault::NoTier => "Aucun tier défini dans ".to_owned(),
        ConfigFault::NoDefault => "Aucun tier avec `default: true` dans ".to_owned(),
    };
    res.append(error.path.as_str());
    match &error.fault {
        ConfigFault::Unreadable(e) => {
            res.append(": ");
            res.append(e.as_str());
        },
        ConfigFault::InvalidYaml(e) => {
            res.append(": ");
            res.append(e.as_str());
        },
        _ => {},
    }
    res
}

/// The address to listen on.
pub fn listen_address(config: &TiersConfig) -> (res: String)
    ensures
        res@ == config.host@ + ":"@ + decimal(config.port as nat),
{
    let mut res = config.host.clone();
    res.append(":");
    res.append(decimal_string(config.port as u128).as_str());
    res
}

/// The tier and the reason that are selected, given each tier's matches and the
/// complexity score:
/// - the winner by keywords, where some tier has a match;
/// - otherwise the fallback tier on the side of the threshold where the score lies;
/// - without a fallback the first default tier.
pub open spec fn routed<'a>(
    config: TiersConfig,
    matches: Seq<Seq<Seq<char>>>,
    score: nat,
    tier: Cow<'a, Tier>,
    reason: Seq<char>,
) -> bool {
    if !no_match(matches) {
        exists|w: int| #[trigger]
            wins(config.tiers@, matches, w) && tier == Cow::<'a, Tier>::Borrowed(
                &config.tiers@[w],
            ) && reason == match_report(config.tiers@[w], matches[w])
    } else {
        match config.fallback {
            Some(fallback) => tier matches Cow::Owned(t) && routed_by_complexity(
                fallback,
                score,
                t,
                reason,
            ),
            None => exists|d: int| #[trigger]
                is_first_default(config.tiers@, d) && tier == Cow::<'a, Tier>::Borrowed(
                    &config.tiers@[d],
                ) && reason == "default (aucun mot-clé matché)"@,
        }
    }
}

/// Selects the tier, given each tier's matches and the complexity score.
pub fn route<'a>(config: &'a TiersConfig, matches: &[Vec<String>], score: u32) -> (res: (
    Cow<'a, Tier>,
    String,
))
    requires
        matches@.len() == config.tiers@.len(),
        !no_match(all_views(matches@)) || config.has_last_resort(),
    ensures
        routed(*config, all_views(matches@), score as nat, res.0, res.1@),
{
    if let Some(w) = best_match(config.tiers.as_slice(), matches) {
        let tier = &config.tiers[w];
        assert(all_views(matches@)[w as int] == views(matches@[w as int]@));
        return (Cow::Borrowed(tier), report_matches(tier, &matches[w]));
    }
    if let Some(fallback) = &config.fallback {
        let (tier, reason) = route_by_complexity(fallback, score);
        return (Cow::Owned(tier), reason);
    }
    let d: usize = find_default(config.tiers.as_slice()).expect("default tier requis");
    (Cow::Borrowed(&config.tiers[d]), "default (aucun mot-clé matché)".to_owned())
}

/// Selects the tier for a conversation. Each tier scores the number of its keywords that
/// occur in it, whatever their case, times its weight. The highest score wins; a tie goes
/// to the higher weight, then to a default tier. Where no keyword occurs, the complexity
/// decides between the tiers of the fallback; without one the default tier is used.
pub fn select_tier<'a>(config: &'a TiersConfig, messages: &[Message]) -> (res: (
    Cow<'a, Tier>,
    String,
))
    requires
        routable(*config, messages@),
    ensures
        routed(
            *config,
            conversation_matches(config.tiers@, messages@),
            complexity(messages@, config.keywords),
            res.0,
            res.1@,
        ),
{
    let matches = match_tiers(config.tiers.as_slice(), messages);
    assert(all_views(matches@).len() == config.tiers@.len());
    let score: u32 = score_complexity(messages, &config.keywords);
    route(config, matches.as_slice(), score)
}

/// The entry of a tier in the list of models.
pub open spec fn model_entry(tier: Tier) -> Json {
    Json::Object(
        Map::empty().insert("id"@, Json::Text(tier.model@)).insert(
            "object"@,
            Json::Text("model"@),
        ).insert("owned_by"@, Json::Text("izi-router"@)),
    )
}

/// The list of models: one entry for each tier, in order.
pub open spec fn model_list(tiers: Seq<Tier>) -> Json {
    Json::Object(
        Map::empty().insert("object"@, Json::Text("list"@)).insert(
            "data"@,
            Json::Array(tiers.map_values(|t: Tier| model_entry(t))),
        ),
    )
}

/// The list of models.
pub fn list_models(tiers: &[Tier]) -> (res: Value)
    ensures
        contents(res) == model_list(tiers@),
{
    let mut models: Vec<Value> = Vec::new();
    let mut k: usize = 0;
    while k < tiers.len()
        invariant
            k <= tiers@.len(),
            models@.len() == k,
            forall|j: int| 0 <= j < k ==> contents(#[trigger] models@[j]) == model_entry(tiers@[j]),
        decreases tiers@.len() - k,
    {
        let mut entry = object_value();
        set_field(&mut entry, "id", string_value(tiers[k].model.clone()));
        set_field(&mut entry, "object", string_value("model".to_owned()));
        set_field(&mut entry, "owned_by", string_value("izi-router".to_owned()));
        models.push(entry);
        k += 1;
    }
    assert(all_contents(models@) =~= tiers@.map_values(|t: Tier| model_entry(t)));
    let mut list = object_value();
    set_field(&mut list, "object", string_value("list".to_owned()));
    set_field(&mut list, "data", array_value(models));
    list
}

/// The body of an error reply.
pub open spec fn error_body(message: Seq<char>) -> Json {
    Json::Object(Map::empty().insert("error"@, Json::Text(message)))
}

fn error_value(message: String) -> (res: Value)
    ensures
        contents(res) == error_body(message@),
{
    let mut body = object_value();
    set_field(&mut body, "error", string_value(message));
    body
}

/// The status and the body of the reply to a client that did not send the shared secret.
pub fn refused() -> (res: (u16, Value))
    ensures
        res.0 == 401,
        contents(res.1) == error_body("Clé proxy invalide"@),
{
    (401, error_value("Clé proxy invalide".to_owned()))
}

/// The status and the body of the reply to a request that is not a chat request.
pub fn invalid_request(detail: &str) -> (res: (u16, Value))
    ensures
        res.0 == 400,
        contents(res.1) == error_body("Requête invalide: "@ + detail@),
{
    let mut message = "Requête invalide: ".to_owned();
    message.append(detail);
    (400, error_value(message))
}

/// The status and the body of the reply to a request that the provider did not answer.
pub fn proxy_failure(detail: &str) -> (res: (u16, Value))
    ensures
        res.0 == 502,
        contents(res.1) == error_body("Erreur proxy: "@ + detail@),
{
    let mut message = "Erreur proxy: ".to_owned();
    message.append(detail);
    (502, error_value(message))
}

/// The status and the body of the reply to a client that asks for the models.
pub fn answer_models(config: &TiersConfig, sent: Option<&str>) -> (res: (u16, Value))
    ensures
        if config.lets_in(key_view(sent)) {
            res.0 == 200 && contents(res.1) == model_list(config.tiers@)
        } else {
            res.0 == 401 && contents(res.1) == error_body("Clé proxy invalide"@)
        },
{
    if config.admits(sent) {
        (200, list_models(config.tiers.as_slice()))
    } else {
        refused()
    }
}

/// How the service goes on with a request.
#[derive(Debug)]
pub enum ChatStep<'a> {
    /// Answer with an error
    Answer { status: u16, body: Value },
    /// Send the request to the provider of the tier that was selected for the reason
    Forward { tier: Cow<'a, Tier>, reason: String, request: UpstreamRequest },
}

/// The step that a request calls for:
/// - a client that did not send the shared secret is refused;
/// - a body that is no chat request is reported as invalid;
/// - a chat request goes to the tier that is selected for it.
pub open spec fn is_step<'a>(
    config: TiersConfig,
    sent: Option<Seq<char>>,
    body: Json,
    request: Result<ChatRequest, String>,
    step: ChatStep<'a>,
) -> bool {
    if !config.lets_in(sent) {
        step matches ChatStep::Answer { status, body: reply } && status == 401 && contents(reply)
            == error_body("Clé proxy invalide"@)
    } else {
        match (request, step) {
            (Err(detail), ChatStep::Answer { status, body: reply }) => status == 400 && contents(
                reply,
            ) == error_body("Requête invalide: "@ + detail@),
            (Ok(chat), ChatStep::Forward { tier, reason, request: upstream }) => routed(
                config,
                conversation_matches(config.tiers@, chat.messages@),
                complexity(chat.messages@, config.keywords),
                tier,
                reason@,
            ) && upstream.sends(chosen(tier), body),
            _ => false,
        }
    }
}

/// The request can be dealt with: where it is a chat request that is let in, a tier can
/// be selected for it, and its body can have a `model` field.
pub open spec fn can_step(
    config: TiersConfig,
    sent: Option<Seq<char>>,
    body: Json,
    request: Result<ChatRequest, String>,
) -> bool {
    config.lets_in(sent) ==> match request {
        Ok(chat) => routable(config, chat.messages@) && takes_fields(body),
        Err(_) => true,
    }
}

/// Decides on a request to the completions endpoint, given the key that the client sent,
/// the body, and what the body was found to be: a chat request, or no such request for
/// the given reason.
pub fn chat_completions<'a>(
    config: &'a TiersConfig,
    sent: Option<&str>,
    body: Value,
    request: Result<ChatRequest, String>,
) -> (res: ChatStep<'a>)
    requires
        can_step(*config, key_view(sent), contents(body), request),
    ensures
        is_step(*config, key_view(sent), contents(body), request, res),
{
    if !config.admits(sent) {
        let (status, reply) = refused();
        return ChatStep::Answer { status, body: reply };
    }
    match request {
        Err(detail) => {
            let (status, reply) = invalid_request(detail.as_str());
            ChatStep::Answer { status, body: reply }
        },
        Ok(chat) => {
            let (tier, reason) = select_tier(config, chat.messages.as_slice());
            let request = match &tier {
                Cow::Borrowed(t) => forward_request(t, body),
                Cow::Owned(t) => forward_request(t, body),
            };
            ChatStep::Forward { tier, reason, request }
        },
    }
}

/// Decides on a request as [`chat_completions`] does, or not at all where the
/// configuration has no tier for the conversation or the body cannot have a `model`
/// field.
pub fn try_chat_completions<'a>(
    config: &'a TiersConfig,
    sent: Option<&str>,
    body: Value,
    request: Result<ChatRequest, String>,
) -> (res: Option<ChatStep<'a>>)
    ensures
        match res {
            Some(step) => can_step(*config, key_view(sent), contents(body), request) && is_step(
                *config,
                key_view(sent),
                contents(body),
                request,
                step,
            ),
            None => !can_step(*config, key_view(sent), contents(body), request),
        },
{
    if config.admits(sent) {
        if let Ok(chat) = &request {
            if !(body.is_object() || body.is_null()) || !is_routable(
                config,
                chat.messages.as_slice(),
            ) {
                return None;
            }
        }
    }
    Some(chat_completions(config, sent, body, request))
}

/// The headers that tell the client which tier and model were selected, and why.
pub fn routing_headers(tier: &Tier, reason: &str) -> (res: Vec<(String, String)>)
    ensures
        header_views(res@) == seq![
            ("X-iziRouter-Tier"@, tier.name@),
            ("X-iziRouter-Model"@, tier.model@),
            ("X-iziRouter-Reason"@, reason@),
        ],
{
    let mut res: Vec<(String, String)> = Vec::new();
    res.push(("X-iziRouter-Tier".to_owned(), tier.name.clone()));
    res.push(("X-iziRouter-Model".to_owned(), tier.model.clone()));
    res.push(("X-iziRouter-Reason".to_owned(), reason.to_owned()));
    assert(header_views(res@) =~= seq![
        ("X-iziRouter-Tier"@, tier.name@),
        ("X-iziRouter-Model"@, tier.model@),
        ("X-iziRouter-Reason"@, reason@),
    ]);
    res
}

/// Nothing is sent upstream for a client that did not send the shared secret.
pub proof fn law_no_key_no_forwarding<'a>(
    config: TiersConfig,
    sent: Option<Seq<char>>,
    body: Json,
    request: Result<ChatRequest, String>,
    step: ChatStep<'a>,
)
    requires
        config.proxy_key matches Some(secret) && sent != Some(secret@),
        is_step(config, sent, body, request, step),
    ensures
        step is Answer,
{
}

/// The service selects the tier that the router selects.
pub proof fn law_service_agrees_with_router<'a>(
    config: TiersConfig,
    matches: Seq<Seq<Seq<char>>>,
    score: nat,
    tier: Cow<'a, Tier>,
    reason: Seq<char>,
    other: Cow<'a, Tier>,
    other_reason: Seq<char>,
)
    requires
        routed(config, matches, score, tier, reason),
        crate::routing::routed(config, matches, score, other, other_reason),
    ensures
        same_tier(chosen(tier), chosen(other)),
{
    let tiers = config.tiers@;
    if !no_match(matches) {
        let v = choose|v: int| #[trigger]
            wins(tiers, matches, v) && tier == Cow::<'a, Tier>::Borrowed(&tiers[v]) && reason
                == match_report(tiers[v], matches[v]);
        let w = choose|w: int| #[trigger]
            wins(tiers, matches, w) && other == Cow::<'a, Tier>::Borrowed(&tiers[w])
                && other_reason == domain_reason(tiers[w], matches[w]);
        law_one_winner(tiers, matches, v, w);
    } else if config.fallback is Some {
        assert(views(chosen(tier).keywords@) =~= views(chosen(other).keywords@));
    }
}

/// Where the fallback comes from the environment, a conversation that matches no keyword
/// goes to DeepSeek Pro where it scores at least 3, and to DeepSeek Flash otherwise.
pub proof fn law_deepseek_models<'a>(
    raw: RawAppConfig,
    config: TiersConfig,
    keywords: Source<RawScoringKeywords>,
    env: Map<Seq<char>, Seq<char>>,
    matches: Seq<Seq<Seq<char>>>,
    score: nat,
    tier: Cow<'a, Tier>,
    reason: Seq<char>,
)
    requires
        raw.takes_deepseek(env),
        raw.gives(config, keywords, env),
        !env.contains_key("FLASH_MODEL"@),
        !env.contains_key("PRO_MODEL"@),
        no_match(matches),
        routed(config, matches, score, tier, reason),
    ensures
        chosen(tier).model@ == if score >= 3 {
            "deepseek-v4-pro"@
        } else {
            "deepseek-v4-flash"@
        },
{
}

/// The numeral of a port in `PORT` gives that port.
pub proof fn law_port_variable(env: Map<Seq<char>, Seq<char>>, port: u16)
    requires
        env.contains_key("PORT"@),
        env["PORT"@] == decimal(port as nat),
    ensures
        listening_port(env) == port,
{
    law_numeral_of_a_number(port as nat);
}

/// The port of the service is the one in the file, or else the one in `PORT`.
pub proof fn law_port(
    raw: RawAppConfig,
    config: TiersConfig,
    keywords: Source<RawScoringKeywords>,
    env: Map<Seq<char>, Seq<char>>,
)
    requires
        raw.gives(config, keywords, env),
    ensures
        raw.port matches Some(port) ==> config.port == port,
        raw.port is None && !env.contains_key("PORT"@) ==> config.port == 8001,
        raw.port is None && env.contains_key("PORT"@) && is_numeral(env["PORT"@]) && numeral_value(
            env["PORT"@],
        ) <= 65535 ==> config.port == numeral_value(env["PORT"@]),
{
}

/// The service keeps the address, the shared secret and the tiers of the file, the last
/// with their base URLs and keys resolved.
pub proof fn law_service_keeps_what_the_file_says(
    raw: RawAppConfig,
    config: TiersConfig,
    keywords: Source<RawScoringKeywords>,
    env: Map<Seq<char>, Seq<char>>,
    k: int,
)
    requires
        raw.gives(config, keywords, env),
    ensures
        config.host@ == raw.host@,
        config.proxy_key is Some <==> raw.proxy_key is Some,
        config.proxy_key is Some ==> config.proxy_key->0@ == raw.proxy_key->0@,
        config.tiers@.len() == raw.tiers@.len(),
        config.keywords.loads(keywords),
        0 <= k < raw.tiers@.len() ==> {
            &&& config.tiers@[k].name@ == raw.tiers@[k].model@
            &&& config.tiers@[k].model@ == raw.tiers@[k].model@
            &&& config.tiers@[k].api_base@ == resolved(raw.tiers@[k].api_base@, env)
            &&& config.tiers@[k].api_key@ == resolved(raw.tiers@[k].api_key@, env)
            &&& config.tiers@[k].auth_header@ == raw.tiers@[k].auth_header@
            &&& config.tiers@[k].keywords@ == raw.tiers@[k].keywords@
            &&& config.tiers@[k].weight == raw.tiers@[k].weight
            &&& config.tiers@[k].default == raw.tiers@[k].default
        },
{
    if 0 <= k < raw.tiers@.len() {
        law_resolved_tiers(config.tiers@, raw.tiers@, env, k);
    }
}

/// The fallback of the file is the fallback of the service, with its base URLs and keys
/// resolved.
pub proof fn law_fallback_of_the_file(
    raw: RawAppConfig,
    config: TiersConfig,
    keywords: Source<RawScoringKeywords>,
    env: Map<Seq<char>, Seq<char>>,
)
    requires
        raw.gives(config, keywords, env),
        raw.fallback is Some,
    ensures
        config.fallback is Some,
        config.fallback->0.threshold == raw.fallback->0.threshold,
        config.fallback->0.simple.model@ == raw.fallback->0.simple.model@,
        config.fallback->0.simple.api_base@ == resolved(raw.fallback->0.simple.api_base@, env),
        config.fallback->0.simple.api_key@ == resolved(raw.fallback->0.simple.api_key@, env),
        config.fallback->0.simple.auth_header@ == raw.fallback->0.simple.auth_header@,
        config.fallback->0.complex.model@ == raw.fallback->0.complex.model@,
        config.fallback->0.complex.api_base@ == resolved(raw.fallback->0.complex.api_base@, env),
        config.fallback->0.complex.api_key@ == resolved(raw.fallback->0.complex.api_key@, env),
        config.fallback->0.complex.auth_header@ == raw.fallback->0.complex.auth_header@,
{
    law_resolved_fallback(config.fallback->0, raw.fallback->0, env);
}

/// Without a fallback in the file, the service has one exactly where the file has no
/// default tier either and `DEEPSEEK_API_KEY` is defined.
pub proof fn law_fallback_of_the_environment(
    raw: RawAppConfig,
    config: TiersConfig,
    keywords: Source<RawScoringKeywords>,
    env: Map<Seq<char>, Seq<char>>,
)
    requires
        raw.gives(config, keywords, env),
        raw.fallback is None,
    ensures
        config.fallback is Some <==> env.contains_key("DEEPSEEK_API_KEY"@) && forall|k: int|
            0 <= k < raw.tiers@.len() ==> !(#[trigger] raw.tiers@[k]).default,
        config.fallback is Some ==> is_deepseek_fallback(config.fallback->0, env),
{
}

/// The fallback of the environment: both tiers have the key in `DEEPSEEK_API_KEY` as a
/// bearer token and the base URL in `DEEPSEEK_API_BASE`. The models are those in
/// `FLASH_MODEL` and `PRO_MODEL`, and each of the three variables has a default.
pub proof fn law_settings_of_the_fallback(
    fallback: FallbackConfig,
    env: Map<Seq<char>, Seq<char>>,
)
    requires
        is_deepseek_fallback(fallback, env),
        env.contains_key("DEEPSEEK_API_KEY"@),
    ensures
        fallback.threshold == 3,
        fallback.simple.api_key@ == env["DEEPSEEK_API_KEY"@],
        fallback.complex.api_key@ == env["DEEPSEEK_API_KEY"@],
        fallback.simple.auth_header@ == "Bearer"@,
        fallback.complex.auth_header@ == "Bearer"@,
        fallback.simple.api_base@ == fallback.complex.api_base@,
        env.contains_key("DEEPSEEK_API_BASE"@) ==> fallback.simple.api_base@
            == env["DEEPSEEK_API_BASE"@],
        !env.contains_key("DEEPSEEK_API_BASE"@) ==> fallback.simple.api_base@
            == "https://api.deepseek.com"@,
        env.contains_key("FLASH_MODEL"@) ==> fallback.simple.model@ == env["FLASH_MODEL"@],
        !env.contains_key("FLASH_MODEL"@) ==> fallback.simple.model@ == "deepseek-v4-flash"@,
        env.contains_key("PRO_MODEL"@) ==> fallback.complex.model@ == env["PRO_MODEL"@],
        !env.contains_key("PRO_MODEL"@) ==> fallback.complex.model@ == "deepseek-v4-pro"@,
{
}

/// The message names the file, and the reason where there is one.
pub proof fn law_service_error_message(error: ConfigError)
    ensures
        error.fault matches ConfigFault::Unreadable(e) ==> error_view(error)
            == "Impossible de lire "@ + error.path@ + ": "@ + e@,
        error.fault matches ConfigFault::InvalidYaml(e) ==> error_view(error)
            == "YAML invalide dans "@ + error.path@ + ": "@ + e@,
        error.fault is NoTier ==> error_view(error) == "Aucun tier défini dans "@ + error.path@,
        error.fault is NoDefault ==> error_view(error) == "Aucun tier avec `default: true` dans "@
            + error.path@,
{
}

/// Where a keyword matches, the service selects the winner. The reason gives its name, its
/// matches and the product of their number and its weight.
pub proof fn law_service_domain_selection<'a>(
    config: TiersConfig,
    matches: Seq<Seq<Seq<char>>>,
    score: nat,
    tier: Cow<'a, Tier>,
    reason: Seq<char>,
) -> (w: int)
    requires
        !no_match(matches),
        routed(config, matches, score, tier, reason),
    ensures
        wins(config.tiers@, matches, w),
        chosen(tier) == config.tiers@[w],
        reason == config.tiers@[w].name@ + " (matches: ["@ + joined(matches[w], ", "@)
            + "], score: "@ + decimal(matches[w].len() * config.tiers@[w].weight as nat) + ")"@,
{
    choose|w: int| #[trigger]
        wins(config.tiers@, matches, w) && tier == Cow::<'a, Tier>::Borrowed(&config.tiers@[w])
            && reason == match_report(config.tiers@[w], matches[w])
}

/// Where no keyword matches, the service selects the fallback tier on the side of the
/// score, and without a fallback the first default tier.
pub proof fn law_service_last_resort<'a>(
    config: TiersConfig,
    matches: Seq<Seq<Seq<char>>>,
    score: nat,
    tier: Cow<'a, Tier>,
    reason: Seq<char>,
)
    requires
        no_match(matches),
        routed(config, matches, score, tier, reason),
    ensures
        config.fallback matches Some(fallback) ==> {
            let side = if score >= fallback.threshold {
                fallback.complex
            } else {
                fallback.simple
            };
            let level = if score >= fallback.threshold {
                "high"@
            } else {
                "low"@
            };
            &&& chosen(tier).model@ == side.model@
            &&& chosen(tier).api_base@ == side.api_base@
            &&& chosen(tier).api_key@ == side.api_key@
            &&& chosen(tier).auth_header@ == side.auth_header@
            &&& reason == "complexity: "@ + level + " (score: "@ + decimal(score)
                + ", threshold: "@ + decimal(fallback.threshold as nat) + ")"@
        },
        config.fallback is None ==> reason == "default (aucun mot-clé matché)"@ && exists|d: int|
            {
                &&& 0 <= d < config.tiers@.len()
                &&& chosen(tier) == #[trigger] config.tiers@[d]
                &&& config.tiers@[d].default
                &&& forall|j: int| 0 <= j < d ==> !(#[trigger] config.tiers@[j]).default
            },
{
    if config.fallback is None {
        let d = choose|d: int| #[trigger]
            is_first_default(config.tiers@, d) && tier == Cow::<'a, Tier>::Borrowed(
                &config.tiers@[d],
            ) && reason == "default (aucun mot-clé matché)"@;
        assert(chosen(tier) == config.tiers@[d]);
    }
}

/// A list of models has one entry for each tier, in order, under the model of the tier.
pub proof fn law_models_listed(tiers: Seq<Tier>, k: int)
    ensures
        model_list(tiers) matches Json::Object(list) && {
            &&& list.dom() == set!["object"@, "data"@]
            &&& list["object"@] == Json::Text("list"@)
            &&& list["data"@] matches Json::Array(entries) && {
                &&& entries.len() == tiers.len()
                &&& 0 <= k < tiers.len() ==> (entries[k] matches Json::Object(entry) && {
                    &&& entry.dom() == set!["id"@, "object"@, "owned_by"@]
                    &&& entry["id"@] == Json::Text(tiers[k].model@)
                    &&& entry["object"@] == Json::Text("model"@)
                    &&& entry["owned_by"@] == Json::Text("izi-router"@)
                })
            }
        },
{
    reveal_strlit("object");
    reveal_strlit("data");
    reveal_strlit("id");
    reveal_strlit("owned_by");
    assert("object"@.len() == 6 && "data"@.len() == 4 && "id"@.len() == 2 && "owned_by"@.len()
        == 8);
    assert(model_list(tiers)->Object_0.dom() =~= set!["object"@, "data"@]);
    assert(model_entry(tiers[k])->Object_0.dom() =~= set!["id"@, "object"@, "owned_by"@]);
}

/// The body of an error reply has the field `error` with the message, and no other.
pub proof fn law_error_body(message: Seq<char>)
    ensures
        error_body(message) == Json::Object(
            Map::<Seq<char>, Json>::empty().insert("error"@, Json::Text(message)),
        ),
{
}

/// A client that did not send the shared secret is answered with status 401.
pub proof fn law_refusal<'a>(
    config: TiersConfig,
    sent: Option<Seq<char>>,
    body: Json,
    request: Result<ChatRequest, String>,
    step: ChatStep<'a>,
)
    requires
        config.proxy_key matches Some(secret) && sent != Some(secret@),
        is_step(config, sent, body, request, step),
    ensures
        step matches ChatStep::Answer { status, body: reply } && status == 401 && contents(reply)
            == Json::Object(
            Map::<Seq<char>, Json>::empty().insert("error"@, Json::Text("Clé proxy invalide"@)),
        ),
{
}

/// A client that is let in and sent no chat request is answered with status 400 and the
/// reason.
pub proof fn law_invalid_request_is_reported<'a>(
    config: TiersConfig,
    sent: Option<Seq<char>>,
    body: Json,
    detail: String,
    step: ChatStep<'a>,
)
    requires
        config.proxy_key matches Some(secret) ==> sent == Some(secret@),
        is_step(config, sent, body, Err(detail), step),
    ensures
        step matches ChatStep::Answer { status, body: reply } && status == 400 && contents(reply)
            == Json::Object(
            Map::<Seq<char>, Json>::empty().insert(
                "error"@,
                Json::Text("Requête invalide: "@ + detail@),
            ),
        ),
{
}

/// A chat request that is let in is forwarded to the selected tier: to its base URL, with
/// its model and nothing else changed in the body, and with its key.
pub proof fn law_chat_is_forwarded<'a>(
    config: TiersConfig,
    sent: Option<Seq<char>>,
    body: Json,
    chat: ChatRequest,
    step: ChatStep<'a>,
)
    requires
        config.proxy_key matches Some(secret) ==> sent == Some(secret@),
        is_step(config, sent, body, Ok(chat), step),
    ensures
        step matches ChatStep::Forward { tier, reason, request } && {
            &&& routed(
                config,
                conversation_matches(config.tiers@, chat.messages@),
                complexity(chat.messages@, config.keywords),
                tier,
                reason@,
            )
            &&& request.url@ == chosen(tier).api_base@ + "/v1/chat/completions"@
            &&& body matches Json::Object(map) ==> contents(request.body) == Json::Object(
                map.insert("model"@, Json::Text(chosen(tier).model@)),
            )
            &&& request.headers@.len() == 2
            &&& chosen(tier).auth_header@ == "Bearer"@ ==> request.headers@[1].0@
                == "Authorization"@ && request.headers@[1].1@ == "Bearer "@ + chosen(tier).api_key@
            &&& chosen(tier).auth_header@ != "Bearer"@ ==> request.headers@[1].0@ == chosen(
                tier,
            ).auth_header@ && request.headers@[1].1@ == chosen(tier).api_key@
            &&& request.stream <==> (body matches Json::Object(map) && map.contains_key("stream"@)
                && map["stream"@] == Json::Bool(true))
        },
{
    if let ChatStep::Forward { tier, reason, request } = step {
        law_where_and_what_is_sent(request, chosen(tier), body);
        law_request_headers(request, chosen(tier), body);
    }
}

/// A configuration with a fallback or a default tier can deal with every chat request
/// whose body is a JSON object, and any configuration with whatever is no chat request.
pub proof fn law_every_request_is_dealt_with(
    config: TiersConfig,
    sent: Option<Seq<char>>,
    body: Json,
    request: Result<ChatRequest, String>,
    d: int,
)
    ensures
        request is Err ==> can_step(config, sent, body, request),
        (body is Object || body is Null) && (config.fallback is Some || 0 <= d
            < config.tiers@.len() && config.tiers@[d].default) ==> can_step(
            config,
            sent,
            body,
            request,
        ),
        config.proxy_key matches Some(secret) && sent != Some(secret@) ==> can_step(
            config,
            sent,
            body,
            request,
        ),
        config.proxy_key is None && request is Ok && !(body is Object || body is Null)
            ==> !can_step(config, sent, body, request),
{
}

} // verus!
