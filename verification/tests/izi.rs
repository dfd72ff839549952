use router_crabs::izi::{
    answer_models, chat_completions, deepseek_fallback, error_message, invalid_request,
    list_models, listen_address, load_config, port_from_environment, proxy_failure, refused, route,
    routing_headers, select_tier, try_chat_completions, ChatStep, RawAppConfig, SETTINGS,
};
use router_crabs::{
    ChatRequest, ConfigError, ConfigFault, Environment, Message, MessageContent,
    RawFallbackConfig, RawFallbackTier, RawScoringKeywords, RawTier, ScoringKeywords, Source,
    TiersConfig,
};
use serde_json::Value;
use std::borrow::Cow;

fn raw_tier(model: &str, keyword: &str, default: bool) -> RawTier {
    RawTier {
        model: model.to_string(),
        api_base: "https://${HOST}".to_string(),
        api_key: "key".to_string(),
        auth_header: "Bearer".to_string(),
        keywords: vec![keyword.to_string()],
        weight: 2,
        default,
    }
}

fn raw_fallback() -> RawFallbackConfig {
    let tier = |model: &str| RawFallbackTier {
        model: model.to_string(),
        api_base: "https://api.deepseek.com".to_string(),
        api_key: "${DEEPSEEK_API_KEY}".to_string(),
        auth_header: "Bearer".to_string(),
    };
    RawFallbackConfig {
        threshold: 3,
        simple: tier("deepseek-v4-flash"),
        complex: tier("deepseek-v4-pro"),
    }
}

fn raw_config(tiers: Vec<RawTier>, fallback: Option<RawFallbackConfig>) -> RawAppConfig {
    RawAppConfig {
        port: None,
        host: "127.0.0.1".to_string(),
        proxy_key: None,
        keywords_path: "keywords.yaml".to_string(),
        tiers,
        fallback,
    }
}

fn environment(vars: &[(&str, &str)]) -> Environment {
    let mut env = Environment::new();
    for (name, value) in vars {
        env.set(name.to_string(), value.to_string());
    }
    env
}

fn load_in(raw: RawAppConfig, env: &Environment) -> Result<TiersConfig, ConfigError> {
    load_config("tiers.yaml", Source::Parsed(raw), Source::Unreadable(String::new()), env)
}

fn load(tiers: Vec<RawTier>) -> Result<TiersConfig, ConfigError> {
    load_in(raw_config(tiers, None), &environment(&[("HOST", "example.com")]))
}

fn config() -> TiersConfig {
    load(vec![raw_tier("flash", "bonjour", true), raw_tier("pro", "rust", false)]).unwrap()
}

/// A domain tier, none of them the default, and a fallback.
fn documented_config() -> TiersConfig {
    let raw = RawAppConfig {
        port: Some(8001),
        ..raw_config(vec![raw_tier("agrillm-v2", "agriculture", false)], Some(raw_fallback()))
    };
    load_in(raw, &environment(&[("DEEPSEEK_API_KEY", "sk-1")])).unwrap()
}

fn message(text: &str) -> Message {
    Message {
        role: "user".to_string(),
        content: Some(MessageContent::Text(text.to_string())),
    }
}

fn chat(text: &str) -> Result<ChatRequest, String> {
    Ok(ChatRequest { messages: vec![message(text)], stream: None })
}

fn parse(text: &str) -> Value {
    serde_json::from_str(text).unwrap()
}

/// The model that a prompt is forwarded to.
fn model_for(config: &TiersConfig, text: &str) -> String {
    match try_chat_completions(config, None, parse(r#"{"messages": []}"#), chat(text)) {
        Some(ChatStep::Forward { tier, request, .. }) => {
            assert_eq!(request.body["model"], tier.model.as_str());
            tier.model.clone()
        }
        _ => unreachable!(),
    }
}

#[test]
fn service_config_loads() {
    let config = load(vec![raw_tier("flash", "x", true)]).unwrap();
    assert_eq!(config.port, 8001);
    assert_eq!(config.host, "127.0.0.1");
    assert_eq!(config.proxy_key, None);
    assert_eq!(config.tiers[0].name, "flash");
    assert_eq!(config.tiers[0].api_base, "https://example.com");
    assert!(config.fallback.is_none());
}

#[test]
fn service_config_with_fallback_and_no_default_tier() {
    let config = documented_config();
    assert_eq!(config.port, 8001);
    let fallback = config.fallback.as_ref().unwrap();
    assert_eq!(fallback.threshold, 3);
    assert_eq!(fallback.simple.api_key, "sk-1");

    assert_eq!(model_for(&config, "Hello!"), "deepseek-v4-flash");
    assert_eq!(
        model_for(&config, "Explain the architecture of a distributed system with docker"),
        "deepseek-v4-pro"
    );
    assert_eq!(model_for(&config, "Agriculture today"), "agrillm-v2");
}

#[test]
fn service_config_keeps_proxy_key_and_keywords() {
    let raw = RawAppConfig {
        proxy_key: Some("secret".to_string()),
        host: "0.0.0.0".to_string(),
        ..raw_config(vec![raw_tier("flash", "x", true)], None)
    };
    let keywords = RawScoringKeywords {
        code_markers: Some(vec!["defun".to_string()]),
        technical_keywords: None,
        question_words: None,
    };
    let config = load_config(
        "tiers.yaml",
        Source::Parsed(raw),
        Source::Parsed(keywords),
        &Environment::new(),
    )
    .unwrap();
    assert_eq!(config.proxy_key.as_deref(), Some("secret"));
    assert_eq!(config.host, "0.0.0.0");
    assert_eq!(config.keywords.code_markers, vec!["defun".to_string()]);
}

#[test]
fn service_config_errors() {
    let error = load(vec![]).unwrap_err();
    assert!(matches!(error.fault, ConfigFault::NoTier));
    assert_eq!(error_message(&error), "Aucun tier défini dans tiers.yaml");

    let error = load(vec![raw_tier("pro", "x", false)]).unwrap_err();
    assert!(matches!(error.fault, ConfigFault::NoDefault));
    assert_eq!(error_message(&error), "Aucun tier avec `default: true` dans tiers.yaml");

    let env = Environment::new();
    let keywords = || Source::Unreadable(String::new());
    let error = load_config("t.yaml", Source::Unreadable("absent".to_string()), keywords(), &env)
        .unwrap_err();
    assert_eq!(error_message(&error), "Impossible de lire t.yaml: absent");
    let error = load_config("t.yaml", Source::Malformed("ligne 1".to_string()), keywords(), &env)
        .unwrap_err();
    assert_eq!(error_message(&error), "YAML invalide dans t.yaml: ligne 1");
}

#[test]
fn service_config_is_checked() {
    let env = Environment::new();
    assert!(raw_config(vec![], Some(raw_fallback())).check(&env).is_ok());
    assert!(raw_config(vec![raw_tier("flash", "x", true)], None).check(&env).is_ok());
    assert!(matches!(raw_config(vec![], None).check(&env), Err(ConfigFault::NoTier)));
    assert!(matches!(
        raw_config(vec![raw_tier("pro", "x", false)], None).check(&env),
        Err(ConfigFault::NoDefault)
    ));
    let env = environment(&[("DEEPSEEK_API_KEY", "sk-1")]);
    assert!(raw_config(vec![], None).check(&env).is_ok());
}

#[test]
fn port_variable() {
    let port = |value: &str| port_from_environment(&environment(&[("PORT", value)]));
    assert_eq!(port_from_environment(&Environment::new()), 8001);
    assert_eq!(port("9000"), 9000);
    assert_eq!(port("0"), 0);
    assert_eq!(port("65535"), 65535);
    assert_eq!(port("65536"), 8001);
    assert_eq!(port(""), 8001);
    assert_eq!(port("80a"), 8001);
    assert_eq!(port("-1"), 8001);
}

#[test]
fn port_of_the_file_comes_first() {
    let env = environment(&[("PORT", "9000")]);
    let raw = |port| RawAppConfig { port, ..raw_config(vec![], Some(raw_fallback())) };
    assert_eq!(load_in(raw(None), &env).unwrap().port, 9000);
    assert_eq!(load_in(raw(Some(7000)), &env).unwrap().port, 7000);
    assert_eq!(load_in(raw(None), &Environment::new()).unwrap().port, 8001);
}

#[test]
fn address_to_listen_on() {
    assert_eq!(listen_address(&config()), "127.0.0.1:8001");
}

#[test]
fn models_of_the_environment() {
    let env = environment(&[("DEEPSEEK_API_KEY", "sk-1")]);
    let fallback = deepseek_fallback(&env);
    assert_eq!(fallback.threshold, 3);
    assert_eq!(fallback.simple.model, "deepseek-v4-flash");
    assert_eq!(fallback.complex.model, "deepseek-v4-pro");
    assert_eq!(fallback.complex.api_base, "https://api.deepseek.com");
    assert_eq!(fallback.complex.api_key, "sk-1");
    assert_eq!(fallback.complex.auth_header, "Bearer");

    let config = load_in(raw_config(vec![], None), &env).unwrap();
    assert_eq!(model_for(&config, "Hello!"), "deepseek-v4-flash");
    assert_eq!(
        model_for(&config, "Explain the architecture of a distributed system with docker"),
        "deepseek-v4-pro"
    );

    let env = environment(&[
        ("DEEPSEEK_API_KEY", "sk-1"),
        ("DEEPSEEK_API_BASE", "https://proxy"),
        ("FLASH_MODEL", "small"),
        ("PRO_MODEL", "large"),
    ]);
    let fallback = deepseek_fallback(&env);
    assert_eq!(fallback.simple.model, "small");
    assert_eq!(fallback.complex.model, "large");
    assert_eq!(fallback.simple.api_base, "https://proxy");
}

#[test]
fn file_comes_before_the_models_of_the_environment() {
    let env = environment(&[("DEEPSEEK_API_KEY", "sk-1"), ("PRO_MODEL", "large")]);
    let config = load_in(raw_config(vec![raw_tier("flash", "x", true)], None), &env).unwrap();
    assert!(config.fallback.is_none());
    let config = load_in(raw_config(vec![], Some(raw_fallback())), &env).unwrap();
    assert_eq!(config.fallback.unwrap().complex.model, "deepseek-v4-pro");
}

#[test]
fn settings_are_named() {
    for name in ["PORT", "DEEPSEEK_API_KEY", "DEEPSEEK_API_BASE", "FLASH_MODEL", "PRO_MODEL"] {
        assert!(SETTINGS.contains(&name));
    }
}

#[test]
fn service_selects_by_keywords() {
    let config = config();
    let (tier, reason) = select_tier(&config, &[message("Du RUST ?")]);
    assert!(matches!(tier, Cow::Borrowed(_)));
    assert_eq!(tier.name, "pro");
    assert_eq!(reason, "pro (matches: [rust], score: 2)");
    let (tier, reason) = select_tier(&config, &[message("...")]);
    assert_eq!(tier.name, "flash");
    assert_eq!(reason, "default (aucun mot-clé matché)");
}

#[test]
fn service_selects_by_complexity() {
    let config = documented_config();
    let (tier, reason) = select_tier(&config, &[message("Hello!")]);
    assert_eq!(tier.name, "simple-fallback");
    assert_eq!(reason, router_crabs::select_tier(&config, &[message("Hello!")]).1);
}

#[test]
fn service_routes_given_matches() {
    let config = config();
    let (tier, _) = route(&config, &[vec![], vec!["rust".to_string()]], 0);
    assert_eq!(tier.name, "pro");
    let (tier, _) = route(&config, &[vec![], vec![]], 15);
    assert_eq!(tier.name, "flash");

    let config = documented_config();
    assert_eq!(route(&config, &[vec![]], 2).0.model, "deepseek-v4-flash");
    assert_eq!(route(&config, &[vec![]], 3).0.model, "deepseek-v4-pro");
    assert_eq!(route(&config, &[vec!["agriculture".to_string()]], 3).0.model, "agrillm-v2");
}

#[test]
fn models_are_listed() {
    assert_eq!(
        list_models(&config().tiers),
        parse(
            r#"{"object": "list", "data": [
                {"id": "flash", "object": "model", "owned_by": "izi-router"},
                {"id": "pro", "object": "model", "owned_by": "izi-router"}
            ]}"#
        )
    );
    assert_eq!(list_models(&[]), parse(r#"{"object": "list", "data": []}"#));
}

#[test]
fn models_are_for_clients_with_the_key() {
    let mut config = config();
    assert_eq!(answer_models(&config, None), (200, list_models(&config.tiers)));
    config.proxy_key = Some("secret".to_string());
    assert_eq!(answer_models(&config, Some("secret")), (200, list_models(&config.tiers)));
    assert_eq!(answer_models(&config, Some("Secret")), refused());
    assert_eq!(answer_models(&config, None), refused());
}

#[test]
fn error_replies() {
    assert_eq!(refused(), (401, parse(r#"{"error": "Clé proxy invalide"}"#)));
    assert_eq!(
        invalid_request("missing field"),
        (400, parse(r#"{"error": "Requête invalide: missing field"}"#))
    );
    assert_eq!(
        proxy_failure("Upstream error 500: oops"),
        (502, parse(r#"{"error": "Erreur proxy: Upstream error 500: oops"}"#))
    );
}

#[test]
fn headers_tell_the_choice() {
    let config = config();
    assert_eq!(
        routing_headers(&config.tiers[1], "why"),
        vec![
            ("X-iziRouter-Tier".to_string(), "pro".to_string()),
            ("X-iziRouter-Model".to_string(), "pro".to_string()),
            ("X-iziRouter-Reason".to_string(), "why".to_string()),
        ]
    );
}

#[test]
fn chat_request_is_forwarded() {
    let config = config();
    let body = parse(r#"{"messages": [{"role": "user", "content": "rust"}], "stream": true}"#);
    let chat = ChatRequest { messages: vec![message("rust")], stream: Some(true) };
    match chat_completions(&config, None, body, Ok(chat)) {
        ChatStep::Forward { tier, reason, request } => {
            assert_eq!(tier.name, "pro");
            assert_eq!(reason, "pro (matches: [rust], score: 2)");
            assert_eq!(request.url, "https://example.com/v1/chat/completions");
            assert_eq!(request.body["model"], "pro");
            assert!(request.stream);
        }
        ChatStep::Answer { .. } => unreachable!(),
    }
}

#[test]
fn fallback_tier_is_sent_its_own_key() {
    let config = documented_config();
    match chat_completions(&config, None, parse("{}"), chat("Hello!")) {
        ChatStep::Forward { request, .. } => {
            assert_eq!(request.url, "https://api.deepseek.com/v1/chat/completions");
            assert_eq!(request.body["model"], "deepseek-v4-flash");
            assert!(request
                .headers
                .contains(&("Authorization".to_string(), "Bearer sk-1".to_string())));
        }
        ChatStep::Answer { .. } => unreachable!(),
    }
}

#[test]
fn invalid_chat_request_is_answered() {
    match chat_completions(&config(), None, parse("[]"), Err("no messages".to_string())) {
        ChatStep::Answer { status, body } => {
            assert_eq!(status, 400);
            assert_eq!(body, parse(r#"{"error": "Requête invalide: no messages"}"#));
        }
        ChatStep::Forward { .. } => unreachable!(),
    }
}

#[test]
fn client_without_the_key_is_refused() {
    let mut config = config();
    config.proxy_key = Some("secret".to_string());
    for sent in [None, Some(""), Some("SECRET")] {
        for request in [chat("rust"), Err("no messages".to_string())] {
            match chat_completions(&config, sent, parse("{}"), request) {
                ChatStep::Answer { status, body } => assert_eq!((status, body), refused()),
                ChatStep::Forward { .. } => unreachable!(),
            }
        }
    }
    assert!(matches!(
        chat_completions(&config, Some("secret"), parse("{}"), chat("rust")),
        ChatStep::Forward { .. }
    ));
}

#[test]
fn requests_that_cannot_be_dealt_with() {
    let mut config = config();
    assert!(try_chat_completions(&config, None, parse("[]"), chat("rust")).is_none());
    assert!(try_chat_completions(&config, None, parse("null"), chat("rust")).is_some());
    assert!(try_chat_completions(&config, None, parse("[]"), Err(String::new())).is_some());

    config.tiers[0].default = false;
    assert!(try_chat_completions(&config, None, parse("{}"), chat("...")).is_none());
    assert!(try_chat_completions(&config, None, parse("{}"), chat("rust")).is_some());

    config.proxy_key = Some("secret".to_string());
    assert!(try_chat_completions(&config, None, parse("[]"), chat("...")).is_some());
}

#[test]
fn service_agrees_with_the_router() {
    let without_fallback = TiersConfig { keywords: ScoringKeywords::default(), ..config() };
    for config in [without_fallback, documented_config()] {
        for text in ["rust", "bonjour rust", "agriculture", "...", "Explain the architecture"] {
            let (tier, _) = router_crabs::select_tier(&config, &[message(text)]);
            let (other, _) = select_tier(&config, &[message(text)]);
            assert_eq!(tier.model, other.model);
            assert_eq!(tier.name, other.name);
        }
    }
}
