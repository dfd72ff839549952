use router_crabs::{
    default_auth_header, default_code_markers, default_complexity_threshold, default_host,
    default_keywords_path, default_port, default_question_words, default_technical_keywords,
    default_weight, ConfigFault, Environment, FallbackConfig, RawConfig, RawFallbackConfig,
    RawFallbackTier, RawScoringKeywords, RawTier, ScoringKeywords, Source, Tier, TiersConfig,
};

fn raw_tier(model: &str, default: bool) -> RawTier {
    RawTier {
        model: model.to_string(),
        api_base: "https://${HOST}/api".to_string(),
        api_key: "${KEY}".to_string(),
        auth_header: default_auth_header(),
        keywords: vec!["soil".to_string()],
        weight: 20,
        default,
    }
}

fn raw_fallback() -> RawFallbackConfig {
    let tier = |model: &str| RawFallbackTier {
        model: model.to_string(),
        api_base: "https://${HOST}".to_string(),
        api_key: "${KEY}".to_string(),
        auth_header: "X-Key".to_string(),
    };
    RawFallbackConfig { threshold: 3, simple: tier("flash"), complex: tier("pro") }
}

fn raw_config(tiers: Vec<RawTier>, fallback: Option<RawFallbackConfig>) -> RawConfig {
    RawConfig {
        port: 9000,
        host: "0.0.0.0".to_string(),
        proxy_key: None,
        keywords_path: default_keywords_path(),
        tiers,
        fallback,
    }
}

fn environment() -> Environment {
    let mut env = Environment::new();
    env.set("HOST".to_string(), "example.com".to_string());
    env.set("KEY".to_string(), "k1".to_string());
    env
}

fn no_keywords() -> Source<RawScoringKeywords> {
    Source::Unreadable("not found".to_string())
}

fn load_parsed(raw: RawConfig) -> Result<TiersConfig, router_crabs::ConfigError> {
    TiersConfig::load("tiers.yaml", Source::Parsed(raw), no_keywords(), &environment())
}

#[test]
fn default_values() {
    assert_eq!(default_auth_header(), "Bearer");
    assert_eq!(default_weight(), 1);
    assert_eq!(default_complexity_threshold(), 3);
    assert_eq!(default_port(), 8001);
    assert_eq!(default_host(), "127.0.0.1");
    assert_eq!(default_keywords_path(), "keywords.yaml");
}

#[test]
fn built_in_words() {
    let markers = default_code_markers();
    assert_eq!(markers.len(), 23);
    assert_eq!(markers[0], "```");
    assert_eq!(markers[19], "SELECT ");
    assert_eq!(markers[22], "DELETE ");

    let technical = default_technical_keywords();
    assert_eq!(technical[0], "explique");
    assert!(technical.contains(&"sécurité".to_string()));
    assert!(technical.contains(&"kubernetes".to_string()));
    assert!(technical.contains(&"async".to_string()));
    assert!(technical.contains(&"docker".to_string()));
    assert_eq!(technical.last().unwrap(), "إطار عمل");

    let questions = default_question_words();
    assert_eq!(questions.len(), 29);
    assert_eq!(questions[0], "pourquoi");
    assert_eq!(questions[28], "أي");
}

#[test]
fn keywords_of_a_missing_or_malformed_file() {
    for source in [
        Source::Unreadable("not found".to_string()),
        Source::Malformed("bad".to_string()),
    ] {
        let keywords = ScoringKeywords::load(source);
        assert_eq!(keywords.code_markers, default_code_markers());
        assert_eq!(keywords.technical_keywords, default_technical_keywords());
        assert_eq!(keywords.question_words, default_question_words());
    }
    assert_eq!(ScoringKeywords::default().code_markers, default_code_markers());
}

#[test]
fn keywords_by_section() {
    let keywords = ScoringKeywords::load(Source::Parsed(RawScoringKeywords {
        code_markers: Some(vec!["begin".to_string()]),
        technical_keywords: Some(vec![]),
        question_words: None,
    }));
    assert_eq!(keywords.code_markers, vec!["begin"]);
    assert_eq!(keywords.technical_keywords, default_technical_keywords());
    assert_eq!(keywords.question_words, default_question_words());
}

#[test]
fn tier_is_resolved() {
    let tier = Tier::from_raw(raw_tier("agrillm-v2", true), "agri".to_string(), &environment());
    assert_eq!(tier.name, "agri");
    assert_eq!(tier.model, "agrillm-v2");
    assert_eq!(tier.api_base, "https://example.com/api");
    assert_eq!(tier.api_key, "k1");
    assert_eq!(tier.auth_header, "Bearer");
    assert_eq!(tier.keywords, vec!["soil"]);
    assert_eq!(tier.weight, 20);
    assert!(tier.default);
}

#[test]
fn fallback_is_resolved() {
    let fallback = FallbackConfig::from_raw(raw_fallback(), &environment());
    assert_eq!(fallback.threshold, 3);
    assert_eq!(fallback.simple.model, "flash");
    assert_eq!(fallback.simple.api_base, "https://example.com");
    assert_eq!(fallback.complex.model, "pro");
    assert_eq!(fallback.complex.api_key, "k1");
    assert_eq!(fallback.complex.auth_header, "X-Key");
}

#[test]
fn config_loads() {
    let mut raw = raw_config(vec![raw_tier("a", false), raw_tier("b", false)], Some(raw_fallback()));
    raw.proxy_key = Some("secret".to_string());
    let config = load_parsed(raw).unwrap();
    assert_eq!(config.port, 9000);
    assert_eq!(config.host, "0.0.0.0");
    assert_eq!(config.proxy_key.as_deref(), Some("secret"));
    assert_eq!(config.tiers.len(), 2);
    assert_eq!(config.tiers[0].name, "a");
    assert_eq!(config.tiers[1].name, "b");
    assert_eq!(config.tiers[1].api_base, "https://example.com/api");
    assert_eq!(config.fallback.unwrap().complex.model, "pro");
    assert_eq!(config.keywords.code_markers, default_code_markers());
}

#[test]
fn config_with_a_default_tier_needs_no_fallback() {
    assert!(load_parsed(raw_config(vec![raw_tier("a", false), raw_tier("b", true)], None)).is_ok());
    assert!(load_parsed(raw_config(vec![], Some(raw_fallback()))).is_ok());
}

#[test]
fn config_without_tiers_and_fallback() {
    let error = load_parsed(raw_config(vec![], None)).unwrap_err();
    assert!(matches!(error.fault, ConfigFault::NoTier));
    assert_eq!(error.message(), "No tier nor fallback defined in tiers.yaml");
}

#[test]
fn config_without_default_and_fallback() {
    let error = load_parsed(raw_config(vec![raw_tier("a", false)], None)).unwrap_err();
    assert!(matches!(error.fault, ConfigFault::NoDefault));
    assert_eq!(
        error.message(),
        "No tier with `default: true` and no `fallback` section in tiers.yaml"
    );
}

#[test]
fn config_that_cannot_be_read() {
    let error = TiersConfig::load(
        "tiers.yaml",
        Source::Unreadable("no such file".to_string()),
        no_keywords(),
        &environment(),
    )
    .unwrap_err();
    assert_eq!(error.message(), "Cannot read tiers.yaml: no such file");

    let error = TiersConfig::load(
        "tiers.yaml",
        Source::Malformed("line 1".to_string()),
        no_keywords(),
        &environment(),
    )
    .unwrap_err();
    assert_eq!(error.message(), "Invalid YAML in tiers.yaml: line 1");
}

#[test]
fn proxy_key_guards_the_proxy() {
    let mut config = load_parsed(raw_config(vec![raw_tier("a", true)], None)).unwrap();
    assert!(config.admits(None));
    assert!(config.admits(Some("anything")));
    config.proxy_key = Some("secret".to_string());
    assert!(config.admits(Some("secret")));
    assert!(!config.admits(Some("Secret")));
    assert!(!config.admits(Some("")));
    assert!(!config.admits(None));
}
