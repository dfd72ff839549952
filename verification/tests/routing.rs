use router_crabs::routing::{
    best_match, find_default, match_lowered, match_tiers, route, score_of,
};
use router_crabs::{
    select_tier, try_select_tier, FallbackConfig, FallbackTier, Message, MessageContent,
    ScoringKeywords, Tier, TiersConfig,
};
use std::borrow::Cow;

fn message(text: &str) -> Message {
    Message {
        role: "user".to_string(),
        content: Some(MessageContent::Text(text.to_string())),
    }
}

fn words(list: &[&str]) -> Vec<String> {
    list.iter().map(|w| w.to_string()).collect()
}

fn tier(name: &str, keywords: &[&str], weight: u32, default: bool) -> Tier {
    Tier {
        name: name.to_string(),
        model: format!("{}-model", name),
        api_base: "https://api".to_string(),
        api_key: "key".to_string(),
        auth_header: "Bearer".to_string(),
        keywords: words(keywords),
        weight,
        default,
    }
}

fn fallback(threshold: u32) -> FallbackConfig {
    let tier = |model: &str| FallbackTier {
        model: model.to_string(),
        api_base: format!("https://{}", model),
        api_key: format!("{}-key", model),
        auth_header: "X-Key".to_string(),
    };
    FallbackConfig { threshold, simple: tier("flash"), complex: tier("pro") }
}

fn config(tiers: Vec<Tier>, fallback: Option<FallbackConfig>) -> TiersConfig {
    TiersConfig {
        port: 8001,
        host: "127.0.0.1".to_string(),
        proxy_key: None,
        tiers,
        fallback,
        keywords: ScoringKeywords::default(),
    }
}

#[test]
fn greeting_goes_to_the_simple_tier() {
    let config = config(vec![], Some(fallback(3)));
    let (tier, reason) = select_tier(&config, &[message("Hello!")]);
    assert!(matches!(tier, Cow::Owned(_)));
    assert_eq!(tier.name, "simple-fallback");
    assert_eq!(tier.model, "flash");
    assert_eq!(tier.api_base, "https://flash");
    assert_eq!(tier.api_key, "flash-key");
    assert_eq!(tier.auth_header, "X-Key");
    assert!(tier.keywords.is_empty());
    assert_eq!(tier.weight, 0);
    assert!(!tier.default);
    assert_eq!(reason, "complexity: low (score: 0, threshold: 3)");
}

#[test]
fn explanation_goes_to_the_complex_tier() {
    let config = config(vec![], Some(fallback(3)));
    let (tier, reason) =
        select_tier(&config, &[message("Explain microservices architecture to me")]);
    assert_eq!(tier.name, "complex-fallback");
    assert_eq!(tier.model, "pro");
    assert_eq!(tier.api_key, "pro-key");
    assert_eq!(reason, "complexity: high (score: 3, threshold: 3)");
}

#[test]
fn threshold_is_inclusive() {
    let config = config(vec![], Some(fallback(4)));
    let (tier, _) = route(&config, &[], 4);
    assert_eq!(tier.model, "pro");
    let (tier, reason) = route(&config, &[], 3);
    assert_eq!(tier.model, "flash");
    assert_eq!(reason, "complexity: low (score: 3, threshold: 4)");
}

#[test]
fn keywords_come_before_complexity() {
    let config = config(vec![tier("agri", &["Soil", "harvest", "plant"], 20, false)], Some(fallback(0)));
    let (tier, reason) = select_tier(&config, &[message("Which SOIL suits this Plant?")]);
    assert!(matches!(tier, Cow::Borrowed(_)));
    assert_eq!(tier.name, "agri");
    assert_eq!(reason, "domain: agri (matches: [Soil, plant], score: 40)");
}

#[test]
fn default_tier_without_fallback() {
    let config = config(
        vec![tier("agri", &["soil"], 20, false), tier("main", &[], 1, true), tier("late", &[], 1, true)],
        None,
    );
    let (tier, reason) = select_tier(&config, &[message("Hello!")]);
    assert_eq!(tier.name, "main");
    assert_eq!(reason, "default (no keywords matched, no fallback)");
}

#[test]
fn whole_conversation_is_matched() {
    let config = config(vec![tier("agri", &["soil x"], 1, false), tier("main", &[], 1, true)], None);
    let (tier, _) = select_tier(&config, &[message("on soil"), message("x")]);
    assert_eq!(tier.name, "agri");
}

#[test]
fn no_tier_for_the_conversation() {
    let config = config(vec![tier("agri", &["soil"], 1, false)], None);
    assert!(try_select_tier(&config, &[message("Hello!")]).is_none());
    let (tier, _) = try_select_tier(&config, &[message("soil")]).unwrap();
    assert_eq!(tier.name, "agri");
}

#[test]
fn best_match_by_score() {
    let tiers = [tier("a", &[], 2, false), tier("b", &[], 3, false)];
    let matches = [words(&["x", "y"]), words(&["x"])];
    assert_eq!(best_match(&tiers, &matches), Some(0));
    let matches = [words(&["x"]), words(&["x"])];
    assert_eq!(best_match(&tiers, &matches), Some(1));
    assert_eq!(best_match(&tiers, &[vec![], vec![]]), None);
    assert_eq!(best_match(&[], &[]), None);
}

#[test]
fn ties_by_weight_then_default_then_place() {
    let one = || words(&["x"]);
    let two = || words(&["x", "y"]);
    let tiers = [tier("a", &[], 1, true), tier("b", &[], 2, false)];
    assert_eq!(best_match(&tiers, &[two(), one()]), Some(1));

    let tiers = [tier("a", &[], 1, false), tier("b", &[], 1, true), tier("c", &[], 1, false)];
    assert_eq!(best_match(&tiers, &[one(), one(), one()]), Some(1));
    assert_eq!(best_match(&tiers, &[one(), vec![], one()]), Some(0));

    let tiers = [tier("a", &[], 1, true), tier("b", &[], 1, true), tier("c", &[], 1, false)];
    assert_eq!(best_match(&tiers, &[one(), one(), one()]), Some(1));
}

#[test]
fn tier_of_weight_zero_can_win() {
    let config = config(vec![tier("free", &["soil"], 0, false)], Some(fallback(3)));
    let (tier, reason) = select_tier(&config, &[message("soil")]);
    assert_eq!(tier.name, "free");
    assert_eq!(reason, "domain: free (matches: [soil], score: 0)");
}

#[test]
fn scores_do_not_overflow() {
    let heavy = tier("heavy", &[], u32::MAX, false);
    assert_eq!(score_of(&heavy, &words(&["a", "b"])), 8_589_934_590);
}

#[test]
fn matching_ignores_case() {
    let tiers = [tier("a", &["ÉCOLE", "rust"], 1, false), tier("b", &[], 1, false)];
    let matches = match_tiers(&tiers, &[message("Une école en RUST")]);
    assert_eq!(matches, vec![words(&["ÉCOLE", "rust"]), vec![]]);
}

#[test]
fn first_default_tier() {
    assert_eq!(find_default(&[tier("a", &[], 1, false), tier("b", &[], 1, true)]), Some(1));
    assert_eq!(find_default(&[tier("a", &[], 1, false)]), None);
}

#[test]
fn matching_given_lower_case_forms() {
    let keywords = words(&["Rust", "Go", "Rust"]);
    let lowered = words(&["rust", "go", "rust"]);
    assert_eq!(match_lowered(&keywords, &lowered, "du rust"), words(&["Rust", "Rust"]));
    assert_eq!(match_lowered(&keywords, &lowered, "DU RUST"), words(&[]));
    assert_eq!(match_lowered(&words(&["x"]), &words(&[""]), ""), words(&["x"]));
}

#[test]
fn upper_case_and_roles_keep_the_domain() {
    let config = config(
        vec![tier("agri", &["Soil", "crop"], 2, false), tier("code", &["rust"], 3, true)],
        None,
    );
    for text in ["soil and crop", "rust", "rust on soil"] {
        let (expected, _) = select_tier(&config, &[message(text)]);
        let loud = Message { role: "assistant".to_string(), ..message(&text.to_uppercase()) };
        assert_eq!(select_tier(&config, &[loud]).0.name, expected.name);
    }
}
