//! An intelligent proxy that routes requests for a language model to the most suitable
//! model based on two criteria:
//!
//! 1. **Domain keywords** — e.g. "agriculture" → AgriLLM, "code" → Pro
//! 2. **Complexity heuristics** — short and simple prompt → Flash, long and technical → Pro
//!
//! Each tier is defined in a YAML file. An optional `fallback` section enables
//! complexity-based routing when no domain keywords match.
//!
//! The library decides and computes; reading files, the environment and the network is
//! left to its caller, which hands in what it read.

pub mod config;
pub mod environment;
pub mod izi;
pub mod json;
pub mod keywords;
pub mod message;
pub mod proxy;
pub mod routing;
pub mod scoring;
pub mod source;
pub mod text;

pub use config::{
    default_auth_header, default_complexity_threshold, default_host, default_keywords_path,
    default_port, default_weight, ConfigError, ConfigFault, FallbackConfig, FallbackTier,
    RawConfig, RawFallbackConfig, RawFallbackTier, RawTier, Tier, TiersConfig,
};
pub use environment::{env_var_names, resolve_env_vars, Environment};
pub use keywords::{
    default_code_markers, default_question_words, default_technical_keywords, RawScoringKeywords,
    ScoringKeywords,
};
pub use message::{ChatRequest, ContentPart, Message, MessageContent};
pub use proxy::{forward_request, try_forward_request, ForwardError, Reply, UpstreamRequest};
pub use routing::{select_tier, try_select_tier};
pub use scoring::score_complexity;
pub use source::Source;
