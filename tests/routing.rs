use openrouter_proxy::config::{parse_model_provider_mapping, split_text, trim_text, Config};
use openrouter_proxy::pattern::model_matches_pattern;

fn rule(pattern: &str, providers: &[&str]) -> (String, Vec<String>) {
    (pattern.to_string(), providers.iter().map(|p| p.to_string()).collect())
}

#[test]
fn contains_pattern_matches_inside() {
    assert!(model_matches_pattern("foo-acme/sonnet-v1", "*acme/sonnet*"));
    assert!(!model_matches_pattern("foo-acme/sonn", "*acme/sonnet*"));
}

#[test]
fn prefix_pattern_matches_start_only() {
    assert!(model_matches_pattern("gpt-4", "gpt-*"));
    assert!(!model_matches_pattern("mygpt-4", "gpt-*"));
}

#[test]
fn exact_pattern_matches_itself_only() {
    assert!(model_matches_pattern("exact", "exact"));
    assert!(!model_matches_pattern("exact2", "exact"));
    assert!(!model_matches_pattern("exac", "exact"));
    assert!(!model_matches_pattern("EXACT", "exact"));
}

#[test]
fn suffix_pattern_matches_end_only() {
    assert!(model_matches_pattern("meta/llama-70b", "*-70b"));
    assert!(!model_matches_pattern("meta/llama-70b-chat", "*-70b"));
}

#[test]
fn first_matching_rule_wins() {
    let mut config = Config::new();
    config.model_provider_mapping = vec![
        rule("sonnet*", &["acme"]),
        rule("gpt-*", &["openai", "azure"]),
        rule("*4", &["other"]),
    ];
    assert_eq!(
        config.find_providers_for_model("gpt-4"),
        Some(vec!["openai".to_string(), "azure".to_string()])
    );
    assert_eq!(config.find_providers_for_model("mistral-4"), Some(vec!["other".to_string()]));
    assert_eq!(config.find_providers_for_model("llama"), None);
}

#[test]
fn no_rules_resolve_nothing() {
    let config = Config::new();
    assert_eq!(config.find_providers_for_model("gpt-4"), None);
}

#[test]
fn default_config() {
    let config = Config::new();
    assert!(!config.https);
    assert_eq!(config.ip, "0.0.0.0");
    assert_eq!(config.port, 3000);
    assert_eq!(config.openrouter_base_url, "https://openrouter.ai/api/v1");
    assert!(config.model_provider_mapping.is_empty());
    assert!(config.cert_path.is_none() && config.key_path.is_none());
}

#[test]
fn mapping_is_parsed_and_trimmed() {
    let (pattern, providers) = parse_model_provider_mapping(" gpt-* = openai , azure").unwrap();
    assert_eq!(pattern, "gpt-*");
    assert_eq!(providers, vec!["openai".to_string(), "azure".to_string()]);
}

#[test]
fn mapping_needs_exactly_one_equals() {
    assert!(parse_model_provider_mapping("gpt-*").is_err());
    assert!(parse_model_provider_mapping("a=b=c").is_err());
}

#[test]
fn mapping_without_providers_is_refused() {
    assert!(parse_model_provider_mapping("gpt-*=").is_err());
    assert!(parse_model_provider_mapping("x=  ").is_err());
    assert!(parse_model_provider_mapping("x=a,,b").is_err());
}

#[test]
fn mapping_with_malformed_pattern_is_refused() {
    for text in ["g*t=a", "=a", "*=a", "**=a", "a**=b", "*a*b*=c", "  =a"] {
        assert!(parse_model_provider_mapping(text).is_err(), "{}", text);
    }
    for text in ["gpt-*=a", "*-70b=a", "*acme/sonnet*=a", "exact=a"] {
        assert!(parse_model_provider_mapping(text).is_ok(), "{}", text);
    }
}

#[test]
fn mapping_example_parses_exactly() {
    let (pattern, providers) = parse_model_provider_mapping("gpt-*=openai,azure").unwrap();
    assert_eq!(pattern, "gpt-*");
    assert_eq!(providers, vec!["openai".to_string(), "azure".to_string()]);
}

#[test]
fn trim_removes_unicode_white_space() {
    assert_eq!(trim_text("\t a b \n"), "a b");
    assert_eq!(trim_text("\u{a0}x\u{3000}"), "x");
    assert_eq!(trim_text(" \r\n"), "");
    assert_eq!(trim_text("x"), "x");
}

#[test]
fn split_keeps_empty_pieces() {
    assert_eq!(split_text("a,,b,", ','), vec!["a", "", "b", ""]);
    assert_eq!(split_text("", ','), vec![""]);
}
