use openrouter_proxy::config::Config;
use openrouter_proxy::error::AppError;
use openrouter_proxy::request::{set_providers, Routing};
use openrouter_proxy::service::{
    bearer_value, forwarded_headers, forwards_request_header, relayed_headers,
    relays_response_header, rewrites_body, route_for_path, streams_response, Header, OpenRouterService,
};
use serde_json::Value;

fn header(name: &str, value: &str) -> Header {
    (name.to_string(), value.as_bytes().to_vec())
}

fn service_with(rules: Vec<(String, Vec<String>)>) -> OpenRouterService {
    let mut config = Config::new();
    config.model_provider_mapping = rules;
    OpenRouterService::new(config)
}

fn strings(items: &[&str]) -> Value {
    Value::Array(items.iter().map(|s| Value::String(s.to_string())).collect())
}

fn error_json(e: &AppError) -> Value {
    serde_json::from_slice(&e.error_body()).unwrap()
}

#[test]
fn missing_authorization_is_401_auth_error() {
    let svc = service_with(vec![]);
    let headers = vec![header("content-type", "application/json")];
    let err = svc
        .prepare_request("chat/completions", &Routing::Table, &headers, b"{}")
        .err()
        .unwrap();
    assert_eq!(err.status_code(), 401);
    let body = error_json(&err);
    assert_eq!(body["error"]["type"], "auth_error");
    assert!(body["error"]["message"].is_string());
}

#[test]
fn non_bearer_authorization_is_refused() {
    let svc = service_with(vec![]);
    let err = svc.extract_api_key(&vec![header("authorization", "Basic abc")]).err().unwrap();
    assert!(matches!(err, AppError::Auth(_)));
    let err = svc.extract_api_key(&vec![header("authorization", "bearer abc")]).err().unwrap();
    assert!(matches!(err, AppError::Auth(_)));
}

#[test]
fn unreadable_authorization_is_refused() {
    let svc = service_with(vec![]);
    let headers = vec![("authorization".to_string(), vec![66, 101, 97, 114, 101, 114, 32, 200])];
    assert!(matches!(svc.extract_api_key(&headers), Err(AppError::Auth(_))));
}

#[test]
fn bearer_token_is_extracted() {
    let svc = service_with(vec![]);
    let headers = vec![header("host", "x"), header("authorization", "Bearer abc")];
    assert_eq!(svc.extract_api_key(&headers).ok().unwrap(), "abc");
    let empty = vec![header("authorization", "Bearer ")];
    assert_eq!(svc.extract_api_key(&empty).ok().unwrap(), "");
}

#[test]
fn explicit_provider_qualifies_model_and_sets_order() {
    let svc = service_with(vec![]);
    let headers = vec![header("authorization", "Bearer abc")];
    let req = svc
        .prepare_request(
            "chat/completions",
            &Routing::Explicit("openai".to_string()),
            &headers,
            br#"{"model":"gpt-4","messages":[]}"#,
        )
        .ok()
        .unwrap();
    let body: Value = serde_json::from_slice(&req.body).unwrap();
    assert_eq!(body["model"], "openai/gpt-4");
    assert_eq!(body["provider"]["order"], strings(&["openai"]));
    assert_eq!(body["messages"], Value::Array(vec![]));
    assert_eq!(req.authorization, "Bearer abc");
    assert_eq!(req.url, "https://openrouter.ai/api/v1/chat/completions");
}

#[test]
fn explicit_provider_keeps_qualified_model() {
    let svc = service_with(vec![]);
    let out = svc
        .process_request_body(
            br#"{"model":"meta/llama"}"#,
            "chat/completions",
            &Routing::Explicit("groq".to_string()),
        )
        .ok()
        .unwrap();
    let body: Value = serde_json::from_slice(&out).unwrap();
    assert_eq!(body["model"], "meta/llama");
    assert_eq!(body["provider"]["order"], strings(&["groq"]));
}

#[test]
fn table_rule_sets_order_and_keeps_model() {
    let svc = service_with(vec![(
        "gpt-*".to_string(),
        vec!["openai".to_string(), "azure".to_string()],
    )]);
    let out = svc
        .process_request_body(br#"{"model":"gpt-4","messages":[]}"#, "chat/completions", &Routing::Table)
        .ok()
        .unwrap();
    let body: Value = serde_json::from_slice(&out).unwrap();
    assert_eq!(body["provider"]["order"], strings(&["openai", "azure"]));
    assert_eq!(body["model"], "gpt-4");
}

#[test]
fn table_without_match_leaves_body() {
    let svc = service_with(vec![("sonnet*".to_string(), vec!["acme".to_string()])]);
    let out = svc
        .process_request_body(br#"{"model":"gpt-4","provider":{"x":1}}"#, "embeddings", &Routing::Table)
        .ok()
        .unwrap();
    let body: Value = serde_json::from_slice(&out).unwrap();
    assert_eq!(body["provider"]["x"], 1);
    assert!(body["provider"].get("order").is_none());
}

#[test]
fn rewrite_is_idempotent_on_order() {
    let svc = service_with(vec![("gpt-*".to_string(), vec!["openai".to_string(), "azure".to_string()])]);
    let once = svc
        .process_request_body(br#"{"model":"gpt-4"}"#, "chat/completions", &Routing::Table)
        .ok()
        .unwrap();
    let twice = svc.process_request_body(&once, "chat/completions", &Routing::Table).ok().unwrap();
    let a: Value = serde_json::from_slice(&once).unwrap();
    let b: Value = serde_json::from_slice(&twice).unwrap();
    assert_eq!(a["provider"]["order"], b["provider"]["order"]);
    let explicit = Routing::Explicit("openai".to_string());
    let once = svc.process_request_body(br#"{"model":"gpt-4"}"#, "chat/completions", &explicit).ok().unwrap();
    let twice = svc.process_request_body(&once, "chat/completions", &explicit).ok().unwrap();
    assert_eq!(once, twice);
}

#[test]
fn unknown_fields_survive_rewrite() {
    let svc = service_with(vec![("gpt-*".to_string(), vec!["openai".to_string()])]);
    let input = br#"{"model":"gpt-4","temperature":0.5,"extra":{"a":[1,2,{"b":null}]},"stream":true}"#;
    let out = svc.process_request_body(input, "chat/completions", &Routing::Table).ok().unwrap();
    let before: Value = serde_json::from_slice(input).unwrap();
    let after: Value = serde_json::from_slice(&out).unwrap();
    for key in ["model", "temperature", "extra", "stream"] {
        assert_eq!(before[key], after[key]);
    }
    assert_eq!(after.as_object().unwrap().len(), 5);
}

#[test]
fn provider_object_is_merged() {
    let mut doc = serde_json::Map::new();
    let mut provider = serde_json::Map::new();
    provider.insert("allow_fallbacks".to_string(), Value::Bool(false));
    provider.insert("order".to_string(), strings(&["old"]));
    doc.insert("provider".to_string(), Value::Object(provider));
    set_providers(&mut doc, vec!["a".to_string(), "b".to_string()]);
    assert_eq!(doc["provider"]["order"], strings(&["a", "b"]));
    assert_eq!(doc["provider"]["allow_fallbacks"], false);
}

#[test]
fn provider_non_object_is_replaced() {
    let mut doc = serde_json::Map::new();
    doc.insert("provider".to_string(), Value::String("openai".to_string()));
    set_providers(&mut doc, vec!["a".to_string()]);
    assert_eq!(doc["provider"].as_object().unwrap().len(), 1);
    assert_eq!(doc["provider"]["order"], strings(&["a"]));
}

#[test]
fn provider_absent_is_created() {
    let mut doc = serde_json::Map::new();
    set_providers(&mut doc, vec![]);
    assert_eq!(doc["provider"]["order"], strings(&[]));
}

#[test]
fn malformed_json_is_400_parse_error() {
    let svc = service_with(vec![]);
    let headers = vec![header("authorization", "Bearer abc")];
    let err = svc
        .prepare_request("chat/completions", &Routing::Table, &headers, b"{not json")
        .err()
        .unwrap();
    assert_eq!(err.status_code(), 400);
    assert_eq!(error_json(&err)["error"]["type"], "parse_error");
    let err = svc.process_request_body(b"[1,2]", "embeddings", &Routing::Table).err().unwrap();
    assert!(matches!(err, AppError::Parse(_)));
}

#[test]
fn passthrough_bodies_are_not_parsed() {
    let svc = service_with(vec![]);
    let raw = b"{not json";
    assert_eq!(svc.process_request_body(raw, "models", &Routing::Table).ok().unwrap(), raw.to_vec());
    assert_eq!(
        svc.process_request_body(raw, "chat/completions", &Routing::Passthrough).ok().unwrap(),
        raw.to_vec()
    );
    assert!(!rewrites_body("models", &Routing::Table));
    assert!(rewrites_body("v1/embeddings", &Routing::Explicit("x".to_string())));
}

#[test]
fn request_headers_policy() {
    assert!(!forwards_request_header("host"));
    assert!(!forwards_request_header("authorization"));
    assert!(!forwards_request_header("content-length"));
    assert!(forwards_request_header("content-type"));
    let headers = vec![
        header("host", "localhost"),
        header("accept", "*/*"),
        header("authorization", "Bearer abc"),
        header("content-length", "12"),
        header("x-title", "t"),
    ];
    assert_eq!(forwarded_headers(&headers), vec![header("accept", "*/*"), header("x-title", "t")]);
}

#[test]
fn response_headers_policy() {
    assert!(!relays_response_header("transfer-encoding"));
    assert!(!relays_response_header("connection"));
    assert!(relays_response_header("content-type"));
    let headers = vec![
        header("content-type", "text/event-stream"),
        header("connection", "keep-alive"),
        header("transfer-encoding", "chunked"),
    ];
    assert_eq!(relayed_headers(&headers), vec![header("content-type", "text/event-stream")]);
}

#[test]
fn event_streams_on_completions_are_streamed() {
    assert!(streams_response("chat/completions", Some("text/event-stream; charset=utf-8")));
    assert!(!streams_response("chat/completions", Some("application/json")));
    assert!(!streams_response("embeddings", Some("text/event-stream")));
    assert!(!streams_response("chat/completions", None));
}

#[test]
fn upstream_url_and_bearer() {
    let svc = service_with(vec![]);
    assert_eq!(svc.upstream_url("models"), "https://openrouter.ai/api/v1/models");
    assert_eq!(bearer_value("k"), "Bearer k");
}

#[test]
fn error_statuses_and_types() {
    let cases = vec![
        (AppError::Auth("a".to_string()), 401, "auth_error"),
        (AppError::Parse("p".to_string()), 400, "parse_error"),
        (AppError::Proxy("x".to_string()), 502, "proxy_error"),
        (AppError::Request("r".to_string()), 502, "request_error"),
        (AppError::Tls("t".to_string()), 500, "tls_error"),
        (AppError::Io("i".to_string()), 500, "io_error"),
        (AppError::Server("s".to_string()), 500, "server_error"),
    ];
    for (e, status, kind) in cases {
        assert_eq!(e.status_code(), status);
        assert_eq!(e.error_type(), kind);
        let body = error_json(&e);
        assert_eq!(body["error"]["type"], kind);
        assert_eq!(body["error"]["message"], e.message());
        assert_eq!(body.as_object().unwrap().len(), 1);
    }
}

#[test]
fn v1_paths_route_by_first_segment() {
    let (routing, path) = route_for_path("openai/chat/completions");
    assert!(matches!(routing, Routing::Explicit(ref p) if p == "openai"));
    assert_eq!(path, "chat/completions");
    let (routing, path) = route_for_path("models");
    assert!(matches!(routing, Routing::Passthrough));
    assert_eq!(path, "models");
}

#[test]
fn error_envelope_is_exact() {
    let body = error_json(&AppError::Auth("missing".to_string()));
    let mut inner = serde_json::Map::new();
    inner.insert("message".to_string(), Value::String("missing".to_string()));
    inner.insert("type".to_string(), Value::String("auth_error".to_string()));
    let mut outer = serde_json::Map::new();
    outer.insert("error".to_string(), Value::Object(inner));
    assert_eq!(body, Value::Object(outer));
    let body = error_json(&AppError::Parse("bad".to_string()));
    assert_eq!(body["error"]["message"], "bad");
    assert_eq!(body["error"]["type"], "parse_error");
}

#[test]
fn set_providers_twice_equals_once() {
    let mut doc = serde_json::Map::new();
    doc.insert("model".to_string(), Value::String("gpt-4".to_string()));
    doc.insert("provider".to_string(), Value::Null);
    set_providers(&mut doc, vec!["a".to_string(), "b".to_string()]);
    let once = doc.clone();
    set_providers(&mut doc, vec!["a".to_string(), "b".to_string()]);
    assert_eq!(doc, once);
}
