use kinetix_plugins::json::{Json, JsonNumber};
use kinetix_plugins::opencode_free::{
    catalog_entry, check_response, discovered_models, invalid_catalog_json, is_free_model,
    join_url, parse_model_list, reasoning_from_catalog, target_format,
};

const CATALOG: &str = r#"{
  "mimo-v2.6-flash-free": {
    "display_name": "MiMo-V2.6-Flash Free",
    "context_window": 1000000,
    "max_output_tokens": 131072,
    "reasoning": {"supported": true},
    "vision": true,
    "tools": true,
    "structured_output": true
  }
}"#;

fn to_json(v: &serde_json::Value) -> Json {
    match v {
        serde_json::Value::Null => Json::Null,
        serde_json::Value::Bool(b) => Json::Bool(*b),
        serde_json::Value::Number(n) => Json::Number(if let Some(u) = n.as_u64() {
            JsonNumber::Unsigned(u)
        } else if let Some(i) = n.as_i64() {
            JsonNumber::Negative(i)
        } else {
            JsonNumber::Fractional(n.to_string())
        }),
        serde_json::Value::String(s) => Json::Str(s.clone()),
        serde_json::Value::Array(a) => Json::Array(a.iter().map(to_json).collect()),
        serde_json::Value::Object(m) => {
            Json::Object(m.iter().map(|(k, v)| (k.clone(), to_json(v))).collect())
        }
    }
}

fn json(text: &str) -> Json {
    to_json(&serde_json::from_str(text).unwrap())
}

fn catalog() -> Json {
    json(CATALOG)
}

#[test]
fn parses_live_openai_model_list_shape_and_filters_to_free() {
    let value = json(
        r#"{
            "object": "list",
            "data": [
                {"id": "gpt-5.6-luna", "object": "model", "owned_by": "opencode"},
                {"id": "big-pickle", "object": "model", "owned_by": "opencode"},
                {"id": "mimo-v2.5-free", "object": "model", "owned_by": "opencode"},
                {"id": "muse-spark-1.3-contributor-free", "object": "model", "owned_by": "opencode"},
                {"id": "deepseek-v4-flash-free", "object": "model", "owned_by": "opencode"}
            ]
        }"#,
    );
    let models = parse_model_list(&value, &catalog());
    let ids: Vec<&str> = models.iter().map(|m| m.id.as_str()).collect();
    assert_eq!(ids, vec!["big-pickle", "mimo-v2.5-free", "muse-spark-1.3-contributor-free"]);
}

#[test]
fn enriches_mimo_v26_flash_free_without_creating_availability() {
    let value = json(
        r#"{"data": [{"id": "big-pickle", "object": "model"}, {"id": "mimo-v2.6-flash-free", "object": "model"}]}"#,
    );
    let models = parse_model_list(&value, &catalog());
    let mimo = models.iter().find(|model| model.id == "mimo-v2.6-flash-free").unwrap();
    assert_eq!(mimo.display_name.as_deref(), Some("MiMo-V2.6-Flash Free"));
    assert_eq!(mimo.context_window, Some(1_000_000));
    assert_eq!(mimo.max_output_tokens, Some(131_072));
    let caps = &mimo.capabilities;
    assert_eq!(caps.transport.as_ref().map(|value| value.format.as_str()), Some("openai"));
    assert_eq!(caps.reasoning.as_ref().map(|value| value.supported), Some(true));
    assert_eq!(caps.vision.as_ref().map(|value| value.input), Some(true));
    assert_eq!(caps.tools.as_ref().map(|value| value.supported), Some(true));
    assert_eq!(caps.structured_output.as_ref().map(|value| value.supported), Some(true));

    let without_mimo = parse_model_list(&json(r#"{"data": [{"id": "big-pickle"}]}"#), &catalog());
    assert!(!without_mimo.iter().any(|model| model.id == "mimo-v2.6-flash-free"));
}

#[test]
fn tags_muse_models_as_responses() {
    let value = json(
        r#"{"data": [{"id": "muse-spark-1.2-contributor-free"}, {"id": "nemotron-3-ultra-free"}]}"#,
    );
    let models = parse_model_list(&value, &catalog());
    let muse = models.iter().find(|m| m.id.starts_with("muse-spark")).unwrap();
    let caps = &muse.capabilities;
    assert_eq!(caps.schema_version, 1);
    assert_eq!(
        caps.transport.as_ref().map(|transport| transport.format.as_str()),
        Some("openai-responses")
    );
}

#[test]
fn joins_custom_and_default_model_paths() {
    assert_eq!(join_url("https://opencode.ai/", "/zen/v1/models"), "https://opencode.ai/zen/v1/models");
    assert_eq!(join_url("", ""), "https://opencode.ai/zen/v1/models");
}

#[test]
fn free_ids_are_told_apart() {
    assert!(is_free_model("anything-free"));
    assert!(is_free_model("big-pickle"));
    assert!(is_free_model("union-alpha"));
    assert!(!is_free_model("deepseek-v4-flash-free"));
    assert!(!is_free_model("gpt-5.6-luna"));
    assert!(!is_free_model("-fre"));
    assert!(is_free_model("-free"));
}

#[test]
fn target_formats_by_id() {
    assert_eq!(target_format("muse-spark-9"), "openai-responses");
    assert_eq!(target_format("union-alpha"), "openai");
    assert_eq!(target_format("big-pickle"), "openai");
    assert_eq!(target_format("mimo-v2.5-free"), "openai");
    assert_eq!(target_format("muse-spark"), "openai");
}

#[test]
fn ids_are_trimmed_and_unknown_models_stay_unknown() {
    let value = json(
        r#"{"data": [{"id": "  zed-free  ", "name": "   ", "context_length": 12, "contextWindow": 99}, {"id": "   "}, {"id": 5}, {"object": "model"}]}"#,
    );
    let models = parse_model_list(&value, &catalog());
    assert_eq!(models.len(), 1);
    let m = &models[0];
    assert_eq!(m.id, "zed-free");
    assert_eq!(m.display_name.as_deref(), Some("zed-free"));
    assert_eq!(m.context_window, Some(12));
    assert_eq!(m.max_output_tokens, None);
    assert!(m.capabilities.reasoning.is_none());
    assert!(m.capabilities.tools.is_none());
    assert!(m.capabilities.vision.is_none());
    assert!(m.capabilities.structured_output.is_none());
}

#[test]
fn an_empty_free_list_is_an_error() {
    let e = discovered_models(&json(r#"{"data": [{"id": "gpt-5.6-luna"}]}"#), &catalog()).unwrap_err();
    assert_eq!(e.code, "protocol_error");
    assert_eq!(e.message, "OpenCode model catalog contained no usable free models");
    assert!(!e.retryable);
    assert!(discovered_models(&json("{}"), &catalog()).is_err());
    let ok = discovered_models(&json(r#"{"data": [{"id": "x-free"}]}"#), &catalog()).unwrap();
    assert_eq!(ok.len(), 1);
}

#[test]
fn catalog_entries_match_exactly() {
    assert!(catalog_entry(&catalog(), "mimo-v2.6-flash-free").is_some());
    assert!(catalog_entry(&catalog(), "MiMo-V2.6-Flash-Free").is_none());
    let r = reasoning_from_catalog(&json(r#"{"reasoning": {"supported": false, "can_disable": true}}"#)).unwrap();
    assert!(!r.supported);
    assert_eq!(r.can_disable, Some(true));
}

#[test]
fn opencode_response_errors() {
    let e = check_response(401, false, b"{}".to_vec()).unwrap_err();
    assert_eq!(e.code, "upstream_unavailable");
    assert_eq!(e.message, "OpenCode model catalog returned HTTP 401");
    let e = check_response(500, false, b"{}".to_vec()).unwrap_err();
    assert!(e.retryable);
    let e = check_response(429, false, b"{}".to_vec()).unwrap_err();
    assert_eq!(e.code, "rate_limited");
    assert_eq!(check_response(200, false, b"[]".to_vec()).unwrap(), "[]");
    assert_eq!(invalid_catalog_json("eof").message, "invalid OpenCode model catalog JSON: eof");
}
