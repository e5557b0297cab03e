use kinetix_plugins::b_ai::{
    catalog_entry, check_response, invalid_catalog_json, join_models_url, parse_model_list,
    reasoning_from_catalog,
};
use kinetix_plugins::json::{Json, JsonNumber};
use kinetix_plugins::model::{ReasoningLevel, ReasoningMode};
use kinetix_plugins::response::check_account;

const CATALOG: &str = r#"{
  "DeepSeek-V4.1-Flash": {
    "context_window": 1000000,
    "max_output_tokens": 384000,
    "tools": true,
    "vision": true,
    "structured_output": true,
    "reasoning": {"supported": true, "mode": "level", "levels": ["high"], "default": "high"}
  },
  "DeepSeek-V4-Flash": {"canonical": "DeepSeek-V4.1-Flash"},
  "DeepSeek-V4-Flash-Vision-Exp": {"canonical": "DeepSeek-V4.1-Flash"}
}"#;

fn to_json(v: &serde_json::Value) -> Json {
    match v {
        serde_json::Value::Null => Json::Null,
        serde_json::Value::Bool(b) => Json::Bool(*b),
        serde_json::Value::Number(n) => Json::Number(if let Some(u) = n.as_u64() {
            JsonNumber::Unsigned(u)
        } else if let Some(i) = n.as_i64() {
            JsonNumber::Negative(i)
        } else {
            JsonNumber::Fractional(n.to_string())
        }),
        serde_json::Value::String(s) => Json::Str(s.clone()),
        serde_json::Value::Array(a) => Json::Array(a.iter().map(to_json).collect()),
        serde_json::Value::Object(m) => {
            Json::Object(m.iter().map(|(k, v)| (k.clone(), to_json(v))).collect())
        }
    }
}

fn json(text: &str) -> Json {
    to_json(&serde_json::from_str(text).unwrap())
}

fn catalog() -> Json {
    json(CATALOG)
}

fn text_of(j: Option<&Json>) -> Option<&str> {
    j.and_then(|v| v.as_str()).map(|s| s.as_str())
}

#[test]
fn enriches_deepseek_v41_flash_from_explicit_provider_catalog() {
    let value = json(
        r#"{"object": "list", "data": [{"id": "DeepSeek-V4.1-Flash", "object": "model", "created": 1790000000}]}"#,
    );
    let models = parse_model_list(&value, &catalog());
    assert_eq!(models.len(), 1);
    assert_eq!(models[0].context_window, Some(1_000_000));
    assert_eq!(models[0].max_output_tokens, Some(384_000));
    let caps = &models[0].capabilities;
    assert_eq!(caps.vision.as_ref().map(|value| value.input), Some(true));
    assert_eq!(caps.tools.as_ref().map(|value| value.supported), Some(true));
    assert_eq!(caps.structured_output.as_ref().map(|value| value.supported), Some(true));
    assert_eq!(caps.reasoning.as_ref().and_then(|value| value.default), Some(ReasoningLevel::High));
}

#[test]
fn explicit_bai_aliases_share_metadata_without_fuzzy_matching() {
    let alias = catalog_entry(&catalog(), "DeepSeek-V4-Flash").unwrap();
    assert_eq!(text_of(alias.get("canonical_id")), Some("DeepSeek-V4.1-Flash"));
    assert!(catalog_entry(&catalog(), "deepseek-v4.1-flash").is_none());
}

#[test]
fn unknown_bai_models_keep_unknown_capabilities() {
    let value = json(r#"{"data": [{"id": "future-model"}]}"#);
    let models = parse_model_list(&value, &catalog());
    assert_eq!(models[0].context_window, None);
    assert_eq!(models[0].max_output_tokens, None);
    let caps = &models[0].capabilities;
    assert!(caps.reasoning.is_none());
    assert!(caps.tools.is_none());
    assert!(caps.vision.is_none());
    assert!(caps.structured_output.is_none());
}

#[test]
fn alias_entry_carries_alias_and_canonical_facts() {
    let alias = catalog_entry(&catalog(), "DeepSeek-V4-Flash-Vision-Exp").unwrap();
    assert_eq!(text_of(alias.get("provider_alias")), Some("DeepSeek-V4-Flash-Vision-Exp"));
    assert_eq!(text_of(alias.get("canonical_id")), Some("DeepSeek-V4.1-Flash"));
    assert_eq!(alias.get_u64("context_window"), Some(1_000_000));
    assert!(alias.get("canonical").is_none());
    let own = catalog_entry(&catalog(), "DeepSeek-V4.1-Flash").unwrap();
    assert!(own.get("canonical_id").is_none());
    assert_eq!(own.get_u64("max_output_tokens"), Some(384_000));
}

#[test]
fn alias_to_missing_canonical_has_no_entry() {
    let broken = json(r#"{"a": {"canonical": "b"}}"#);
    assert!(catalog_entry(&broken, "a").is_none());
    let not_object = json(r#"[1, 2]"#);
    assert!(catalog_entry(&not_object, "a").is_none());
}

#[test]
fn aliases_are_listed_under_their_own_id() {
    let value = json(
        r#"{"data": [{"id": "  DeepSeek-V4-Flash "}, {"id": ""}, {"name": "no id"}, {"id": 7}, {"id": "A-model", "name": "  Shown  "}]}"#,
    );
    let models = parse_model_list(&value, &catalog());
    let ids: Vec<&str> = models.iter().map(|m| m.id.as_str()).collect();
    assert_eq!(ids, vec!["A-model", "DeepSeek-V4-Flash"]);
    assert_eq!(models[0].display_name.as_deref(), Some("Shown"));
    assert_eq!(models[1].display_name.as_deref(), Some("DeepSeek-V4-Flash"));
    assert_eq!(models[1].context_window, Some(1_000_000));
    let transport = models[1].capabilities.transport.as_ref().map(|t| t.format.as_str());
    assert_eq!(transport, Some("openai"));
    assert_eq!(text_of(models[1].raw_metadata.get("id")), Some("  DeepSeek-V4-Flash "));
}

#[test]
fn listed_limits_win_over_the_catalog() {
    let value = json(
        r#"{"data": [{"id": "DeepSeek-V4.1-Flash", "contextWindow": 5, "max_output_tokens": "many"}]}"#,
    );
    let models = parse_model_list(&value, &catalog());
    assert_eq!(models[0].context_window, Some(5));
    assert_eq!(models[0].max_output_tokens, Some(384_000));
}

#[test]
fn a_response_without_data_lists_nothing() {
    assert!(parse_model_list(&json(r#"{"object": "list"}"#), &catalog()).is_empty());
    assert!(parse_model_list(&json(r#"{"data": {}}"#), &catalog()).is_empty());
}

#[test]
fn the_catalog_never_adds_models() {
    let value = json(r#"{"data": [{"id": "b"}, {"id": "a"}]}"#);
    let with = parse_model_list(&value, &catalog());
    let without = parse_model_list(&value, &Json::Null);
    let ids = |v: &Vec<kinetix_plugins::model::DiscoveredModel>| {
        v.iter().map(|m| m.id.clone()).collect::<Vec<_>>()
    };
    assert_eq!(ids(&with), ids(&without));
    assert_eq!(ids(&with), vec!["a".to_string(), "b".to_string()]);
}

#[test]
fn equal_ids_keep_their_listed_order() {
    let value = json(r#"{"data": [{"id": "m", "name": "first"}, {"id": "a"}, {"id": "m", "name": "second"}]}"#);
    let models = parse_model_list(&value, &Json::Null);
    let names: Vec<&str> = models.iter().map(|m| m.display_name.as_deref().unwrap()).collect();
    assert_eq!(names, vec!["a", "first", "second"]);
}

#[test]
fn reasoning_levels_follow_the_catalog() {
    let entry = json(
        r#"{"reasoning": {"supported": true, "mode": "level", "levels": ["low", 3, "bogus", "high"], "default": "medium", "can_disable": true}}"#,
    );
    let r = reasoning_from_catalog(&entry).unwrap();
    assert!(r.supported);
    assert_eq!(r.mode, Some(ReasoningMode::Level));
    assert_eq!(r.levels, Some(vec![ReasoningLevel::Low, ReasoningLevel::High]));
    assert_eq!(r.default, None);
    assert_eq!(r.can_disable, Some(true));

    let no_levels = json(r#"{"reasoning": {"supported": true, "mode": "level", "levels": ["bogus"]}}"#);
    let r = reasoning_from_catalog(&no_levels).unwrap();
    assert!(r.supported && r.mode.is_none() && r.levels.is_none() && r.can_disable.is_none());

    let other_mode = json(r#"{"reasoning": {"supported": true, "mode": "budget", "can_disable": false}}"#);
    let r = reasoning_from_catalog(&other_mode).unwrap();
    assert!(r.supported && r.mode.is_none());
    assert_eq!(r.can_disable, Some(false));

    let default_flag = json(r#"{"reasoning": {"supported": true, "mode": "level", "levels": ["xhigh"], "default": "xhigh"}}"#);
    let r = reasoning_from_catalog(&default_flag).unwrap();
    assert_eq!(r.default, Some(ReasoningLevel::Xhigh));
    assert_eq!(r.can_disable, Some(false));

    let off = json(r#"{"reasoning": {"supported": false, "mode": "level", "levels": ["high"]}}"#);
    let r = reasoning_from_catalog(&off).unwrap();
    assert!(!r.supported && r.levels.is_none());

    assert!(reasoning_from_catalog(&json(r#"{"reasoning": {"supported": "yes"}}"#)).is_none());
    assert!(reasoning_from_catalog(&json(r#"{}"#)).is_none());
}

#[test]
fn bai_models_url_uses_defaults() {
    assert_eq!(join_models_url("  ", ""), "https://api.b.ai/v1/models");
    assert_eq!(join_models_url("https://proxy.example//", "//v2/list"), "https://proxy.example/v2/list");
}

#[test]
fn bai_response_errors() {
    let e = check_response(401, false, b"{}".to_vec()).unwrap_err();
    assert_eq!(e.code, "credential_expired");
    assert_eq!(e.message, "B.AI model catalog returned HTTP 401");
    assert!(!e.retryable);
    let e = check_response(403, false, b"{}".to_vec()).unwrap_err();
    assert_eq!(e.code, "credential_expired");
    let e = check_response(429, false, b"{}".to_vec()).unwrap_err();
    assert_eq!(e.code, "rate_limited");
    assert!(e.retryable);
    let e = check_response(503, false, b"{}".to_vec()).unwrap_err();
    assert_eq!(e.code, "upstream_unavailable");
    assert!(e.retryable);
    let e = check_response(200, true, b"{}".to_vec()).unwrap_err();
    assert_eq!(e.message, "B.AI model catalog response was truncated");
    assert!(e.retryable);
    let e = check_response(200, false, vec![0xff, 0xfe]).unwrap_err();
    assert_eq!(e.code, "protocol_error");
    assert_eq!(e.message, "B.AI model catalog is not UTF-8");
    assert_eq!(check_response(200, false, "{\"é\":1}".as_bytes().to_vec()).unwrap(), "{\"é\":1}");
    let e = invalid_catalog_json("expected value at line 1");
    assert_eq!(e.message, "invalid B.AI model catalog JSON: expected value at line 1");
    assert_eq!(e.code, "protocol_error");
}

#[test]
fn accounts_of_other_providers_are_refused() {
    assert!(check_account("b-ai", "b-ai").is_ok());
    let e = check_account("b-ai", "ai-studio").unwrap_err();
    assert_eq!(e.code, "invalid_configuration");
    assert_eq!(e.message, "model discovery account does not belong to the requested provider");
    assert!(!e.retryable);
}

#[test]
fn concatenated_lists_sort_together() {
    let both = json(r#"{"data": [{"id": "c"}, {"id": "a", "name": "one"}, {"id": "b"}, {"id": "a", "name": "two"}]}"#);
    let first = json(r#"{"data": [{"id": "c"}, {"id": "a", "name": "one"}]}"#);
    let second = json(r#"{"data": [{"id": "b"}, {"id": "a", "name": "two"}]}"#);
    let names = |v: &Vec<kinetix_plugins::model::DiscoveredModel>| {
        v.iter().map(|m| m.display_name.clone().unwrap()).collect::<Vec<_>>()
    };
    let together = parse_model_list(&both, &catalog());
    let mut parts = names(&parse_model_list(&first, &catalog()));
    parts.extend(names(&parse_model_list(&second, &catalog())));
    assert_eq!(names(&together), vec!["one", "two", "b", "c"]);
    assert_eq!(parts, vec!["one", "c", "two", "b"]);
}
