use kinetix_plugins::ai_studio::{
    check_response, join_models_url, model_id, next_page_token, parse_model_page,
    supports_generate_content, urlencode, PageDiscovery, PageStep, MAX_PAGES,
};
use kinetix_plugins::json::{Json, JsonNumber};

fn to_json(v: &serde_json::Value) -> Json {
    match v {
        serde_json::Value::Null => Json::Null,
        serde_json::Value::Bool(b) => Json::Bool(*b),
        serde_json::Value::Number(n) => Json::Number(if let Some(u) = n.as_u64() {
            JsonNumber::Unsigned(u)
        } else if let Some(i) = n.as_i64() {
            JsonNumber::Negative(i)
        } else {
            JsonNumber::Fractional(n.to_string())
        }),
        serde_json::Value::String(s) => Json::Str(s.clone()),
        serde_json::Value::Array(a) => Json::Array(a.iter().map(to_json).collect()),
        serde_json::Value::Object(m) => {
            Json::Object(m.iter().map(|(k, v)| (k.clone(), to_json(v))).collect())
        }
    }
}

fn json(text: &str) -> Json {
    to_json(&serde_json::from_str(text).unwrap())
}

#[test]
fn parses_gemini_model_metadata_without_inventing_unknown_capabilities() {
    let value = json(
        r#"{
            "models": [
                {
                    "name": "models/gemini-3.8-flash",
                    "baseModelId": "gemini-3.8-flash",
                    "displayName": "Gemini 3.8 Flash",
                    "inputTokenLimit": 1000000,
                    "outputTokenLimit": 65536,
                    "supportedGenerationMethods": ["generateContent", "countTokens"],
                    "thinking": true
                },
                {
                    "name": "models/text-embedding-004",
                    "supportedGenerationMethods": ["embedContent"]
                }
            ]
        }"#,
    );
    let models = parse_model_page(&value);
    assert_eq!(models.len(), 1);
    assert_eq!(models[0].id, "gemini-3.8-flash");
    assert_eq!(models[0].context_window, Some(1_000_000));
    assert_eq!(models[0].max_output_tokens, Some(65_536));
    let caps = &models[0].capabilities;
    assert_eq!(caps.transport.as_ref().map(|value| value.format.as_str()), Some("gemini"));
    assert_eq!(caps.reasoning.as_ref().map(|value| value.supported), Some(true));
    assert!(caps.tools.is_none());
    assert!(caps.vision.is_none());
    assert!(caps.structured_output.is_none());
}

#[test]
fn model_ids_and_names() {
    assert_eq!(model_id(&json(r#"{"name": " models/x "}"#)).as_deref(), Some("x"));
    assert_eq!(model_id(&json(r#"{"name": "tunedModels/y"}"#)).as_deref(), Some("tunedModels/y"));
    assert_eq!(model_id(&json(r#"{"name": "models/"}"#)).as_deref(), Some(""));
    assert_eq!(model_id(&json(r#"{"name": "  ", "baseModelId": " base "}"#)).as_deref(), Some("base"));
    assert_eq!(model_id(&json(r#"{"name": 4, "baseModelId": "  "}"#)), None);

    let page = json(
        r#"{"models": [{"name": "models/a", "displayName": "  ", "supportedGenerationMethods": ["generateContent"], "thinking": false}]}"#,
    );
    let models = parse_model_page(&page);
    assert_eq!(models[0].display_name.as_deref(), Some("a"));
    let reasoning = models[0].capabilities.reasoning.as_ref().unwrap();
    assert!(!reasoning.supported);
    assert!(reasoning.levels.is_none());
}

#[test]
fn generation_support_needs_the_exact_method() {
    assert!(supports_generate_content(&json(r#"{"supportedGenerationMethods": [1, "generateContent"]}"#)));
    assert!(!supports_generate_content(&json(r#"{"supportedGenerationMethods": ["generatecontent"]}"#)));
    assert!(!supports_generate_content(&json(r#"{"supportedGenerationMethods": "generateContent"}"#)));
    assert!(!supports_generate_content(&json(r#"{}"#)));
}

#[test]
fn page_urls_carry_size_and_encoded_token() {
    assert_eq!(
        join_models_url("", "", None),
        "https://generativelanguage.googleapis.com/v1beta/models?pageSize=1000"
    );
    assert_eq!(
        join_models_url(" https://x.test/v1/ ", " /models ", Some("a b/c~é")),
        "https://x.test/v1/models?pageSize=1000&pageToken=a%20b%2Fc~%C3%A9"
    );
    assert_eq!(join_models_url("https://x.test", "m", Some("")), "https://x.test/m?pageSize=1000");
    assert_eq!(urlencode("AZaz09-_.~"), "AZaz09-_.~");
    assert_eq!(urlencode("%+="), "%25%2B%3D");
}

#[test]
fn next_page_tokens_are_trimmed() {
    assert_eq!(next_page_token(&json(r#"{"nextPageToken": " t1 "}"#)).as_deref(), Some("t1"));
    assert_eq!(next_page_token(&json(r#"{"nextPageToken": "  "}"#)), None);
    assert_eq!(next_page_token(&json(r#"{}"#)), None);
}

fn page(models: &[&str], token: Option<&str>) -> Json {
    let items: Vec<String> = models
        .iter()
        .map(|m| format!(r#"{{"name": "models/{m}", "supportedGenerationMethods": ["generateContent"]}}"#))
        .collect();
    let token = match token {
        Some(t) => format!(r#", "nextPageToken": "{t}""#),
        None => String::new(),
    };
    json(&format!(r#"{{"models": [{}]{}}}"#, items.join(", "), token))
}

#[test]
fn pages_are_merged_sorted_and_deduplicated() {
    let run = PageDiscovery::new();
    assert_eq!(run.request_url("", ""), "https://generativelanguage.googleapis.com/v1beta/models?pageSize=1000");
    let run = match run.accept_page(&page(&["c", "a"], Some("next"))) {
        PageStep::Next(run) => run,
        _ => panic!("expected another page"),
    };
    assert_eq!(
        run.request_url("", ""),
        "https://generativelanguage.googleapis.com/v1beta/models?pageSize=1000&pageToken=next"
    );
    match run.accept_page(&page(&["b", "a"], None)) {
        PageStep::Done(models) => {
            let ids: Vec<&str> = models.iter().map(|m| m.id.as_str()).collect();
            assert_eq!(ids, vec!["a", "b", "c"]);
        }
        _ => panic!("expected the list to be complete"),
    }
}

#[test]
fn pagination_stops_after_the_bound() {
    let mut run = PageDiscovery::new();
    for i in 0..MAX_PAGES - 1 {
        run = match run.accept_page(&page(&["m"], Some(&format!("t{i}")))) {
            PageStep::Next(run) => run,
            _ => panic!("expected another page"),
        };
    }
    match run.accept_page(&page(&["m"], Some("more"))) {
        PageStep::Failed(e) => {
            assert_eq!(e.code, "upstream_unavailable");
            assert_eq!(e.message, "Google model catalog exceeded the plugin pagination bound");
            assert!(e.retryable);
        }
        _ => panic!("expected the pagination bound"),
    }
}

#[test]
fn google_response_errors() {
    let e = check_response(404, false, b"x".to_vec()).unwrap_err();
    assert_eq!(e.code, "upstream_unavailable");
    assert_eq!(e.message, "Google model catalog returned HTTP 404");
    assert!(!e.retryable);
    let e = check_response(200, true, vec![0xff]).unwrap_err();
    assert_eq!(e.code, "upstream_unavailable");
    let e = check_response(500, false, vec![0xff]).unwrap_err();
    assert_eq!(e.code, "protocol_error");
}

fn percent_decode(s: &str) -> Vec<u8> {
    let b = s.as_bytes();
    let mut out = Vec::new();
    let mut i = 0;
    while i < b.len() {
        if b[i] == b'%' && i + 2 < b.len() {
            out.push(u8::from_str_radix(&s[i + 1..i + 3], 16).unwrap());
            i += 3;
        } else {
            out.push(b[i]);
            i += 1;
        }
    }
    out
}

#[test]
fn encoded_tokens_decode_back() {
    for token in ["a b", "%41", "A", "é~", "next/page?x=1&y=2", ""] {
        assert_eq!(percent_decode(&urlencode(token)), token.as_bytes());
    }
    assert_ne!(urlencode("%41"), urlencode("A"));
}
