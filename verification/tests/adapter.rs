use openai_adapter::{
    auth_header, build_request_body, endpoint, completion_from_response, find, models, resolve_config, temp_resolve,
    tools_from_response, ConfigError, Error, InputSchema, Json, Tool,
};

fn settings_with(model: Option<&str>, temperature: Option<&str>, role: Option<&str>) -> openai_adapter::Settings {
    resolve_config(
        Some("sk-test".to_string()),
        model.map(|s| s.to_string()),
        temperature.map(|s| s.to_string()),
        role.map(|s| s.to_string()),
    )
    .expect("resolution should succeed")
}

fn chars(s: &str) -> Vec<char> {
    s.chars().collect()
}

#[test]
fn lookup_is_case_insensitive_for_names() {
    for (query, expected) in [
        ("GPT-4O", "gpt-4o"),
        ("gpt-4o", "gpt-4o"),
        ("Gpt-4", "gpt-4"),
        ("GPT-4-1106-PREVIEW", "gpt-4-1106-preview"),
        ("gPt-4-32K", "gpt-4-32k"),
        ("GPT-3.5-TURBO", "gpt-3.5-turbo"),
        ("gpt-3.5-Turbo-1106", "gpt-3.5-turbo-1106"),
        ("GPT-3.5-turbo-16k", "gpt-3.5-turbo-16k"),
        ("GPT-3.5", "gpt-3.5"),
    ] {
        let m = find(query).expect(query);
        assert_eq!(m.name, expected);
    }
}

#[test]
fn lookup_finds_aliases_case_insensitively() {
    for (query, expected) in [
        ("4o", "gpt-4o"),
        ("4O", "gpt-4o"),
        ("4", "gpt-4"),
        ("128K", "gpt-4-1106-preview"),
        ("32k", "gpt-4-32k"),
        ("35T", "gpt-3.5-turbo"),
        ("35t-1106", "gpt-3.5-turbo-1106"),
        ("35T16K", "gpt-3.5-turbo-16k"),
        ("35", "gpt-3.5"),
    ] {
        let m = find(query).expect(query);
        assert_eq!(m.name, expected);
    }
}

#[test]
fn lookup_of_unknown_returns_absence() {
    assert!(find("gpt-5").is_none());
    assert!(find("").is_none());
    assert!(find("gpt-4o ").is_none());
}

#[test]
fn missing_model_resolves_to_registry_default() {
    let s = settings_with(None, None, None);
    assert_eq!(s.model.name, "gpt-4o");
    assert_eq!(s.model.aliases, vec!["4o".to_string()]);
}

#[test]
fn unknown_model_fails_resolution() {
    let r = resolve_config(
        Some("sk-test".to_string()),
        Some("gpt-9".to_string()),
        None,
        None,
    );
    assert_eq!(r.unwrap_err(), ConfigError::ModelNotFound);
}

#[test]
fn temperature_default_and_bounds() {
    let s = settings_with(None, None, None);
    assert_eq!(s.temperature, "0.7");
    let s = settings_with(None, Some("0.7"), None);
    assert_eq!(s.temperature, "0.7");
    assert_eq!(temp_resolve("1.5").unwrap_err(), ConfigError::TemperatureOutOfRange);
    assert_eq!(temp_resolve("-0.1").unwrap_err(), ConfigError::TemperatureOutOfRange);
    assert_eq!(temp_resolve("abc").unwrap_err(), ConfigError::TemperatureNotFloat);
    assert_eq!(temp_resolve("").unwrap_err(), ConfigError::TemperatureNotFloat);
    assert_eq!(temp_resolve("1.5.2").unwrap_err(), ConfigError::TemperatureNotFloat);
    assert_eq!(temp_resolve(".").unwrap_err(), ConfigError::TemperatureNotFloat);
}

#[test]
fn temperature_is_canonicalized() {
    assert_eq!(temp_resolve("0.70").unwrap(), "0.7");
    assert_eq!(temp_resolve(".5").unwrap(), "0.5");
    assert_eq!(temp_resolve("+0.5").unwrap(), "0.5");
    assert_eq!(temp_resolve("1.00").unwrap(), "1");
    assert_eq!(temp_resolve("1.").unwrap(), "1");
    assert_eq!(temp_resolve("0").unwrap(), "0");
    assert_eq!(temp_resolve("-0.0").unwrap(), "0");
    assert_eq!(temp_resolve("0.123456789123").unwrap(), "0.123456789123");
    assert_eq!(temp_resolve("2").unwrap_err(), ConfigError::TemperatureOutOfRange);
}

#[test]
fn missing_api_key_fails_resolution() {
    let r = resolve_config(None, None, None, None);
    assert_eq!(r.unwrap_err(), ConfigError::ApiKeyMissing);
    let msg = Error::Config(ConfigError::ApiKeyMissing).message();
    assert_eq!(msg, "API key not found");
}

#[test]
fn request_body_without_tools_omits_tool_keys() {
    let s = settings_with(None, None, None);
    let body = build_request_body(&s, "hi", None);
    assert_eq!(
        body,
        "{\"model\":\"gpt-4o\",\"temperature\":0.7,\"messages\":[{\"role\":\"system\",\"content\":\"\"},{\"role\":\"user\",\"content\":\"hi\"}]}"
    );
    assert!(!body.contains("tools"));
    assert!(!body.contains("tool_choice"));
    let body2 = build_request_body(&s, "hi", Some(Vec::new()));
    assert!(!body2.contains("tools"));
}

#[test]
fn request_body_with_tools_includes_required_choice() {
    let s = settings_with(Some("4"), Some("0.2"), Some("helper"));
    let tool = Tool {
        name: Some("lookup".to_string()),
        description: None,
        input_schema: InputSchema {
            data_type: "object".to_string(),
            properties: vec![(
                chars("q"),
                Json::Obj(vec![(chars("type"), Json::Str(chars("string")))]),
            )],
            required: vec!["q".to_string()],
        },
        tool_type: "function".to_string(),
    };
    let body = build_request_body(&s, "find x", Some(vec![tool]));
    assert_eq!(
        body,
        "{\"model\":\"gpt-4\",\"temperature\":0.2,\"messages\":[{\"role\":\"system\",\"content\":\"helper\"},{\"role\":\"user\",\"content\":\"find x\"}],\"tools\":[{\"type\":\"function\",\"function\":{\"name\":\"lookup\",\"description\":\"\",\"parameters\":{\"type\":\"object\",\"properties\":{\"q\":{\"type\":\"string\"}},\"required\":[\"q\"]}}}],\"tool_choice\":\"required\"}"
    );
}

#[test]
fn request_body_escapes_strings() {
    let s = settings_with(None, None, None);
    let body = build_request_body(&s, "say \"hi\"\n", None);
    assert!(body.contains("\"content\":\"say \\\"hi\\\"\\n\""));
}

#[test]
fn completion_extracts_content() {
    let body = r#"{"choices":[{"message":{"content":"hello","role":"assistant","tool_calls":null}}]}"#;
    let r = completion_from_response(200, body.to_string());
    assert_eq!(r.unwrap(), "hello");
}

#[test]
fn completion_decodes_escapes() {
    let body = "{\"choices\":[{\"message\":{\"content\":\"\\u0041\\n\\ud83d\\ude00\",\"role\":\"assistant\"}}]}";
    let r = completion_from_response(200, body.to_string());
    assert_eq!(r.unwrap(), "A\n\u{1F600}");
}

#[test]
fn completion_without_content_fails() {
    let body = r#"{"choices":[{"message":{"content":null,"role":"assistant"}}]}"#;
    let r = completion_from_response(200, body.to_string());
    assert_eq!(r.unwrap_err(), Error::NoCompletion);
    assert_eq!(Error::NoCompletion.message(), "No completion returned");
}

#[test]
fn malformed_response_fails_with_decode_error() {
    assert_eq!(
        completion_from_response(200, "not json".to_string()).unwrap_err(),
        Error::Decode
    );
    assert_eq!(
        completion_from_response(200, "{\"nochoices\":1}".to_string()).unwrap_err(),
        Error::Decode
    );
    assert_eq!(
        completion_from_response(200, "{\"choices\":[]}".to_string()).unwrap_err(),
        Error::Decode
    );
}

#[test]
fn tool_calls_are_reformatted_as_pretty_json() {
    let body = "{\"choices\":[{\"message\":{\"role\":\"assistant\",\"tool_calls\":[{\"id\":\"1\",\"type\":\"function\",\"function\":{\"name\":\"lookup\",\"arguments\":\"{\\\"q\\\":\\\"x\\\"}\"}}]}}]}";
    let r = tools_from_response(200, body.to_string());
    assert_eq!(
        r.unwrap(),
        "[\n  {\n    \"name\": \"lookup\",\n    \"input\": {\n      \"q\": \"x\"\n    }\n  }\n]"
    );
}

#[test]
fn tool_call_without_arguments_omits_input() {
    let body = "{\"choices\":[{\"message\":{\"role\":\"assistant\",\"tool_calls\":[{\"id\":\"1\",\"type\":\"function\",\"function\":{\"name\":\"ping\"}}]}}]}";
    let r = tools_from_response(200, body.to_string());
    assert_eq!(r.unwrap(), "[\n  {\n    \"name\": \"ping\"\n  }\n]");
}

#[test]
fn missing_tool_calls_fail() {
    let body = r#"{"choices":[{"message":{"content":"hi","role":"assistant"}}]}"#;
    let r = tools_from_response(200, body.to_string());
    assert_eq!(r.unwrap_err(), Error::NoToolCalls);
    assert_eq!(Error::NoToolCalls.message(), "No tool calls found");
}

#[test]
fn invalid_tool_arguments_fail_with_decode_error() {
    let body = "{\"choices\":[{\"message\":{\"role\":\"assistant\",\"tool_calls\":[{\"id\":\"1\",\"type\":\"function\",\"function\":{\"name\":\"lookup\",\"arguments\":\"not json\"}}]}}]}";
    let r = tools_from_response(200, body.to_string());
    assert_eq!(r.unwrap_err(), Error::Decode);
}

#[test]
fn non_success_status_fails_with_status_and_body() {
    let r = completion_from_response(403, "denied".to_string());
    let e = r.unwrap_err();
    assert_eq!(e, Error::Api(403, "denied".to_string()));
    let msg = e.message();
    assert!(msg.contains("403"));
    assert!(msg.contains("denied"));
    assert_eq!(msg, "error calling API\nStatus Code: 403\n Response: denied");
    let r2 = tools_from_response(403, "denied".to_string());
    assert_eq!(r2.unwrap_err(), Error::Api(403, "denied".to_string()));
}

#[test]
fn models_output_is_stable_and_exact() {
    let a = models();
    let b = models();
    assert_eq!(a, b);
    assert_eq!(
        a,
        "[{\"name\":\"gpt-4o\",\"aliases\":[\"4o\"]},{\"name\":\"gpt-4\",\"aliases\":[\"4\"]},{\"name\":\"gpt-4-1106-preview\",\"aliases\":[\"128k\"]},{\"name\":\"gpt-4-32k\",\"aliases\":[\"32k\"]},{\"name\":\"gpt-3.5-turbo\",\"aliases\":[\"35t\"]},{\"name\":\"gpt-3.5-turbo-1106\",\"aliases\":[\"35t-1106\"]},{\"name\":\"gpt-3.5-turbo-16k\",\"aliases\":[\"35t16k\"]},{\"name\":\"gpt-3.5\",\"aliases\":[\"35\"]}]"
    );
}

#[test]
fn resolution_order_reports_first_fault() {
    // a bad model and a bad temperature together: the model is reported
    let r = resolve_config(
        Some("sk".to_string()),
        Some("nope".to_string()),
        Some("abc".to_string()),
        None,
    );
    assert_eq!(r.unwrap_err(), ConfigError::ModelNotFound);
    // the api key is checked before everything else
    let r2 = resolve_config(None, Some("nope".to_string()), Some("abc".to_string()), None);
    assert_eq!(r2.unwrap_err(), ConfigError::ApiKeyMissing);
}

#[test]
fn role_defaults_to_empty_and_is_sent() {
    let s = settings_with(None, None, None);
    assert_eq!(s.role, "");
    let s2 = settings_with(None, None, Some("guide"));
    assert_eq!(s2.role, "guide");
    let body = build_request_body(&s2, "p", None);
    assert!(body.contains("{\"role\":\"system\",\"content\":\"guide\"}"));
}

#[test]
fn trailing_content_after_json_fails() {
    let r = completion_from_response(200, "{\"choices\":[]} x".to_string());
    assert_eq!(r.unwrap_err(), Error::Decode);
}

#[test]
fn lone_surrogate_escape_fails() {
    let body = "{\"choices\":[{\"message\":{\"content\":\"\\ud800\",\"role\":\"a\"}}]}";
    let r = completion_from_response(200, body.to_string());
    assert_eq!(r.unwrap_err(), Error::Decode);
}

#[test]
fn named_escapes_decode() {
    let body = "{\"choices\":[{\"message\":{\"content\":\"a\\/b\\\\c\\b\\f\\r\\t\",\"role\":\"a\"}}]}";
    let r = completion_from_response(200, body.to_string());
    assert_eq!(r.unwrap(), "a/b\\c\u{8}\u{c}\r\t");
}

#[test]
fn tool_argument_values_pass_through() {
    let body = "{\"choices\":[{\"message\":{\"role\":\"a\",\"tool_calls\":[{\"id\":\"1\",\"type\":\"function\",\"function\":{\"name\":\"f\",\"arguments\":\"{\\\"n\\\":-1.5,\\\"b\\\":true,\\\"z\\\":null,\\\"l\\\":[]}\"}}]}}]}";
    let r = tools_from_response(200, body.to_string());
    assert_eq!(
        r.unwrap(),
        "[\n  {\n    \"name\": \"f\",\n    \"input\": {\n      \"n\": -1.5,\n      \"b\": true,\n      \"z\": null,\n      \"l\": []\n    }\n  }\n]"
    );
}

#[test]
fn second_choice_is_ignored() {
    let body = "{\"choices\":[{\"message\":{\"content\":\"first\",\"role\":\"a\"}},{\"message\":{\"content\":\"second\",\"role\":\"a\"}}]}";
    let r = completion_from_response(200, body.to_string());
    assert_eq!(r.unwrap(), "first");
}

#[test]
fn invoker_header_and_endpoint() {
    assert_eq!(auth_header("sk-1"), "Bearer sk-1");
    assert_eq!(endpoint(), "https://api.openai.com/v1/chat/completions");
}
