use agent_core::sender::{
    authorization_value, chat_completions_url, create_openai_sender, debug_flag, request_headers, send_failure_text,
    send_step, OpenAiProvider, OpenAiProviderConfig, SendStep,
};

fn cfg() -> OpenAiProviderConfig {
    OpenAiProviderConfig {
        base_url: "https://api.example.com//".to_string(),
        api_key: "SECRET-REDACTED".to_string(),
        model_provider_id: Some("default".to_string()),
    }
}

#[test]
fn endpoint_url_and_headers() {
    assert_eq!(chat_completions_url("https://api.example.com//"), "https://api.example.com/v1/chat/completions");
    assert_eq!(chat_completions_url("http://h"), "http://h/v1/chat/completions");
    assert_eq!(authorization_value("k"), "Bearer k");
    let s = create_openai_sender(cfg(), "gpt-4o".to_string());
    let h = request_headers(&s);
    assert_eq!(h.len(), 3);
    assert_eq!(h[0], ("Authorization".to_string(), "Bearer SECRET-REDACTED".to_string()));
    assert_eq!(h[1], ("Content-Type".to_string(), "application/json".to_string()));
    assert_eq!(h[2], ("X-Model-Provider-Id".to_string(), "default".to_string()));
}

#[test]
fn rate_limits_are_retried_with_backoff() {
    assert!(matches!(send_step(200, "", 0), SendStep::Accept));
    assert!(matches!(send_step(299, "rate limit", 9), SendStep::Accept));
    assert!(matches!(send_step(429, "", 0), SendStep::Retry { delay_secs: 1 }));
    assert!(matches!(send_step(500, "circuit breaker open", 3), SendStep::Retry { delay_secs: 8 }));
    assert!(matches!(send_step(503, "hit the rate limit", 4), SendStep::Retry { delay_secs: 16 }));
    assert!(matches!(send_step(429, "", 5), SendStep::Fail { rate_limited: true }));
    assert!(matches!(send_step(400, "bad request", 0), SendStep::Fail { rate_limited: false }));
}

#[test]
fn failure_texts() {
    assert_eq!(send_failure_text(false, 400, "bad"), "openai: http status=400 body=bad");
    assert_eq!(
        send_failure_text(true, 429, "slow down"),
        "openai: rate limit exceeded after 5 retries. http status=429 body=slow down"
    );
}

#[test]
fn provider_serves_every_model() {
    let p = OpenAiProvider::new(cfg());
    assert_eq!(p.name(), "openai");
    assert!(p.supports_model("anything"));
    let s = p.sender_settings("m1");
    assert_eq!(s.model, "m1");
    assert_eq!(s.base_url, "https://api.example.com//");
}

#[test]
fn debug_switch() {
    assert!(!debug_flag(None));
    assert!(!debug_flag(Some("")));
    assert!(!debug_flag(Some("0")));
    assert!(debug_flag(Some("1")));
    assert!(debug_flag(Some("00")));
}
