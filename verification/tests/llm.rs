use agent_core::json::JsonValue;
use agent_core::llm::{build_chat_completions_body, parse_chat_completions_response, request_body_text, ChatContent, ChatMessage, ChatRole};
use agent_core::stream::{OpenAiStreamAccumulator, OpenAiStreamDelta};

fn obj(members: Vec<(&str, JsonValue)>) -> JsonValue {
    JsonValue::Object(members.into_iter().map(|(k, v)| (k.to_string(), v)).collect())
}

#[test]
fn chat_body_text() {
    let ms = vec![
        ChatMessage::system_text("sys".to_string()),
        ChatMessage::tool_result("c1".to_string(), "out".to_string()),
    ];
    assert_eq!(
        request_body_text("gpt", &ms, &[]),
        "{\"messages\":[{\"content\":\"sys\",\"role\":\"system\"},{\"content\":\"out\",\"role\":\"tool\",\"tool_call_id\":\"c1\"}],\"model\":\"gpt\",\"stream\":false}"
    );
    match build_chat_completions_body("gpt", &ms, &[]) {
        JsonValue::Object(m) => {
            let keys: Vec<&str> = m.iter().map(|e| e.0.as_str()).collect();
            assert_eq!(keys, vec!["model", "stream", "messages"]);
        }
        _ => panic!(),
    }
}

#[test]
fn tool_calls_win_over_content() {
    let msg = obj(vec![
        ("content", JsonValue::Str("text".to_string())),
        ("tool_calls", JsonValue::Array(vec![JsonValue::Null])),
    ]);
    let root = obj(vec![("choices", JsonValue::Array(vec![obj(vec![("message", msg)])]))]);
    let r = parse_chat_completions_response(&root).ok().unwrap();
    assert_eq!(r.role, ChatRole::Assistant);
    assert!(matches!(r.content, ChatContent::ToolCalls(_)));

    let msg = obj(vec![("content", JsonValue::Str("text".to_string())), ("tool_calls", JsonValue::Array(vec![]))]);
    let root = obj(vec![("choices", JsonValue::Array(vec![obj(vec![("message", msg)])]))]);
    let r = parse_chat_completions_response(&root).ok().unwrap();
    assert!(matches!(r.content, ChatContent::Text(ref t) if t == "text"));

    let root = obj(vec![("choices", JsonValue::Array(vec![obj(vec![("message", obj(vec![]))])]))]);
    match parse_chat_completions_response(&root) {
        Err(e) => assert_eq!(e.to_string(), "openai: message has neither tool_calls nor string content"),
        Ok(_) => panic!(),
    }
    match parse_chat_completions_response(&obj(vec![])) {
        Err(e) => assert_eq!(e.to_string(), "openai: missing choices"),
        Ok(_) => panic!(),
    }
}

#[test]
fn stream_fragments_accumulate() {
    let mut acc = OpenAiStreamAccumulator::new();
    let mut d = OpenAiStreamDelta { tool_calls_delta: vec![] };
    assert!(!acc.has_tool_calls());
    let l1 = r#"{"choices":[{"delta":{"tool_calls":[{"index":0,"id":"call_1","function":{"name":"file-read","arguments":"{\"pa"}}]}}]}"#;
    assert_eq!(acc.feed_data_line(l1, &mut d).ok(), Some(true));
    assert_eq!(d.tool_calls_delta.len(), 1);
    assert_eq!(d.tool_calls_delta[0].id.as_deref(), Some("call_1"));
    let l2 = r#"{"choices":[{"delta":{"tool_calls":[{"index":0,"function":{"arguments":"th\":\"x\"}"}}]}}]}"#;
    assert_eq!(acc.feed_data_line(l2, &mut d).ok(), Some(true));
    assert_eq!(d.tool_calls_delta[0].arguments_json.as_deref(), Some("th\":\"x\"}"));
    assert!(acc.has_tool_calls());
    let v = acc.build_assistant_tool_calls_value();
    let body = request_body_text("m", &[ChatMessage::assistant_tool_calls(v)], &[]);
    assert_eq!(
        body,
        "{\"messages\":[{\"role\":\"assistant\",\"tool_calls\":[{\"function\":{\"arguments\":\"{\\\"path\\\":\\\"x\\\"}\",\"name\":\"file-read\"},\"id\":\"call_1\",\"type\":\"function\"}]}],\"model\":\"m\",\"stream\":false}"
    );
    let plain = r#"{"choices":[{"delta":{"content":"hi"}}]}"#;
    assert_eq!(acc.feed_data_line(plain, &mut d).ok(), Some(true));
    assert!(d.tool_calls_delta.is_empty());
    match acc.feed_data_line("nope", &mut d) {
        Err(e) => assert_eq!(e.to_string(), "failed to parse stream line json"),
        Ok(_) => panic!(),
    }
    match acc.feed_data_line(r#"{"choices":[{"delta":{"tool_calls":5}}]}"#, &mut d) {
        Err(e) => assert_eq!(e.to_string(), "delta.tool_calls not array"),
        Ok(_) => panic!(),
    }
}

#[test]
fn no_fragments_no_tool_calls() {
    let acc = OpenAiStreamAccumulator::new();
    assert!(!acc.has_tool_calls());
    assert!(matches!(acc.build_assistant_tool_calls_value(), JsonValue::Array(ref a) if a.is_empty()));
}
