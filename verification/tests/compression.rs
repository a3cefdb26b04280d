use agent_core::compression::{summary_message, CompressionConfig, CompressionStrategy};
use agent_core::json::JsonValue;
use agent_core::llm::{ChatContent, ChatMessage, ChatRole};

fn tool_calls_value() -> JsonValue {
    JsonValue::Array(vec![JsonValue::Object(vec![
        ("id".to_string(), JsonValue::Str("call1".to_string())),
        ("function_name".to_string(), JsonValue::Str("func1".to_string())),
        ("arguments".to_string(), JsonValue::Object(vec![])),
    ])])
}

fn sample() -> Vec<ChatMessage> {
    vec![
        ChatMessage::user_text("Question".to_string()),
        ChatMessage::assistant_tool_calls(tool_calls_value()),
        ChatMessage::tool_result("call1".to_string(), "result1".to_string()),
        ChatMessage::tool_result("call2".to_string(), "result2".to_string()),
        ChatMessage::user_text("Follow-up".to_string()),
    ]
}

#[test]
fn test_compression_config() {
    let config = CompressionConfig::default();
    assert_eq!(config.compress_threshold_tokens, 16000);
    assert!(config.enabled);

    let config = CompressionConfig { enabled: false, ..Default::default() };
    assert!(!config.enabled);
}

#[test]
fn test_should_compress() {
    let config = CompressionConfig { compress_threshold_tokens: 100, ..Default::default() };
    let strategy = CompressionStrategy::new(config);

    let messages = vec![ChatMessage { role: ChatRole::User, content: ChatContent::Text("Short".to_string()) }];
    assert!(!strategy.should_compress(&messages));

    let long_messages: Vec<_> = (0..50)
        .map(|i| ChatMessage { role: ChatRole::User, content: ChatContent::Text(format!("Message {}", i)) })
        .collect();
    assert!(strategy.should_compress(&long_messages));
}

#[test]
fn test_clean_leading_tool_messages() {
    let mut messages = vec![
        ChatMessage::tool_result("id1".to_string(), "result1".to_string()),
        ChatMessage::tool_result("id2".to_string(), "result2".to_string()),
        ChatMessage::user_text("Hello".to_string()),
    ];

    CompressionStrategy::clean_leading_tool_messages(&mut messages);

    assert_eq!(messages.len(), 1);
    assert_eq!(messages[0].role, ChatRole::User);
}

#[test]
fn test_adjust_compress_until_for_tool_calls() {
    let strategy = CompressionStrategy::new(CompressionConfig::default());
    let messages = sample();

    let adjusted = strategy.adjust_compress_until_for_tool_calls(&messages, 2);
    assert_eq!(adjusted, 4, "Should include all Tool messages after ToolCalls");

    let adjusted = strategy.adjust_compress_until_for_tool_calls(&messages, 1);
    assert_eq!(adjusted, 1, "Safe position should not be adjusted");
}

#[test]
fn test_adjust_keep_from_for_tool_calls() {
    let strategy = CompressionStrategy::new(CompressionConfig::default());
    let messages = sample();

    let adjusted = strategy.adjust_keep_from_for_tool_calls(&messages, 2);
    assert_eq!(adjusted, 1, "Should move back to include the ToolCalls message");

    let adjusted = strategy.adjust_keep_from_for_tool_calls(&messages, 3);
    assert_eq!(adjusted, 1, "Should move back to include the ToolCalls message");

    let adjusted = strategy.adjust_keep_from_for_tool_calls(&messages, 4);
    assert_eq!(adjusted, 4, "Safe position should not be adjusted");
}

#[test]
fn split_point_never_separates_calls_from_results() {
    // With tiny budgets the cut would land inside the tool exchange; it is
    // moved so that the call and its results stay together.
    let config = CompressionConfig {
        compress_threshold_tokens: 1,
        compress_target_tokens: 3,
        keep_recent_tokens: 1,
        enabled: true,
    };
    let strategy = CompressionStrategy::new(config);
    let messages = sample();
    let (compress_until, keep_from) = strategy.find_split_point(&messages);
    assert!(compress_until <= keep_from && keep_from <= messages.len());
    if compress_until > 0 && compress_until < messages.len() {
        let prev = &messages[compress_until - 1];
        let is_call = prev.role == ChatRole::Assistant && matches!(prev.content, ChatContent::ToolCalls(_));
        assert!(!(is_call && messages[compress_until].role == ChatRole::Tool));
    }
}

#[test]
fn summarization_prompt_is_exact() {
    let strategy = CompressionStrategy::new(CompressionConfig::default());
    let long = "x".repeat(120);
    let messages = vec![
        ChatMessage::user_text("Hi".to_string()),
        ChatMessage::tool_result("c1".to_string(), long),
        ChatMessage::assistant_tool_calls(JsonValue::Array(vec![JsonValue::Bool(true)])),
    ];
    let p = strategy.build_summarization_prompt(&messages);
    let expected_dialogue = format!(
        "1. User: Hi\n\n2. Tool: [Tool result c1: {}...]\n\n3. Assistant: [Tool calls: [true]]\n\n",
        "x".repeat(100)
    );
    let expected = format!(
        "Summarize the key information from the following conversation. Requirements:\n1. Concisely summarize the main topics and conclusions\n2. Preserve important facts, decisions, and outcomes\n3. If there are tool calls, explain what operations were performed\n4. Keep it under 300 words\n5. Use bullet point format (start with -)\n\nConversation:\n{}\n\nOutput the summary directly without any preamble:",
        expected_dialogue
    );
    assert_eq!(p, expected);
}

#[test]
fn summary_message_text() {
    let m = summary_message(12, "1700000000.yaml", Some("  - did things \n"));
    assert_eq!(m.role, ChatRole::System);
    match m.content {
        ChatContent::Text(t) => assert_eq!(
            t,
            "[Previous 12 messages archived to history/1700000000.yaml]\n\nSummary:\n- did things\n\nConversation continues..."
        ),
        _ => panic!(),
    }
    let m = summary_message(1, "a.yaml", None);
    match m.content {
        ChatContent::Text(t) => assert!(t.contains("Summary:\n（无法生成摘要）\n\n")),
        _ => panic!(),
    }
}
