use agent_core::llm::ChatMessage;
use agent_core::tokens::{estimate_message_tokens, estimate_messages_tokens, estimate_tokens, try_estimate_messages_tokens};

#[test]
fn test_estimate_tokens() {
    assert_eq!(estimate_tokens(""), 0);

    let ascii = "Hello world";
    let tokens = estimate_tokens(ascii);
    assert_eq!(tokens, 2, "Hello world should be 2 tokens");

    let cjk = "你好世界";
    let tokens = estimate_tokens(cjk);
    assert_eq!(tokens, 5, "你好世界 should be 5 tokens");

    let mixed = "Hello 世界";
    let tokens = estimate_tokens(mixed);
    assert_eq!(tokens, 5, "Hello 世界 should be 5 tokens");

    let code = "fn main() { println!(\"Hello\"); }";
    let tokens = estimate_tokens(code);
    assert_eq!(tokens, 9, "Code snippet should be 9 tokens");
}

#[test]
fn message_tokens_add_up() {
    let ms = vec![
        ChatMessage::user_text("Hello world".to_string()),
        ChatMessage::tool_result("id".to_string(), "Hello world".to_string()),
    ];
    assert_eq!(estimate_message_tokens(&ms[0]), 2);
    assert_eq!(estimate_message_tokens(&ms[1]), 2);
    assert_eq!(estimate_messages_tokens(&ms), 4);
    assert_eq!(try_estimate_messages_tokens(&ms), Some(4));
}
