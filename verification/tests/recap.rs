use agent_core::llm::{ChatContent, ChatMessage, ChatRole};
use agent_core::recap::{node_message, recap_reply_text, ReCapAgent, ReCapLevel, ReCapNode, MAX_RECAP_NODES};

fn text_of(m: &ChatMessage) -> String {
    match &m.content {
        ChatContent::Text(t) => t.clone(),
        _ => panic!("expected text"),
    }
}

#[test]
fn recaps_stay_bounded() {
    let mut agent = ReCapAgent::new(false);
    assert!(!agent.debug());
    for i in 0..20 {
        agent.record_recap(format!("recap {}", i));
        if agent.needs_rollup() {
            agent.apply_rollup(format!("rollup {}", i));
        }
        assert!(agent.node_count() <= MAX_RECAP_NODES);
    }
}

#[test]
fn rollup_replaces_older_half() {
    let mut agent = ReCapAgent::new(true);
    for i in 0..9 {
        agent.record_recap(format!("r{}", i));
    }
    assert!(agent.needs_rollup());
    agent.apply_rollup("summary".to_string());
    // 9 nodes: the older 4 become one recap, the newer 5 stay.
    assert_eq!(agent.node_count(), 6);
    let msgs = agent.act_request(&[], &[]);
    assert_eq!(msgs.len(), 6);
    assert_eq!(text_of(&msgs[0]), "ReCAP (Recap):\nsummary");
    assert_eq!(text_of(&msgs[1]), "ReCAP (History):\nr4");
    assert_eq!(text_of(&msgs[5]), "ReCAP (History):\nr8");
}

#[test]
fn node_messages_trim_text() {
    let n = ReCapNode { level: ReCapLevel::History, text: "  goals \n".to_string() };
    let m = node_message(&n);
    assert_eq!(m.role, ChatRole::System);
    assert_eq!(text_of(&m), "ReCAP (History):\ngoals");
}

#[test]
fn recap_request_layout() {
    let mut agent = ReCapAgent::new(false);
    let history = vec![ChatMessage::user_text("hi".to_string())];
    let segs = vec!["seg".to_string()];
    let first = agent.recap_request(&segs, &history);
    assert_eq!(first.len(), 4);
    assert_eq!(text_of(&first[0]), "seg");
    assert!(text_of(&first[1]).starts_with("You are producing a ReCAP memory update.\nReturn ONLY plain text"));
    assert_eq!(text_of(&first[2]), "Raw interaction history follows:");
    assert_eq!(first[3].role, ChatRole::User);

    agent.record_recap("old".to_string());
    let second = agent.recap_request(&segs, &history);
    assert_eq!(second.len(), 6);
    assert_eq!(text_of(&second[1]), "Existing ReCAP memory (most recent last):");
    assert_eq!(text_of(&second[2]), "ReCAP (History):\nold");

    let roll = agent.rollup_request(&segs);
    // One node: the older half is empty.
    assert_eq!(roll.len(), 2);
    assert!(text_of(&roll[1]).starts_with("You are rolling up multiple ReCAP summaries"));
}

#[test]
fn recap_replies_must_be_assistant_text() {
    assert_eq!(recap_reply_text(ChatMessage::assistant_text("t".to_string()), false).ok(), Some("t".to_string()));
    match recap_reply_text(ChatMessage::user_text("t".to_string()), true) {
        Err(e) => assert_eq!(e.to_string(), "recap_rollup: reply role is not assistant"),
        _ => panic!(),
    }
    let tc = ChatMessage::assistant_tool_calls(agent_core::json::JsonValue::Array(vec![]));
    match recap_reply_text(tc, false) {
        Err(e) => assert_eq!(e.to_string(), "recap: unexpected tool_calls"),
        _ => panic!(),
    }
}
