use agent_core::data_store::DataStore;
use agent_core::history::{InMemoryHistory, PersistentHistory};
use agent_core::json::JsonValue;
use agent_core::llm::{ChatMessage, ChatRole};

#[test]
fn window_keeps_newest_and_never_starts_with_tool() {
    let mut h = InMemoryHistory::new_with_limit(3);
    h.append(ChatMessage::user_text("q1".to_string()));
    h.append(ChatMessage::assistant_tool_calls(JsonValue::Array(vec![])));
    h.append(ChatMessage::tool_result("c".to_string(), "r".to_string()));
    assert_eq!(h.len(), 3);
    h.append(ChatMessage::user_text("q2".to_string()));
    let all = h.get_all();
    assert!(all[0].role != ChatRole::Tool);
    assert_eq!(all.last().unwrap().role, ChatRole::User);
    assert_eq!(h.get_recent(1).len(), 1);
    assert_eq!(h.get_recent(10).len(), all.len());
    h.clear();
    assert!(h.is_empty());
    assert!(h.last().is_none());
}

#[test]
fn default_limit_is_a_thousand() {
    let mut h = InMemoryHistory::new();
    for i in 0..1005 {
        h.append(ChatMessage::user_text(format!("m{}", i)));
    }
    assert_eq!(h.len(), 1000);
}

#[test]
fn persistent_history_layout_and_window() {
    let store = DataStore::new("/data".to_string());
    let dir = store.root_dir().subdir("work");
    let h = PersistentHistory::new(dir);
    assert_eq!(h.history_path(), "/data/work/history.yaml");
    assert_eq!(h.archive_dir(), "/data/work/history");
    assert_eq!(h.max_size, 1000);

    let mut ms: Vec<ChatMessage> = Vec::new();
    for i in 0..1001 {
        if i == 1 {
            ms.push(ChatMessage::tool_result("c".to_string(), "r".to_string()));
        } else {
            ms.push(ChatMessage::user_text(format!("m{}", i)));
        }
    }
    h.apply_window(&mut ms);
    // One message over the limit is dropped, then the leading tool result.
    assert_eq!(ms.len(), 999);
    assert!(ms[0].role != ChatRole::Tool);

    let mut few = vec![ChatMessage::user_text("a".to_string()), ChatMessage::user_text("b".to_string())];
    assert_eq!(h.compression_cut(&few), 0);
    let head = PersistentHistory::take_oldest(&mut few, 1);
    assert_eq!(head.len(), 1);
    assert_eq!(few.len(), 1);
    PersistentHistory::insert_summary(&mut few, ChatMessage::system_text("s".to_string()));
    assert_eq!(few[0].role, ChatRole::System);
    assert_eq!(PersistentHistory::recent_of(&few, 1).len(), 1);
}

#[test]
fn below_the_limit_nothing_is_dropped() {
    let mut h = InMemoryHistory::new_with_limit(10);
    for i in 0..10 {
        h.append(ChatMessage::tool_result(format!("c{}", i), "r".to_string()));
    }
    assert_eq!(h.len(), 10);
    assert_eq!(h.get_all()[0].role, ChatRole::Tool);
}
