use agent_core::json::JsonValue;
use agent_core::history::InMemoryHistory;
use agent_core::llm::ChatMessage;
use agent_core::session::{make_user_message, SessionBuilder, StaticSystemPromptSegment};
use agent_core::support::{
    runtime_from_agent_config, AgentConfig, ArchivedHistory, HistoryArchiver, JsonFileStorage, OpenAiProviderConfig,
    SkillRegistry,
};

#[test]
fn archive_names_and_listing() {
    let a = HistoryArchiver::new("/w/.agent/history".to_string());
    assert_eq!(a.archive_dir(), "/w/.agent/history");
    assert_eq!(HistoryArchiver::filename_at(1700000000), "1700000000.yaml");
    let generated = a.generate_filename();
    assert!(generated.ends_with(".yaml"));
    assert!(generated[..generated.len() - 5].chars().all(|c| c.is_ascii_digit()));
    assert_eq!(a.archive_path("1.yaml"), "/w/.agent/history/1.yaml");
    let names = vec!["2.yaml".to_string(), "notes.md".to_string(), "1.yaml".to_string(), ".yaml".to_string()];
    assert_eq!(HistoryArchiver::archives_of(&names), vec![".yaml", "1.yaml", "2.yaml"]);
}

#[test]
fn archive_names_differ_within_one_second() {
    let t = 1_700_000_000_000_000_000u128;
    assert_eq!(HistoryArchiver::filename_at(t), "1700000000000000000.yaml");
    assert_ne!(HistoryArchiver::filename_at(t), HistoryArchiver::filename_at(t + 1));
    assert_ne!(HistoryArchiver::filename_at(1), HistoryArchiver::filename_at(10));
}

#[test]
fn archived_history_counts_messages() {
    let messages = vec![
        ChatMessage::user_text("Hello".to_string()),
        ChatMessage::assistant_text("Hi!".to_string()),
    ];
    let a = ArchivedHistory::new("2024-01-01T00:00:00+00:00".to_string(), messages).unwrap();
    assert_eq!(a.message_count, 2);
    assert_eq!(a.messages.len(), 2);
    assert_eq!(a.estimated_tokens, 3);
}

#[test]
fn skills_are_markdown_stems_sorted() {
    let r = SkillRegistry::new("/skills".to_string());
    assert_eq!(r.skills_dir(), "/skills");
    assert_eq!(r.skill_path("deploy"), "/skills/deploy.md");
    let names = vec!["zeta.md".to_string(), "alpha.md".to_string(), "readme.txt".to_string(), ".md".to_string()];
    let skills = SkillRegistry::skills_of(&names);
    let got: Vec<&str> = skills.iter().map(|s| s.name.as_str()).collect();
    assert_eq!(got, vec!["alpha", "zeta"]);
    assert!(skills.iter().all(|s| s.description.is_empty()));
    match r.execute("x", &JsonValue::Null) {
        Err(e) => assert_eq!(e.to_string(), "skill execution not implemented"),
        Ok(_) => panic!(),
    }
}

#[test]
fn json_storage_paths() {
    let s = JsonFileStorage::new("/store".to_string());
    assert_eq!(s.root(), "/store");
    assert_eq!(s.file_path("a/b.json"), "/store/a/b.json");
}

#[test]
fn config_to_runtime() {
    let cfg = AgentConfig {
        model: "gpt-4o".to_string(),
        openai: Some(OpenAiProviderConfig { base_url: "u".to_string(), api_key: "k".to_string() }),
    };
    let r = runtime_from_agent_config(&cfg);
    let o = r.openai.unwrap();
    assert_eq!(o.base_url, "u");
    assert_eq!(o.api_key, "k");
    assert!(o.model_provider_id.is_none());
    let none = runtime_from_agent_config(&AgentConfig { model: "m".to_string(), openai: None });
    assert!(none.openai.is_none());
}

#[test]
fn session_defaults() {
    let b: SessionBuilder<u8, &str, StaticSystemPromptSegment, InMemoryHistory> = SessionBuilder::new(7);
    let s = b.add_tool("file").add_tool("shell").build("/cwd".to_string());
    assert_eq!(*s.runtime(), 7);
    assert_eq!(s.workspace_path(), "/cwd");
    assert_eq!(s.agent_path(), "/cwd/.agent");
    assert_eq!(s.default_model(), "");
    assert_eq!(s.tools(), &["file", "shell"]);
    assert!(s.history().messages.is_empty());
    assert_eq!(s.history().max_size, 1000);

    let mut given = InMemoryHistory::new_with_limit(5);
    given.messages.push(make_user_message("hi".to_string()));
    let b: SessionBuilder<u8, &str, StaticSystemPromptSegment, InMemoryHistory> = SessionBuilder::new(1);
    let s = b
        .set_workspace_path("/w".to_string())
        .set_agent_path("/a".to_string())
        .set_default_model("m".to_string())
        .add_system_prompt_segment(StaticSystemPromptSegment::new("be brief".to_string()))
        .set_history(given)
        .build("/cwd".to_string());
    assert_eq!(s.workspace_path(), "/w");
    assert_eq!(s.agent_path(), "/a");
    assert_eq!(s.default_model(), "m");
    assert_eq!(s.system_prompt_segments()[0].render(), "be brief");
    assert_eq!(s.history().messages.len(), 1);
    assert_eq!(s.history().max_size, 5);
}

#[test]
fn session_keeps_tools_and_segments_in_order() {
    let b: SessionBuilder<u8, &str, StaticSystemPromptSegment, InMemoryHistory> = SessionBuilder::new(2);
    let s = b
        .add_tool("a")
        .add_system_prompt_segment(StaticSystemPromptSegment::new("one".to_string()))
        .add_tool("b")
        .add_tool("c")
        .add_system_prompt_segment(StaticSystemPromptSegment::new("two".to_string()))
        .build("/cwd".to_string());
    assert_eq!(s.tools(), &["a", "b", "c"]);
    assert_eq!(s.system_prompt_segments().len(), 2);
    assert_eq!(s.system_prompt_segments()[0].render(), "one");
    assert_eq!(s.system_prompt_segments()[1].render(), "two");
}
