use agent_core::react::{AfterThink, ReActAgent, ThinkDecision};

fn is_err_with(r: &Result<ThinkDecision, agent_core::react::ThinkError>) -> String {
    match r {
        Ok(_) => panic!("expected an error"),
        Err(e) => e.to_string(),
    }
}

#[test]
fn test_parse_think_decision_single_marker() {
    let agent = ReActAgent::new();

    let result = agent.parse_think_decision("[think] Let me analyze this problem...");
    assert!(result.is_ok());
    assert!(matches!(result.unwrap(), ThinkDecision::ContinueThinking { .. }));

    let result = agent.parse_think_decision("[act] I will use file-glob tool.");
    assert!(result.is_ok());
    assert!(matches!(result.unwrap(), ThinkDecision::ReadyToAct { .. }));

    let result = agent.parse_think_decision("[answer] The answer is 42.");
    assert!(result.is_ok());
    assert!(matches!(result.unwrap(), ThinkDecision::FinalAnswer { .. }));
}

#[test]
fn test_parse_think_decision_marker_in_content_ok() {
    let agent = ReActAgent::new();

    let result = agent.parse_think_decision("[think] I'm considering using [act] later.");
    assert!(result.is_ok());
    assert!(matches!(result.unwrap(), ThinkDecision::ContinueThinking { .. }));

    let result = agent.parse_think_decision("[act] I will use tool.\n<tool_call>{\"desc\": \"[act] marker\"}");
    assert!(result.is_ok());
    assert!(matches!(result.unwrap(), ThinkDecision::ReadyToAct { .. }));
}

#[test]
fn test_parse_think_decision_rejects_multiple_markers() {
    let agent = ReActAgent::new();

    let result = agent.parse_think_decision("[think] Let me analyze.\n[act] I will use tools.");
    assert!(result.is_err());
    let err_msg = is_err_with(&result);
    assert!(err_msg.contains("multiple"));

    let result = agent.parse_think_decision("[think] Thinking...\n\n[answer] Here's the answer.");
    assert!(result.is_err());
    let err_msg = is_err_with(&result);
    assert!(err_msg.contains("multiple"));
}

#[test]
fn test_parse_think_decision_no_marker_error() {
    let agent = ReActAgent::new();

    let result = agent.parse_think_decision("I forgot to add a marker.");
    assert!(result.is_err());
    let err_msg = is_err_with(&result);
    assert!(err_msg.contains("missing marker") || err_msg.contains("History will be cleared"));
}

#[test]
fn test_parse_think_decision_marker_not_at_start_error() {
    let agent = ReActAgent::new();

    let result = agent.parse_think_decision("Let me think... [think] Now analyzing.");
    assert!(result.is_err());
    let err_msg = is_err_with(&result);
    assert!(err_msg.contains("missing marker") || err_msg.contains("History will be cleared"));
}

#[test]
fn test_parse_think_decision_empty_output_error() {
    let agent = ReActAgent::new();

    let result = agent.parse_think_decision("");
    assert!(result.is_err());
    let err_msg = is_err_with(&result);
    assert!(err_msg.contains("empty") || err_msg.contains("History will be cleared"));
}

#[test]
fn think_payloads_are_exact() {
    let agent = ReActAgent::new();
    match agent.parse_think_decision("  [think] step one  \n") {
        Ok(ThinkDecision::ContinueThinking { thought }) => assert_eq!(thought, "[think] step one"),
        _ => panic!("expected a thought"),
    }
    match agent.parse_think_decision("[answer]   42  ") {
        Ok(ThinkDecision::FinalAnswer { answer }) => assert_eq!(answer, "42"),
        _ => panic!("expected an answer"),
    }
    match agent.parse_think_decision("[act]\n  [think] nested") {
        Err(e) => assert!(e.to_string().starts_with("Think phase output contains multiple decision markers")),
        _ => panic!("expected an error"),
    }
    match agent.parse_think_decision("no marker here") {
        Err(e) => assert_eq!(
            e.to_string(),
            "Think phase output missing marker (likely due to unstable LLM response). History will be cleared. Got: no marker here"
        ),
        _ => panic!("expected an error"),
    }
}

#[test]
fn markers_exclude_each_other() {
    let agent = ReActAgent::new();
    // Exactly one decision per output: an answer that opens a line with
    // another marker is refused.
    assert!(agent.parse_think_decision("[answer] done\n[act] more").is_err());
    assert!(agent.parse_think_decision("[answer] mention [act] inline").is_ok());
}

#[test]
fn after_think_steps() {
    let agent = ReActAgent::new().with_logging(false);
    assert!(!agent.enable_logging);
    let d = ThinkDecision::ContinueThinking { thought: "[think] x".to_string() };
    match agent.after_think(&d) {
        AfterThink::ThinkAgain(m) => match m.content {
            agent_core::llm::ChatContent::Text(t) => assert_eq!(t, "Continue thinking."),
            _ => panic!(),
        },
        _ => panic!("expected another think phase"),
    }
    let d = ThinkDecision::ReadyToAct { thought: "[act] x".to_string() };
    match agent.after_think(&d) {
        AfterThink::Act(m) => match m.content {
            agent_core::llm::ChatContent::Text(t) => assert_eq!(t, "Proceed with the action."),
            _ => panic!(),
        },
        _ => panic!("expected the act phase"),
    }
    let d = ThinkDecision::FinalAnswer { answer: "42".to_string() };
    assert!(matches!(agent.after_think(&d), AfterThink::Done));
    let m = agent.observation_message("found 3 files");
    match m.content {
        agent_core::llm::ChatContent::Text(t) => assert_eq!(t, "Observation: found 3 files"),
        _ => panic!(),
    }
}

#[test]
fn react_agent_default_logs() {
    assert!(ReActAgent::default().enable_logging);
    assert!(ReActAgent::new().enable_logging);
    assert!(!ReActAgent::default().with_logging(false).enable_logging);
}
