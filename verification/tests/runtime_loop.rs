use agent_core::agent::{last_assistant_text, latest_assistant_text, needs_spool, plan_spool, safe_function_name, AnswerError};
use agent_core::json::JsonValue;
use agent_core::llm::{ChatContent, ChatMessage, ChatRole};
use agent_core::runtime::{
    assemble_system_prompt, check_model, choose_sender, is_blank, next_step, next_step_in_round, tool_error_text, with_system_prompt,
    LoopError, ReplyStep, SenderChoice, MAX_TOOL_ITERATIONS,
};

fn call(id: &str, name: &str, args: &str) -> JsonValue {
    JsonValue::Object(vec![
        ("id".to_string(), JsonValue::Str(id.to_string())),
        ("type".to_string(), JsonValue::Str("function".to_string())),
        (
            "function".to_string(),
            JsonValue::Object(vec![
                ("name".to_string(), JsonValue::Str(name.to_string())),
                ("arguments".to_string(), JsonValue::Str(args.to_string())),
            ]),
        ),
    ])
}

#[test]
fn missing_model_is_refused() {
    assert!(matches!(check_model(""), Err(LoopError::MissingModel)));
    assert!(check_model("gpt-4o").is_ok());
    assert_eq!(LoopError::MissingModel.to_string(), "agent: missing default model");
}

#[test]
fn text_reply_finishes_the_run() {
    let r = next_step(&ChatMessage::assistant_text("done".to_string()));
    assert!(matches!(r, Ok(ReplyStep::Finished)));
}

#[test]
fn tool_calls_are_run_in_order() {
    let v = JsonValue::Array(vec![call("a", "file-read", "{\"path\":\"x\"}"), call("b", "shell-exec", "{}")]);
    match next_step(&ChatMessage::assistant_tool_calls(v)) {
        Ok(ReplyStep::RunTools(calls)) => {
            assert_eq!(calls.len(), 2);
            assert_eq!(calls[0].id, "a");
            assert_eq!(calls[0].function_name, "file-read");
            match &calls[0].arguments {
                JsonValue::Object(m) => {
                    assert_eq!(m.len(), 1);
                    assert_eq!(m[0].0, "path");
                    assert!(matches!(&m[0].1, JsonValue::Str(s) if s == "x"));
                }
                _ => panic!("arguments should be an object"),
            }
            assert_eq!(calls[1].function_name, "shell-exec");
        }
        _ => panic!("expected tool calls"),
    }
}

#[test]
fn bad_replies_are_errors() {
    let empty = next_step(&ChatMessage::assistant_tool_calls(JsonValue::Array(vec![])));
    assert!(matches!(empty, Err(LoopError::EmptyToolCalls)));
    assert_eq!(LoopError::EmptyToolCalls.to_string(), "tool_loop: empty tool_calls");

    let user = next_step(&ChatMessage::user_text("hi".to_string()));
    assert!(matches!(user, Err(LoopError::NotAssistant)));
    assert_eq!(LoopError::NotAssistant.to_string(), "tool_loop: reply role is not assistant");

    let result = ChatMessage { role: ChatRole::Assistant, content: ChatContent::ToolResult { tool_call_id: "x".to_string(), result: "y".to_string() } };
    assert!(matches!(next_step(&result), Err(LoopError::UnexpectedMessage)));

    let not_array = next_step(&ChatMessage::assistant_tool_calls(JsonValue::Null));
    match not_array {
        Err(e) => assert_eq!(e.to_string(), "tool_calls is not array"),
        _ => panic!(),
    }
    let bad_args = next_step(&ChatMessage::assistant_tool_calls(JsonValue::Array(vec![call("a", "f", "{not json")])));
    match bad_args {
        Err(e) => assert_eq!(e.to_string(), "failed to parse function.arguments"),
        _ => panic!(),
    }
    let no_tool = LoopError::NoToolForFunction { function_name: "zap".to_string() };
    assert_eq!(no_tool.to_string(), "tool_loop: no tool for function: zap");
}

#[test]
fn tool_error_text_names_function_and_cause() {
    assert_eq!(tool_error_text("file-read", "not found"), "tool error\nfunction: file-read\nmessage: not found");
}

#[test]
fn sender_choice_prefers_first_provider() {
    assert!(matches!(choose_sender(&[false, true, true], false), Ok(SenderChoice::Provider(1))));
    assert!(matches!(choose_sender(&[false, false], true), Ok(SenderChoice::OpenAi)));
    match choose_sender(&[], false) {
        Err(e) => assert_eq!(e.to_string(), "missing openai provider config"),
        _ => panic!(),
    }
}

#[test]
fn system_prompt_joins_nonblank_segments() {
    assert!(is_blank(" \n\t"));
    assert!(!is_blank(" a "));
    let parts = vec!["You are helpful.".to_string(), "   ".to_string(), "Be brief.".to_string()];
    assert_eq!(assemble_system_prompt(&parts), "You are helpful.\n\nBe brief.");
    assert_eq!(assemble_system_prompt(&[]), "");
}

#[test]
fn system_prompt_goes_first_once() {
    let ms = vec![ChatMessage::user_text("hi".to_string())];
    let r = with_system_prompt(ms, "sys".to_string());
    assert_eq!(r.len(), 2);
    assert_eq!(r[0].role, ChatRole::System);
    let again = with_system_prompt(r, "other".to_string());
    assert_eq!(again.len(), 2);
    let none = with_system_prompt(vec![ChatMessage::user_text("x".to_string())], String::new());
    assert_eq!(none.len(), 1);
}

#[test]
fn answers_are_read_from_the_history() {
    let ms = vec![
        ChatMessage::user_text("q".to_string()),
        ChatMessage::assistant_text("first".to_string()),
        ChatMessage::assistant_tool_calls(JsonValue::Array(vec![])),
        ChatMessage::tool_result("c".to_string(), "r".to_string()),
    ];
    assert!(matches!(last_assistant_text(&ms), Err(AnswerError::NotText)));
    assert_eq!(latest_assistant_text(&ms), Some("first".to_string()));
    assert!(matches!(last_assistant_text(&ms[..1]), Err(AnswerError::NoAssistant)));
    assert_eq!(latest_assistant_text(&ms[..1]), None);
    assert_eq!(last_assistant_text(&ms[..2]).ok(), Some("first".to_string()));
}

#[test]
fn long_tool_output_is_spooled() {
    assert!(!needs_spool(&"a".repeat(8192)));
    assert!(needs_spool(&"a".repeat(8193)));
    assert_eq!(safe_function_name("ns/file.read:x"), "ns_file_read_x");

    let lines: Vec<String> = (0..100).map(|i| format!("line {}", i)).collect();
    let output = lines.join("\n");
    let plan = plan_spool("/work/.agent", 42, "file.read", &output);
    assert_eq!(plan.dir, "/work/.agent/spool");
    assert_eq!(plan.file_path, "/work/.agent/spool/42_file_read.log");
    let preview = lines[..80].join("\n");
    let expected = format!(
        "{}\n\n[tool output truncated: {} chars; full output saved to /work/.agent/spool/42_file_read.log]\nTo read more: file-read {{\"path\": \".agent/spool/42_file_read.log\", \"offset_lines\": 0, \"limit_lines\": 200}}",
        preview,
        output.len()
    );
    assert_eq!(plan.notice, expected);
}

#[test]
fn tool_rounds_are_limited() {
    let tools = ChatMessage::assistant_tool_calls(JsonValue::Array(vec![call("a", "f", "{}")]));
    assert!(matches!(next_step_in_round(1, &tools), Ok(ReplyStep::RunTools(_))));
    assert!(matches!(next_step_in_round(MAX_TOOL_ITERATIONS - 1, &tools), Ok(ReplyStep::RunTools(_))));
    let stop = next_step_in_round(MAX_TOOL_ITERATIONS, &tools);
    assert!(matches!(stop, Err(LoopError::TooManyToolRounds)));
    assert_eq!(
        LoopError::TooManyToolRounds.to_string(),
        "tool_loop: exceeded maximum tool iterations (50)"
    );
    let text = ChatMessage::assistant_text("done".to_string());
    assert!(matches!(next_step_in_round(MAX_TOOL_ITERATIONS, &text), Ok(ReplyStep::Finished)));
    assert!(matches!(
        next_step_in_round(MAX_TOOL_ITERATIONS + 3, &ChatMessage::user_text("hi".to_string())),
        Err(LoopError::NotAssistant)
    ));
    assert_eq!(MAX_TOOL_ITERATIONS, 50);
}
