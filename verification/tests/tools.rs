use agent_core::builtin_tools::{ActTool, DebugTool, DeepThinkTool, ToolError};
use agent_core::context::{first_layer_with, visible_tools};
use agent_core::json::{JsonNumber, JsonValue};
use agent_core::llm::{parse_response_text, request_body_text, ChatContent};
use agent_core::llm::ChatMessage;
use agent_core::paths::path_within;
use agent_core::tool_args::{arg, decode_args, decode_args_strict, function_with_args, tool_spec_of, ArgKind, ArgValue, ScalarKind, ScalarValue};
use agent_core::tools::{find_tool_for_function, tools_to_openai_json, ToolLocation};
use agent_core::workspace_tools::{validate_shell_command, FileCall, FileTool, MacroCall, MacroExampleTool, ShellTool};

fn obj(members: Vec<(&str, JsonValue)>) -> JsonValue {
    JsonValue::Object(members.into_iter().map(|(k, v)| (k.to_string(), v)).collect())
}

fn s(v: &str) -> JsonValue {
    JsonValue::Str(v.to_string())
}

fn msg(e: ToolError) -> String {
    e.to_string()
}

#[test]
fn debug_echo() {
    let t = DebugTool::new();
    assert_eq!(t.invoke("debug-echo", &obj(vec![("text", s("hi"))])).ok(), Some("hi".to_string()));
    assert_eq!(msg(t.invoke("debug-echo", &obj(vec![])).unwrap_err()), "missing 'text'");
    assert_eq!(msg(t.invoke("debug-other", &obj(vec![])).unwrap_err()), "unknown function: debug-other");
}

#[test]
fn debug_spec_as_openai_json() {
    let spec = DebugTool::new().spec();
    let json = tools_to_openai_json(&[&spec]);
    assert_eq!(json.len(), 1);
    let body = request_body_text("m", &[], &json);
    let function = "{\"function\":{\"description\":\"Echo input for debugging\",\"name\":\"debug-echo\",\"parameters\":{\"additionalProperties\":false,\"properties\":{\"text\":{\"type\":\"string\"}},\"required\":[\"text\"],\"type\":\"object\"}},\"type\":\"function\"}";
    let expected = format!(
        "{{\"messages\":[],\"model\":\"m\",\"stream\":false,\"tool_choice\":\"auto\",\"tools\":[{}]}}",
        function
    );
    assert_eq!(body, expected);
}

#[test]
fn response_texts_are_read() {
    let r = parse_response_text("{\"choices\":[{\"message\":{\"content\":\"hi\"}}]}").ok().unwrap();
    assert!(matches!(r.content, ChatContent::Text(ref t) if t == "hi"));
    match parse_response_text("not json") {
        Err(e) => assert_eq!(e.to_string(), "openai: failed to parse response JSON"),
        Ok(_) => panic!(),
    }
    match parse_response_text("{\"choices\":[]}") {
        Err(e) => assert_eq!(e.to_string(), "openai: empty choices"),
        Ok(_) => panic!(),
    }
}

#[test]
fn act_and_deep_think_arguments() {
    let act = ActTool::new();
    assert_eq!(act.spec().id, "act");
    assert_eq!(act.action_argument("act", &obj(vec![("action", s("list files"))])).ok(), Some("list files".to_string()));
    assert_eq!(msg(act.action_argument("act", &obj(vec![("action", JsonValue::Bool(true))])).unwrap_err()), "missing 'action' argument");
    let deep = DeepThinkTool::new();
    assert_eq!(deep.spec().functions[0].name, "deep-think");
    assert_eq!(deep.task_argument("deep-think", &obj(vec![("task", s("plan"))])).ok(), Some("plan".to_string()));
    assert_eq!(msg(deep.task_argument("x", &obj(vec![])).unwrap_err()), "unknown function: x");
}

#[test]
fn results_from_sub_contexts() {
    let ms = vec![ChatMessage::user_text("q".to_string()), ChatMessage::assistant_text("[answer]  42 ".to_string())];
    assert_eq!(ActTool::act_result(&ms).ok(), Some("[answer]  42 ".to_string()));
    assert_eq!(DeepThinkTool::final_answer(&ms).ok(), Some("42".to_string()));
    assert_eq!(DeepThinkTool::extract_answer("plain"), "plain");
    assert_eq!(msg(DeepThinkTool::final_answer(&ms[..1]).unwrap_err()), "no answer from deep think");
    assert_eq!(msg(ActTool::act_result(&ms[..1]).unwrap_err()), "Act tool: no assistant response found");
    let tc = vec![ChatMessage::assistant_tool_calls(JsonValue::Array(vec![]))];
    assert_eq!(msg(ActTool::act_result(&tc).unwrap_err()), "Act tool: expected text response");
    assert_eq!(msg(DeepThinkTool::final_answer(&tc).unwrap_err()), "unexpected content type from deep think");
    assert_eq!(
        DeepThinkTool::failure_message("boom"),
        "Deep thinking failed: boom. This might be due to API rate limits or quota restrictions. Try again in a moment."
    );
}

#[test]
fn arguments_are_checked_and_decoded() {
    let decls = vec![
        arg("path", ArgKind::Str, None),
        arg("n", ArgKind::Int, Some(JsonValue::Number(JsonNumber::PosInt(7)))),
        arg("f", ArgKind::Bool, Some(JsonValue::Bool(false))),
    ];
    match decode_args(&obj(vec![("path", s("a"))]), &decls) {
        Ok(v) => {
            assert!(matches!(&v[0], ArgValue::Str(p) if p == "a"));
            assert!(matches!(v[1], ArgValue::Int(7)));
            assert!(matches!(v[2], ArgValue::Bool(false)));
        }
        Err(_) => panic!(),
    }
    let e = decode_args(&JsonValue::Null, &decls).err().unwrap();
    assert_eq!(e.to_string(), "tool arg type mismatch: args");
    let e = decode_args(&obj(vec![("path", s("a")), ("zz", s("b"))]), &decls).err().unwrap();
    assert_eq!(e.to_string(), "tool arg unknown: zz");
    let e = decode_args(&obj(vec![]), &decls).err().unwrap();
    assert_eq!(e.to_string(), "tool arg missing: path");
    let e = decode_args(&obj(vec![("path", s("a")), ("n", s("x"))]), &decls).err().unwrap();
    assert_eq!(e.to_string(), "tool arg type mismatch: n");
    let big = JsonValue::Number(JsonNumber::PosInt(u64::MAX));
    let e = decode_args(&obj(vec![("path", s("a")), ("n", big)]), &decls).err().unwrap();
    assert_eq!(e.to_string(), "tool arg type mismatch: n");
}

#[test]
fn file_calls_decode_with_defaults() {
    let t = FileTool::new();
    match t.decode_call("file-read", &obj(vec![("path", s("src/lib.rs"))])) {
        Ok(FileCall::Read { path, offset_lines, limit_lines }) => {
            assert_eq!(path, "src/lib.rs");
            assert_eq!(offset_lines, 0);
            assert_eq!(limit_lines, 200);
        }
        _ => panic!(),
    }
    match t.decode_call("file-edit", &obj(vec![("path", s("a")), ("old_text", s("x")), ("new_text", s("y")), ("replace_all", JsonValue::Bool(true))])) {
        Ok(FileCall::Edit { replace_all, .. }) => assert!(replace_all),
        _ => panic!(),
    }
    assert_eq!(msg(t.decode_call("file-zap", &obj(vec![])).unwrap_err()), "unknown function: file-zap");
    assert_eq!(msg(t.decode_call("file-write", &obj(vec![("path", s("a"))])).unwrap_err()), "tool arg missing: content");
    let spec = t.spec();
    assert_eq!(spec.functions.len(), 4);
    assert_eq!(spec.functions[0].parameters.required, vec!["path".to_string()]);
    assert_eq!(spec.functions[2].parameters.required, vec!["path".to_string(), "content".to_string()]);
}

#[test]
fn read_window_slices_lines() {
    let text = "a\nb\nc\nd";
    assert_eq!(FileTool::read_window(text, 0, 0), "");
    assert_eq!(FileTool::read_window(text, 0, 200), text);
    assert_eq!(FileTool::read_window(text, 1, 2), "b\nc");
    assert_eq!(FileTool::read_window(text, -5, 2), "a\nb");
    assert_eq!(FileTool::read_window(text, 10, 2), "");
    assert_eq!(FileTool::read_window("x\r\ny\n", 0, 1), "x");
}

#[test]
fn glob_and_path_checks() {
    assert_eq!(FileTool::check_glob_pattern("  **/*.rs ").ok(), Some("**/*.rs".to_string()));
    assert_eq!(msg(FileTool::check_glob_pattern("  ").unwrap_err()), "pattern must not be empty");
    assert_eq!(msg(FileTool::check_glob_pattern("/etc/*").unwrap_err()), "pattern must be relative");
    assert_eq!(FileTool::glob_limit(-3), 0);
    assert_eq!(FileTool::glob_limit(50), 50);
    assert_eq!(FileTool::glob_limit(50_000), 10_000);
    assert!(FileTool::glob_full(3, 3));
    assert!(!FileTool::glob_full(3, 0));
    assert!(FileTool::check_relative_path("src/a..b/x").is_ok());
    assert_eq!(msg(FileTool::check_relative_path("/abs").unwrap_err()), "path must be relative");
    assert_eq!(msg(FileTool::check_relative_path("a/../b").unwrap_err()), "path must not contain '..'");
    assert_eq!(msg(FileTool::check_relative_path("..").unwrap_err()), "path must not contain '..'");
    assert_eq!(msg(FileTool::check_overwrite(true, false).unwrap_err()), "file exists (set overwrite=true)");
    assert!(FileTool::check_overwrite(true, true).is_ok());
}

#[test]
fn edits_replace_like_std() {
    let p = FileTool::plan_edit("aXbXc", "X", "-", true).ok().unwrap();
    assert_eq!(p.new_content, "a-b-c");
    assert_eq!(p.old_count, 2);
    assert_eq!(p.replaced, 2);
    let p = FileTool::plan_edit("aXbXc", "X", "-", false).ok().unwrap();
    assert_eq!(p.new_content, "a-bXc");
    assert_eq!(p.replaced, 1);
    let p = FileTool::plan_edit("aaaa", "aa", "b", true).ok().unwrap();
    assert_eq!(p.new_content, "aaaa".replace("aa", "b"));
    let p = FileTool::plan_edit("ab", "", "-", true).ok().unwrap();
    assert_eq!(p.new_content, "ab".replace("", "-"));
    assert_eq!(p.old_count, "ab".matches("").count() as u128);
    assert_eq!(p.replaced, 3);
    let p = FileTool::plan_edit("aX", "X", "XX", true).ok().unwrap();
    assert_eq!(p.new_content, "aXX");
    assert_eq!(p.replaced, 1);
    let p = FileTool::plan_edit("XaX", "X", "XX", false).ok().unwrap();
    assert_eq!(p.new_content, "XXaX");
    assert_eq!(p.replaced, 1);
    assert_eq!(msg(FileTool::plan_edit("abc", "z", "y", true).err().unwrap()), "old_text not found in file");
    assert_eq!(FileTool::edit_report(2, "src/x.rs"), "Replaced 2 occurrence(s) in src/x.rs");
}

#[test]
fn shell_commands_are_validated() {
    assert!(validate_shell_command("ls -la").is_ok());
    assert_eq!(msg(validate_shell_command("   ").unwrap_err()), "command must not be empty");
    assert_eq!(msg(validate_shell_command("sudo rm -rf /*").unwrap_err()), "command contains dangerous pattern: rm -rf /");
    assert_eq!(msg(validate_shell_command("mkfs.ext4 /dev/sda").unwrap_err()), "command contains dangerous pattern: mkfs");
    let t = ShellTool::new();
    assert_eq!(t.decode_call("shell-exec", &obj(vec![("command", s("pwd"))])).ok(), Some("pwd".to_string()));
    assert_eq!(msg(t.decode_call("shell-exec", &obj(vec![("cmd", s("pwd"))])).unwrap_err()), "tool arg unknown: cmd");
    assert_eq!(t.spec().functions[0].name, "shell-exec");
}

#[test]
fn macro_example_calls() {
    let t = MacroExampleTool::new();
    assert!(matches!(t.decode_call("macro.echo", &obj(vec![("text", s("x"))])), Ok(MacroCall::Echo { text }) if text == "x"));
    assert!(matches!(t.decode_call("macro.pwd", &obj(vec![])), Ok(MacroCall::Pwd)));
    assert_eq!(msg(t.decode_call("macro.pwd", &obj(vec![("a", s("b"))])).unwrap_err()), "tool arg unknown: a");
    assert_eq!(t.echo("hey".to_string()), "hey");
    assert_eq!(t.pwd("/w"), "/w");
    let spec = t.spec();
    assert_eq!(spec.functions[1].description, "");
    assert!(spec.functions[1].parameters.properties.is_empty());
}

#[test]
fn later_tools_win_and_context_first() {
    let (d1, sh, d2, f) = (DebugTool::new().spec(), ShellTool::new().spec(), DebugTool::new().spec(), FileTool::new().spec());
    let ctx = vec![&d1, &sh, &d2];
    let session = vec![&f];
    assert!(matches!(find_tool_for_function(&ctx, &session, "debug-echo"), Some(ToolLocation::Context(2))));
    assert!(matches!(find_tool_for_function(&ctx, &session, "file-read"), Some(ToolLocation::Session(0))));
    assert!(find_tool_for_function(&ctx, &session, "nope").is_none());
}

#[test]
fn context_tool_visibility() {
    let layers = vec![vec!["act".to_string()], vec![], vec!["file".to_string(), "shell".to_string()]];
    assert_eq!(visible_tools(&layers, false, None), vec![(0, 0), (2, 0), (2, 1)]);
    assert!(visible_tools(&layers, true, None).is_empty());
    let wl = vec!["shell".to_string()];
    assert_eq!(visible_tools(&layers, false, Some(&wl)), vec![(2, 1)]);
    let empty: Vec<String> = vec![];
    assert!(visible_tools(&layers, false, Some(&empty)).is_empty());
    assert_eq!(first_layer_with(&[false, true, true]), Some(1));
    assert_eq!(first_layer_with(&[false]), None);
}

#[test]
fn paths_compare_by_components() {
    assert!(path_within("/w/a/b", "/w"));
    assert!(path_within("/w", "/w"));
    assert!(path_within("/w//a/./b", "/w/"));
    assert!(!path_within("/wx/a", "/w"));
    assert!(!path_within("/w", "/w/a"));
    assert!(!path_within("w/a", "/w"));
    assert!(path_within("./a/b", "."));
    assert!(path_within("a/b", ""));
}

#[test]
fn workspace_paths_are_confined() {
    let ok = FileTool::resolve_in_workspace("/w", "src/x.rs", None, None);
    assert_eq!(ok.ok().unwrap(), "/w/src/x.rs");
    let linked = FileTool::resolve_in_workspace(
        "/w",
        "link/x",
        Some("/real/w".to_string()),
        Some("/real/w/target/x".to_string()),
    );
    assert_eq!(linked.ok().unwrap(), "/w/link/x");
    let escaped = FileTool::resolve_in_workspace(
        "/w",
        "link/x",
        Some("/real/w".to_string()),
        Some("/etc/x".to_string()),
    );
    assert_eq!(msg(escaped.unwrap_err()), "path escapes workspace");
    let sibling = FileTool::resolve_in_workspace("/w", "x", Some("/w".to_string()), Some("/wx".to_string()));
    assert_eq!(msg(sibling.unwrap_err()), "path escapes workspace");
    assert_eq!(msg(FileTool::resolve_in_workspace("/w", "/etc", None, None).unwrap_err()), "path must be relative");
    assert_eq!(
        msg(FileTool::resolve_in_workspace("/w", "a/../../b", None, None).unwrap_err()),
        "path must not contain '..'"
    );
}

#[test]
fn list_optional_and_number_arguments() {
    let decls = vec![
        arg("tags", ArgKind::List(ScalarKind::Str), Some(JsonValue::Array(vec![]))),
        arg("limit", ArgKind::Optional(ScalarKind::Int), None),
        arg("ratio", ArgKind::Number, None),
        arg("ids", ArgKind::OptionalList(ScalarKind::Int), None),
    ];
    let given = obj(vec![
        ("tags", JsonValue::Array(vec![s("a"), s("b")])),
        ("ratio", JsonValue::Number(JsonNumber::Float("1.5".to_string()))),
    ]);
    match decode_args(&given, &decls) {
        Ok(v) => {
            match &v[0] {
                ArgValue::List(xs) => {
                    assert_eq!(xs.len(), 2);
                    assert!(matches!(&xs[0], ScalarValue::Str(t) if t == "a"));
                    assert!(matches!(&xs[1], ScalarValue::Str(t) if t == "b"));
                }
                _ => panic!(),
            }
            assert!(matches!(v[1], ArgValue::Absent));
            assert!(matches!(&v[2], ArgValue::Number(JsonNumber::Float(t)) if t == "1.5"));
            assert!(matches!(v[3], ArgValue::Absent));
        }
        Err(_) => panic!(),
    }
    let given = obj(vec![
        ("tags", JsonValue::Array(vec![])),
        ("limit", JsonValue::Number(JsonNumber::PosInt(5))),
        ("ratio", JsonValue::Number(JsonNumber::PosInt(3))),
        ("ids", JsonValue::Array(vec![JsonValue::Number(JsonNumber::NegInt(-2))])),
    ]);
    match decode_args(&given, &decls) {
        Ok(v) => {
            assert!(matches!(&v[0], ArgValue::List(xs) if xs.is_empty()));
            assert!(matches!(v[1], ArgValue::Int(5)));
            assert!(matches!(v[2], ArgValue::Number(JsonNumber::PosInt(3))));
            assert!(matches!(&v[3], ArgValue::List(xs) if matches!(xs[0], ScalarValue::Int(-2))));
        }
        Err(_) => panic!(),
    }
    // A list has to be given: its default does not stand in for it.
    let e = decode_args(&obj(vec![("ratio", JsonValue::Number(JsonNumber::PosInt(1)))]), &decls).err().unwrap();
    assert_eq!(e.to_string(), "tool arg missing: tags");
    let e = decode_args(&obj(vec![("tags", JsonValue::Array(vec![s("a"), JsonValue::Bool(true)]))]), &decls).err().unwrap();
    assert_eq!(e.to_string(), "tool arg type mismatch: tags");
    let e = decode_args(&obj(vec![("tags", s("a"))]), &decls).err().unwrap();
    assert_eq!(e.to_string(), "tool arg type mismatch: tags");
    let e = decode_args(
        &obj(vec![("tags", JsonValue::Array(vec![])), ("limit", s("x"))]),
        &decls,
    ).err().unwrap();
    assert_eq!(e.to_string(), "tool arg type mismatch: limit");
    let e = decode_args(&obj(vec![("tags", JsonValue::Array(vec![])), ("ratio", s("x"))]), &decls).err().unwrap();
    assert_eq!(e.to_string(), "tool arg type mismatch: ratio");
}

#[test]
fn argument_kinds_give_their_schema() {
    let decls = vec![
        arg("tags", ArgKind::List(ScalarKind::Str), Some(JsonValue::Array(vec![]))),
        arg("limit", ArgKind::Optional(ScalarKind::Int), None),
        arg("ratio", ArgKind::Number, None),
    ];
    let f = function_with_args("f", "d", &decls);
    let spec = tool_spec_of("t", "tool", vec![f], &[false]);
    let json = tools_to_openai_json(&[&spec]);
    let body = request_body_text("m", &[], &json);
    let parameters = "\"parameters\":{\"additionalProperties\":false,\"properties\":{\"limit\":{\"type\":\"integer\"},\"ratio\":{\"type\":\"number\"},\"tags\":{\"items\":{\"type\":\"string\"},\"type\":\"array\"}},\"required\":[\"ratio\"],\"type\":\"object\"}";
    assert!(body.contains(parameters), "{}", body);
}

#[test]
fn lenient_functions_let_unknown_members_through() {
    let decls = vec![arg("n", ArgKind::Int, Some(JsonValue::Number(JsonNumber::PosInt(7))))];
    let given = obj(vec![("zz", s("b"))]);
    assert_eq!(decode_args_strict(&given, &decls, true).err().unwrap().to_string(), "tool arg unknown: zz");
    assert!(matches!(decode_args_strict(&given, &decls, false).ok().unwrap()[0], ArgValue::Int(7)));
    assert!(matches!(decode_args_strict(&JsonValue::Null, &decls, false).ok().unwrap()[0], ArgValue::Int(7)));
    assert_eq!(
        decode_args_strict(&JsonValue::Null, &decls, true).err().unwrap().to_string(),
        "tool arg type mismatch: args"
    );
}

#[test]
fn hidden_functions_are_not_offered() {
    let none: Vec<agent_core::tool_args::ArgDecl> = vec![];
    let fs = vec![
        function_with_args("a", "first", &none),
        function_with_args("b", "hidden", &none),
        function_with_args("c", "third", &none),
    ];
    let spec = tool_spec_of("t", "tool", fs, &[false, true, false]);
    assert_eq!(spec.id, "t");
    assert_eq!(spec.description, "tool");
    let names: Vec<&str> = spec.functions.iter().map(|f| f.name.as_str()).collect();
    assert_eq!(names, vec!["a", "c"]);
}
