//! The tools that come with the agent: their specifications, and the parts
//! of their work that decide rather than do I/O.

use vstd::prelude::*;
use crate::agent::{last_assistant, last_assistant_text, AnswerError};
use crate::json::{json_as_str, json_get, JsonValue};
use crate::llm::{model_messages, ChatMessage, ContentModel};
use crate::text::{starts_with, trim, trimmed};
use crate::tool_args::{arg, decl_models, decls_schema, function_with_args, ArgDecl, ArgError, ArgErrorModel, ArgKind, DeclModel};
use crate::tools::{object_schema, FunctionSpec, ToolSpec};

verus! {

/// Why a tool refused a call.
#[derive(Debug)]
pub enum ToolError {
    /// The tool has no function of this name.
    UnknownFunction { name: String },
    /// The call's arguments were refused.
    Args(ArgError),
    /// The tool failed with this message.
    Failed { message: String },
}

impl ToolError {
    /// The error's message text.
    pub fn to_string(&self) -> (r: String)
        ensures
            match self {
                ToolError::UnknownFunction { name } => r@ == "unknown function: "@ + name@,
                ToolError::Args(e) => r@ == e@.message(),
                ToolError::Failed { message } => r@ == message@,
            },
    {
        match self {
            ToolError::UnknownFunction { name } => String::from_str("unknown function: ").concat(name.as_str()),
            ToolError::Args(e) => e.to_string(),
            ToolError::Failed { message } => message.clone(),
        }
    }
}

impl ArgErrorModel {
    /// The message text of an argument error.
    pub open spec fn message(self) -> Seq<char> {
        match self {
            ArgErrorModel::NotObject => "tool arg type mismatch: args"@,
            ArgErrorModel::Unknown(k) => "tool arg unknown: "@ + k,
            ArgErrorModel::Missing(n) => "tool arg missing: "@ + n,
            ArgErrorModel::TypeMismatch(n) => "tool arg type mismatch: "@ + n,
        }
    }
}

/// The result is a failure with this message.
pub open spec fn fails_with<T>(r: Result<T, ToolError>, message: Seq<char>) -> bool {
    match r {
        Err(ToolError::Failed { message: m }) => m@ == message,
        _ => false,
    }
}

/// The result says the tool has no function of this name.
pub open spec fn is_unknown_function<T>(r: Result<T, ToolError>, name: Seq<char>) -> bool {
    match r {
        Err(ToolError::UnknownFunction { name: n }) => n@ == name,
        _ => false,
    }
}

/// A function of a tool, as its specification describes it: name,
/// description and declared arguments.
pub struct FunctionShape {
    pub name: Seq<char>,
    pub description: Seq<char>,
    pub args: Seq<DeclModel>,
}

/// The function specification has this shape; its parameters' schema is
/// the one the arguments give.
pub open spec fn has_shape(f: FunctionSpec, s: FunctionShape) -> bool {
    f.name@ == s.name && f.description@ == s.description && object_schema(f.parameters) == decls_schema(s.args)
}

/// The tool specification has this id, description and functions.
pub open spec fn tool_shape(t: ToolSpec, id: Seq<char>, description: Seq<char>, fs: Seq<FunctionShape>) -> bool {
    &&& t.id@ == id
    &&& t.description@ == description
    &&& t.functions@.len() == fs.len()
    &&& forall|i: int| 0 <= i < fs.len() ==> has_shape(#[trigger] t.functions@[i], fs[i])
}

/// A required string argument.
pub open spec fn string_arg(name: Seq<char>) -> DeclModel {
    DeclModel { name, kind: ArgKind::Str, default: None }
}

/// A specification with one function taking one required string argument.
fn one_string_arg_tool(id: &str, description: &str, fname: &str, fdesc: &str, param: &str) -> (r: ToolSpec)
    ensures
        tool_shape(r, id@, description@, seq![FunctionShape { name: fname@, description: fdesc@, args: seq![string_arg(param@)] }]),
{
    let mut decls: Vec<ArgDecl> = Vec::new();
    decls.push(arg(param, ArgKind::Str, None));
    assert(decl_models(decls@) =~= seq![string_arg(param@)]);
    let f = function_with_args(fname, fdesc, decls.as_slice());
    let mut functions: Vec<FunctionSpec> = Vec::new();
    functions.push(f);
    ToolSpec { id: String::from_str(id), description: String::from_str(description), functions }
}

/// The string member `key` of the arguments, if there is one.
pub fn string_member(args: &JsonValue, key: &str) -> (r: Option<String>)
    ensures
        match json_as_str(json_get(args@, key@)) {
            Some(s) => r is Some && r->Some_0@ == s,
            None => r is None,
        },
{
    match args.get(key) {
        Some(v) => match v.as_str() {
            Some(s) => Some(String::from_str(s)),
            None => None,
        },
        None => None,
    }
}

/// Debugging utilities.
#[derive(Debug)]
pub struct DebugTool {}

impl DebugTool {
    /// The debug tool.
    pub fn new() -> (r: Self) {
        DebugTool {  }
    }

    /// Its specification: `debug-echo`, taking a string `text`.
    pub fn spec(&self) -> (r: ToolSpec)
        ensures
            tool_shape(r, "debug"@, "Debug utilities"@, seq![FunctionShape {
                name: "debug-echo"@,
                description: "Echo input for debugging"@,
                args: seq![string_arg("text"@)],
            }]),
    {
        one_string_arg_tool("debug", "Debug utilities", "debug-echo", "Echo input for debugging", "text")
    }

    /// Run a call: `debug-echo` gives back its `text`.
    pub fn invoke(&self, function_name: &str, args: &JsonValue) -> (r: Result<String, ToolError>)
        ensures
            function_name@ == "debug-echo"@ ==> match json_as_str(json_get(args@, "text"@)) {
                Some(t) => r is Ok && r->Ok_0@ == t,
                None => fails_with(r, "missing 'text'"@),
            },
            function_name@ != "debug-echo"@ ==> is_unknown_function(r, function_name@),
    {
        if crate::json::str_eq(function_name, "debug-echo") {
            match string_member(args, "text") {
                Some(t) => Ok(t),
                None => Err(ToolError::Failed { message: String::from_str("missing 'text'") }),
            }
        } else {
            Err(ToolError::UnknownFunction { name: String::from_str(function_name) })
        }
    }
}

impl Default for DebugTool {
    fn default() -> (r: Self) {
        DebugTool::new()
    }
}

/// Hands a task to the acting phase, in a context of its own.
#[derive(Debug)]
pub struct ActTool {}

impl ActTool {
    /// The act tool.
    pub fn new() -> (r: Self) {
        ActTool {  }
    }

    /// Its specification: `act`, taking a string `action`.
    pub fn spec(&self) -> (r: ToolSpec)
        ensures
            tool_shape(r, "act"@, "Delegate a task to the action phase for execution. The action phase has access to all available tools and will perform the task."@, seq![FunctionShape {
                name: "act"@,
                description: "Delegate a task to the action phase. Provide a natural language description of what needs to be done."@,
                args: seq![string_arg("action"@)],
            }]),
    {
        one_string_arg_tool(
            "act",
            "Delegate a task to the action phase for execution. The action phase has access to all available tools and will perform the task.",
            "act",
            "Delegate a task to the action phase. Provide a natural language description of what needs to be done.",
            "action",
        )
    }

    /// The action a call asks for.
    pub fn action_argument(&self, function_name: &str, args: &JsonValue) -> (r: Result<String, ToolError>)
        ensures
            function_name@ == "act"@ ==> match json_as_str(json_get(args@, "action"@)) {
                Some(t) => r is Ok && r->Ok_0@ == t,
                None => fails_with(r, "missing 'action' argument"@),
            },
            function_name@ != "act"@ ==> is_unknown_function(r, function_name@),
    {
        if crate::json::str_eq(function_name, "act") {
            match string_member(args, "action") {
                Some(t) => Ok(t),
                None => Err(ToolError::Failed { message: String::from_str("missing 'action' argument") }),
            }
        } else {
            Err(ToolError::UnknownFunction { name: String::from_str(function_name) })
        }
    }

    /// The result of the action: the text of the acting context's last
    /// assistant message.
    pub fn act_result(messages: &[ChatMessage]) -> (r: Result<String, ToolError>)
        ensures
            match last_assistant(model_messages(messages@)) {
                None => fails_with(r, "Act tool: no assistant response found"@),
                Some(i) => match model_messages(messages@)[i].content {
                    ContentModel::Text(t) => r is Ok && r->Ok_0@ == t,
                    _ => fails_with(r, "Act tool: expected text response"@),
                },
            },
    {
        match last_assistant_text(messages) {
            Ok(t) => Ok(t),
            Err(AnswerError::NoAssistant) => Err(ToolError::Failed {
                message: String::from_str("Act tool: no assistant response found"),
            }),
            Err(AnswerError::NotText) => Err(ToolError::Failed {
                message: String::from_str("Act tool: expected text response"),
            }),
        }
    }
}

impl Default for ActTool {
    fn default() -> (r: Self) {
        ActTool::new()
    }
}

/// The answer in a deep-thinking reply: what follows `[answer]`, trimmed,
/// or the whole text when it does not start with the marker.
pub open spec fn answer_of(text: Seq<char>) -> Seq<char> {
    if starts_with(text, "[answer]"@) {
        trim(text.skip(8))
    } else {
        text
    }
}

/// Hands a complex task to a ReAct agent.
#[derive(Debug)]
pub struct DeepThinkTool {}

impl DeepThinkTool {
    /// The deep-think tool.
    pub fn new() -> (r: Self) {
        DeepThinkTool {  }
    }

    /// Its specification: `deep-think`, taking a string `task`.
    pub fn spec(&self) -> (r: ToolSpec)
        ensures
            tool_shape(r, "deep-think"@, "Use deep reasoning (ReAct framework) for complex tasks"@, seq![FunctionShape {
                name: "deep-think"@,
                description: "Delegate a complex task to deep reasoning agent. Use this when you need to:\n- Analyze complex problems step by step\n- Use tools multiple times to gather information\n- Make decisions based on gathered information\nThe deep reasoning agent will think through the problem and return the final answer."@,
                args: seq![string_arg("task"@)],
            }]),
    {
        one_string_arg_tool(
            "deep-think",
            "Use deep reasoning (ReAct framework) for complex tasks",
            "deep-think",
            "Delegate a complex task to deep reasoning agent. Use this when you need to:\n- Analyze complex problems step by step\n- Use tools multiple times to gather information\n- Make decisions based on gathered information\nThe deep reasoning agent will think through the problem and return the final answer.",
            "task",
        )
    }

    /// The task a call asks for.
    pub fn task_argument(&self, function_name: &str, args: &JsonValue) -> (r: Result<String, ToolError>)
        ensures
            function_name@ == "deep-think"@ ==> match json_as_str(json_get(args@, "task"@)) {
                Some(t) => r is Ok && r->Ok_0@ == t,
                None => fails_with(r, "missing 'task' argument"@),
            },
            function_name@ != "deep-think"@ ==> is_unknown_function(r, function_name@),
    {
        if crate::json::str_eq(function_name, "deep-think") {
            match string_member(args, "task") {
                Some(t) => Ok(t),
                None => Err(ToolError::Failed { message: String::from_str("missing 'task' argument") }),
            }
        } else {
            Err(ToolError::UnknownFunction { name: String::from_str(function_name) })
        }
    }

    /// The answer in a deep-thinking reply (see [`answer_of`]).
    pub fn extract_answer(text: &str) -> (r: String)
        ensures
            r@ == answer_of(text@),
    {
        proof {
            reveal_strlit("[answer]");
        }
        let n = text.unicode_len();
        if n >= 8 && crate::json::str_eq(text.substring_char(0, 8), "[answer]") {
            let rest = text.substring_char(8, n);
            assert(rest@ =~= text@.skip(8));
            assert(text@.subrange(0, 8) == "[answer]"@);
            trimmed(rest)
        } else {
            proof {
                if n >= 8 {
                    assert(text@.subrange(0, 8) != "[answer]"@);
                }
            }
            String::from_str(text)
        }
    }

    /// The final answer of a deep-thinking run: the answer in the last
    /// assistant message of its history.
    pub fn final_answer(messages: &[ChatMessage]) -> (r: Result<String, ToolError>)
        ensures
            match last_assistant(model_messages(messages@)) {
                None => fails_with(r, "no answer from deep think"@),
                Some(i) => match model_messages(messages@)[i].content {
                    ContentModel::Text(t) => r is Ok && r->Ok_0@ == answer_of(t),
                    _ => fails_with(r, "unexpected content type from deep think"@),
                },
            },
    {
        match last_assistant_text(messages) {
            Ok(t) => Ok(Self::extract_answer(t.as_str())),
            Err(AnswerError::NoAssistant) => Err(ToolError::Failed {
                message: String::from_str("no answer from deep think"),
            }),
            Err(AnswerError::NotText) => Err(ToolError::Failed {
                message: String::from_str("unexpected content type from deep think"),
            }),
        }
    }

    /// The message when the deep-thinking run failed with `error`.
    pub fn failure_message(error: &str) -> (r: String)
        ensures
            r@ == "Deep thinking failed: "@ + error@
                + ". This might be due to API rate limits or quota restrictions. Try again in a moment."@,
    {
        String::from_str("Deep thinking failed: ").concat(error).concat(
            ". This might be due to API rate limits or quota restrictions. Try again in a moment.",
        )
    }
}

impl Default for DeepThinkTool {
    fn default() -> (r: Self) {
        DeepThinkTool::new()
    }
}

} // verus!
