//! The plain LLM agent: reading its answer out of a history, and setting
//! aside tool output too long to hand back to the model.

use vstd::prelude::*;
use crate::llm::{ChatContent, ChatMessage, ChatRole, ContentModel, MessageModel, model_messages};
use crate::paths::{join_path, path_join};
use crate::text::{decimal, decimal_string, join, lines, lines_of};

verus! {

/// An agent that runs the tool loop on the context's history.
#[derive(Debug)]
pub struct LlmAgent {}

impl LlmAgent {
    /// A new agent.
    pub fn new() -> (r: Self) {
        LlmAgent {  }
    }
}

impl Default for LlmAgent {
    fn default() -> (r: Self) {
        LlmAgent::new()
    }
}

/// The index of the last assistant message, if any.
pub open spec fn last_assistant(ms: Seq<MessageModel>) -> Option<int>
    decreases ms.len(),
{
    if ms.len() == 0 {
        None
    } else if ms.last().role == ChatRole::Assistant {
        Some(ms.len() - 1)
    } else {
        last_assistant(ms.drop_last())
    }
}

/// The text of the last assistant message that carries text, if any.
pub open spec fn latest_assistant_text_of(ms: Seq<MessageModel>) -> Option<Seq<char>>
    decreases ms.len(),
{
    if ms.len() == 0 {
        None
    } else if ms.last().role == ChatRole::Assistant && ms.last().content is Text {
        Some(ms.last().content->Text_0)
    } else {
        latest_assistant_text_of(ms.drop_last())
    }
}

/// Why no answer could be read from a history.
#[derive(Debug)]
pub enum AnswerError {
    /// No assistant message at all.
    NoAssistant,
    /// The last assistant message carries tool calls, not text.
    NotText,
}

/// The text of the last assistant message; an error where there is none or
/// where it is not text.
pub fn last_assistant_text(messages: &[ChatMessage]) -> (r: Result<String, AnswerError>)
    ensures
        match last_assistant(model_messages(messages@)) {
            None => r == Err::<String, AnswerError>(AnswerError::NoAssistant),
            Some(i) => match model_messages(messages@)[i].content {
                ContentModel::Text(t) => r is Ok && r->Ok_0@ == t,
                _ => r == Err::<String, AnswerError>(AnswerError::NotText),
            },
        },
{
    let ghost ms = model_messages(messages@);
    let mut i: usize = messages.len();
    assert(ms.take(i as int) =~= ms);
    while i > 0
        invariant
            ms == model_messages(messages@),
            i <= messages@.len(),
            last_assistant(ms) == last_assistant(ms.take(i as int)),
        decreases i,
    {
        assert(ms.take(i as int).drop_last() =~= ms.take(i as int - 1));
        assert(ms.take(i as int).last() == messages@[i - 1]@);
        if messages[i - 1].role == ChatRole::Assistant {
            return match &messages[i - 1].content {
                ChatContent::Text(t) => Ok(t.clone()),
                _ => Err(AnswerError::NotText),
            };
        }
        i = i - 1;
    }
    assert(ms.take(0) =~= Seq::<MessageModel>::empty());
    Err(AnswerError::NoAssistant)
}

/// The text of the last assistant message that carries text, skipping
/// assistant messages with tool calls.
pub fn latest_assistant_text(messages: &[ChatMessage]) -> (r: Option<String>)
    ensures
        match latest_assistant_text_of(model_messages(messages@)) {
            None => r is None,
            Some(t) => r is Some && r->Some_0@ == t,
        },
{
    let ghost ms = model_messages(messages@);
    let mut i: usize = messages.len();
    assert(ms.take(i as int) =~= ms);
    while i > 0
        invariant
            ms == model_messages(messages@),
            i <= messages@.len(),
            latest_assistant_text_of(ms) == latest_assistant_text_of(ms.take(i as int)),
        decreases i,
    {
        assert(ms.take(i as int).drop_last() =~= ms.take(i as int - 1));
        assert(ms.take(i as int).last() == messages@[i - 1]@);
        if messages[i - 1].role == ChatRole::Assistant {
            if let ChatContent::Text(t) = &messages[i - 1].content {
                return Some(t.clone());
            }
        }
        i = i - 1;
    }
    assert(ms.take(0) =~= Seq::<MessageModel>::empty());
    None
}

/// Tool output longer than this many bytes is written to a file.
pub open spec fn spool_limit() -> nat {
    8192
}

/// Number of lines of a spooled output shown to the model.
pub open spec fn preview_lines() -> nat {
    80
}

/// Is the output too long to hand back to the model as it is?
pub fn needs_spool(output: &str) -> (r: bool)
    ensures
        r == (output.len() > spool_limit()),
{
    output.len() > 8 * 1024
}

/// A character that may not stand in a spool file's name.
pub open spec fn is_name_separator(c: char) -> bool {
    c == '/' || c == '.' || c == ':'
}

/// The function's name with `/`, `.` and `:` replaced by `_`.
pub open spec fn safe_name(s: Seq<char>) -> Seq<char> {
    Seq::new(s.len(), |i: int| if is_name_separator(s[i]) { '_' } else { s[i] })
}

/// The function's name made safe for a file name (see [`safe_name`]).
pub fn safe_function_name(name: &str) -> (r: String)
    ensures
        r@ == safe_name(name@),
{
    proof {
        reveal_strlit("_");
    }
    let n = name.unicode_len();
    let mut out = String::new();
    let mut i: usize = 0;
    while i < n
        invariant
            n == name@.len(),
            i <= n,
            out@ == safe_name(name@.take(i as int)),
        decreases n - i,
    {
        proof {
            reveal_strlit("_");
        }
        let c = name.get_char(i);
        if c == '/' || c == '.' || c == ':' {
            out = out.concat("_");
        } else {
            out = out.concat(name.substring_char(i, i + 1));
        }
        assert(out@ =~= safe_name(name@.take(i as int + 1)));
        i = i + 1;
    }
    assert(name@.take(n as int) =~= name@);
    out
}

/// The texts of `parts[lo..hi]` joined by `sep`.
pub fn join_range(parts: &[String], lo: usize, hi: usize, sep: &str) -> (r: String)
    requires
        lo <= hi <= parts@.len(),
    ensures
        r@ == join(parts@.map_values(|p: String| p@).subrange(lo as int, hi as int), sep@),
{
    let ghost ps = parts@.map_values(|p: String| p@);
    let mut out = String::new();
    let mut i: usize = lo;
    while i < hi
        invariant
            ps == parts@.map_values(|p: String| p@),
            lo <= i <= hi <= parts@.len(),
            out@ == join(ps.subrange(lo as int, i as int), sep@),
        decreases hi - i,
    {
        assert(ps.subrange(lo as int, i as int + 1).drop_last() =~= ps.subrange(lo as int, i as int));
        assert(ps.subrange(lo as int, i as int + 1).last() == parts@[i as int]@);
        if i == lo {
            out = parts[i].clone();
        } else {
            out = out.concat(sep).concat(parts[i].as_str());
        }
        i = i + 1;
    }
    out
}

/// The preview of a spooled output: its first lines, joined by line feeds.
pub open spec fn spool_preview_of(output: Seq<char>) -> Seq<char> {
    let ls = lines(output);
    join(if ls.len() <= preview_lines() { ls } else { ls.take(preview_lines() as int) }, "\n"@)
}

/// The preview of a spooled output (see [`spool_preview_of`]).
pub fn spool_preview(output: &str) -> (r: String)
    ensures
        r@ == spool_preview_of(output@),
{
    let ls = lines_of(output);
    let n = if ls.len() <= 80 { ls.len() } else { 80 };
    let r = join_range(ls.as_slice(), 0, n, "\n");
    proof {
        reveal_strlit("\n");
        let m = ls@.map_values(|p: String| p@);
        if ls@.len() <= 80 {
            assert(m.subrange(0, n as int) =~= m);
        } else {
            assert(m.subrange(0, n as int) =~= m.take(80));
        }
    }
    r
}

/// Where a spooled output goes and what the model is told instead.
#[derive(Debug)]
pub struct SpoolPlan {
    /// The directory to create.
    pub dir: String,
    /// The file the whole output is written to.
    pub file_path: String,
    /// The message that replaces the output.
    pub notice: String,
}

/// The notice that replaces a spooled output.
pub open spec fn spool_notice(preview: Seq<char>, bytes: nat, file_path: Seq<char>, shown_path: Seq<char>) -> Seq<char> {
    preview + "\n\n[tool output truncated: "@ + decimal(bytes) + " chars; full output saved to "@
        + file_path + "]\nTo read more: file-read {\"path\": \""@ + shown_path
        + "\", \"offset_lines\": 0, \"limit_lines\": 200}"@
}

/// The spool file's name: the time in milliseconds and the function's name.
pub open spec fn spool_file_name(millis: nat, function_name: Seq<char>) -> Seq<char> {
    decimal(millis) + "_"@ + safe_name(function_name) + ".log"@
}

/// Plan the spooling of an output of tool `function_name` at time `millis`
/// (milliseconds since the epoch): the file goes to `spool` under the agent
/// directory, and the model is shown its first lines and where the rest is,
/// by its path under `.agent`.
pub fn plan_spool(agent_path: &str, millis: u128, function_name: &str, output: &str) -> (r: SpoolPlan)
    ensures
        r.dir@ == path_join(agent_path@, "spool"@),
        r.file_path@ == path_join(r.dir@, spool_file_name(millis as nat, function_name@)),
        r.notice@ == spool_notice(
            spool_preview_of(output@),
            output.len() as nat,
            r.file_path@,
            ".agent/spool/"@ + spool_file_name(millis as nat, function_name@),
        ),
{
    proof {
        reveal_strlit("_");
        reveal_strlit(".log");
        reveal_strlit("spool");
    }
    let dir = join_path(agent_path, "spool");
    let name = decimal_string(millis).concat("_").concat(safe_function_name(function_name).as_str()).concat(
        ".log",
    );
    let file_path = join_path(dir.as_str(), name.as_str());
    let shown = String::from_str(".agent/spool/").concat(name.as_str());
    let notice = spool_preview(output).concat("\n\n[tool output truncated: ").concat(
        decimal_string(output.len() as u128).as_str(),
    ).concat(" chars; full output saved to ").concat(file_path.as_str()).concat(
        "]\nTo read more: file-read {\"path\": \"",
    ).concat(shown.as_str()).concat("\", \"offset_lines\": 0, \"limit_lines\": 200}");
    SpoolPlan { dir, file_path, notice }
}

} // verus!
