//! Decisions of the tool-calling loop: what to do with a model reply, how
//! the system prompt is put together, which sender serves a model.

use vstd::prelude::*;
use crate::llm::{model_messages, text_message, ChatContent, ChatMessage, ChatRole, ContentModel, MessageModel};
use crate::text::{chars_of, join, trim, trim_bounds};
use crate::tools::{parse_calls, parse_tool_calls, ToolCall, ToolCallError, ToolCallModel};

verus! {

/// Runs tasks of type `F` (pinned, boxed futures) on the current thread.
pub trait LocalSpawner<F> {
    fn spawn_local(&self, fut: F);
}

/// Most tool-call rounds one run may take: a run whose model still asks for
/// tools in this round gives up with an error, so that a model that never
/// answers with text cannot keep the loop (and its costs) going.
pub const MAX_TOOL_ITERATIONS: usize = 50;

/// Why the tool loop stopped with an error.
#[derive(Debug)]
pub enum LoopError {
    /// The session has no default model.
    MissingModel,
    /// The model's reply was not an assistant message.
    NotAssistant,
    /// The reply asked for tool calls but listed none.
    EmptyToolCalls,
    /// The reply was a tool result.
    UnexpectedMessage,
    /// The reply's tool calls could not be read.
    BadToolCalls(ToolCallError),
    /// No tool declares the function a call names.
    NoToolForFunction { function_name: String },
    /// No provider serves the model and no OpenAI configuration is set.
    MissingOpenAiConfig,
    /// The model still asked for tools in the last round allowed.
    TooManyToolRounds,
}

impl LoopError {
    /// The error's message text.
    pub fn to_string(&self) -> (r: String)
        ensures
            r@ == match self {
                LoopError::MissingModel => "agent: missing default model"@,
                LoopError::NotAssistant => "tool_loop: reply role is not assistant"@,
                LoopError::EmptyToolCalls => "tool_loop: empty tool_calls"@,
                LoopError::UnexpectedMessage => "tool_loop: unexpected assistant message"@,
                LoopError::BadToolCalls(e) => e.message(),
                LoopError::NoToolForFunction { function_name } =>
                    "tool_loop: no tool for function: "@ + function_name@,
                LoopError::MissingOpenAiConfig => "missing openai provider config"@,
                LoopError::TooManyToolRounds => "tool_loop: exceeded maximum tool iterations (50)"@,
            },
    {
        match self {
            LoopError::MissingModel => String::from_str("agent: missing default model"),
            LoopError::NotAssistant => String::from_str("tool_loop: reply role is not assistant"),
            LoopError::EmptyToolCalls => String::from_str("tool_loop: empty tool_calls"),
            LoopError::UnexpectedMessage => String::from_str("tool_loop: unexpected assistant message"),
            LoopError::BadToolCalls(e) => e.to_string(),
            LoopError::NoToolForFunction { function_name } => String::from_str(
                "tool_loop: no tool for function: ",
            ).concat(function_name.as_str()),
            LoopError::MissingOpenAiConfig => String::from_str("missing openai provider config"),
            LoopError::TooManyToolRounds => String::from_str(
                "tool_loop: exceeded maximum tool iterations (50)",
            ),
        }
    }
}

/// A run may start only with a default model.
pub fn check_model(model: &str) -> (r: Result<(), LoopError>)
    ensures
        r is Ok <==> model@.len() > 0,
        r is Err ==> r->Err_0 is MissingModel,
{
    if model.unicode_len() == 0 {
        Err(LoopError::MissingModel)
    } else {
        Ok(())
    }
}

/// What the loop does after an assistant reply.
#[derive(Debug)]
pub enum ReplyStep {
    /// The reply is text: the run is over.
    Finished,
    /// Run these tool calls in order, append their results, ask again.
    RunTools(Vec<ToolCall>),
}

/// Mathematical form of a [`ReplyStep`].
pub enum StepModel {
    Finished,
    RunTools(Seq<ToolCallModel>),
}

/// The error the loop stops with, as far as a model of it goes.
pub enum LoopErrorModel {
    NotAssistant,
    EmptyToolCalls,
    UnexpectedMessage,
    BadToolCalls(ToolCallError),
    TooManyToolRounds,
}

/// What a reply leads to: text ends the run, a non-empty list of
/// well-formed tool calls is run, anything else is an error.
pub open spec fn reply_step(m: MessageModel) -> Result<StepModel, LoopErrorModel> {
    if m.role != ChatRole::Assistant {
        Err(LoopErrorModel::NotAssistant)
    } else {
        match m.content {
            ContentModel::Text(_) => Ok(StepModel::Finished),
            ContentModel::ToolCalls(v) => match parse_calls(v) {
                Err(e) => Err(LoopErrorModel::BadToolCalls(e)),
                Ok(cs) => if cs.len() == 0 {
                    Err(LoopErrorModel::EmptyToolCalls)
                } else {
                    Ok(StepModel::RunTools(cs))
                },
            },
            ContentModel::ToolResult { .. } => Err(LoopErrorModel::UnexpectedMessage),
        }
    }
}

/// The model of a step result.
pub open spec fn step_view(r: Result<ReplyStep, LoopError>) -> Result<StepModel, LoopErrorModel> {
    match r {
        Ok(ReplyStep::Finished) => Ok(StepModel::Finished),
        Ok(ReplyStep::RunTools(cs)) => Ok(StepModel::RunTools(cs@.map_values(|c: ToolCall| c@))),
        Err(LoopError::NotAssistant) => Err(LoopErrorModel::NotAssistant),
        Err(LoopError::EmptyToolCalls) => Err(LoopErrorModel::EmptyToolCalls),
        Err(LoopError::BadToolCalls(e)) => Err(LoopErrorModel::BadToolCalls(e)),
        Err(LoopError::TooManyToolRounds) => Err(LoopErrorModel::TooManyToolRounds),
        Err(_) => Err(LoopErrorModel::UnexpectedMessage),
    }
}

/// Decide what the tool loop does with the model's reply.
pub fn next_step(reply: &ChatMessage) -> (r: Result<ReplyStep, LoopError>)
    ensures
        step_view(r) == reply_step(reply@),
        r is Err ==> !(r->Err_0 is MissingModel) && !(r->Err_0 is NoToolForFunction)
            && !(r->Err_0 is MissingOpenAiConfig) && !(r->Err_0 is TooManyToolRounds),
{
    if reply.role != ChatRole::Assistant {
        return Err(LoopError::NotAssistant);
    }
    match &reply.content {
        ChatContent::Text(_) => Ok(ReplyStep::Finished),
        ChatContent::ToolCalls(v) => match parse_tool_calls(v) {
            Err(e) => Err(LoopError::BadToolCalls(e)),
            Ok(calls) => {
                if calls.len() == 0 {
                    Err(LoopError::EmptyToolCalls)
                } else {
                    Ok(ReplyStep::RunTools(calls))
                }
            },
        },
        ChatContent::ToolResult { .. } => Err(LoopError::UnexpectedMessage),
    }
}

/// What the reply of round `round` (rounds counted from 1) leads to: as
/// [`reply_step`], except that tool calls asked for in round
/// [`MAX_TOOL_ITERATIONS`] or later end the run with an error.
pub open spec fn round_step(round: nat, m: MessageModel) -> Result<StepModel, LoopErrorModel> {
    match reply_step(m) {
        Ok(StepModel::RunTools(cs)) => if round >= MAX_TOOL_ITERATIONS {
            Err(LoopErrorModel::TooManyToolRounds)
        } else {
            Ok(StepModel::RunTools(cs))
        },
        other => other,
    }
}

/// Decide what the tool loop does with the reply of round `round` (see
/// [`round_step`]).
pub fn next_step_in_round(round: usize, reply: &ChatMessage) -> (r: Result<ReplyStep, LoopError>)
    ensures
        step_view(r) == round_step(round as nat, reply@),
        r is Err ==> !(r->Err_0 is MissingModel) && !(r->Err_0 is NoToolForFunction)
            && !(r->Err_0 is MissingOpenAiConfig),
{
    match next_step(reply) {
        Ok(ReplyStep::RunTools(calls)) => {
            if round >= MAX_TOOL_ITERATIONS {
                Err(LoopError::TooManyToolRounds)
            } else {
                Ok(ReplyStep::RunTools(calls))
            }
        },
        other => other,
    }
}

/// How many replies a run reads, from round `round` on, when the model
/// answers with `replies` in turn: each reply that leads to tool calls is
/// followed by the next round; any other reply ends the run.
pub open spec fn replies_read(replies: Seq<MessageModel>, round: nat) -> nat
    decreases replies.len(),
{
    if replies.len() == 0 {
        0
    } else if round_step(round, replies[0]) matches Ok(StepModel::RunTools(_)) {
        1 + replies_read(replies.drop_first(), round + 1)
    } else {
        1
    }
}

/// A run asks the model at most [`MAX_TOOL_ITERATIONS`] times, whatever it
/// answers: the round limit ends every tool loop.
pub proof fn law_tool_rounds_bounded(replies: Seq<MessageModel>)
    ensures
        replies_read(replies, 1) <= MAX_TOOL_ITERATIONS,
{
    lemma_replies_read_bound(replies, 1);
}

proof fn lemma_replies_read_bound(replies: Seq<MessageModel>, round: nat)
    requires
        1 <= round <= MAX_TOOL_ITERATIONS,
    ensures
        replies_read(replies, round) <= MAX_TOOL_ITERATIONS + 1 - round,
    decreases replies.len(),
{
    if replies.len() > 0 && round_step(round, replies[0]) matches Ok(StepModel::RunTools(_)) {
        assert(round < MAX_TOOL_ITERATIONS);
        lemma_replies_read_bound(replies.drop_first(), round + 1);
    }
}

/// The text handed back to the model when a tool fails: the function's name
/// and the innermost cause of the failure.
pub fn tool_error_text(function_name: &str, message: &str) -> (r: String)
    ensures
        r@ == "tool error\nfunction: "@ + function_name@ + "\nmessage: "@ + message@,
{
    String::from_str("tool error\nfunction: ").concat(function_name).concat("\nmessage: ").concat(
        message,
    )
}

/// Which sender serves a model.
#[derive(Debug)]
pub enum SenderChoice {
    /// The registered provider at this index.
    Provider(usize),
    /// A sender built from the OpenAI configuration.
    OpenAi,
}

/// The first index at which `supports` holds, if any.
pub open spec fn first_supporting(supports: Seq<bool>) -> Option<int> {
    if exists|i: int| 0 <= i < supports.len() && supports[i] {
        Some(choose|i: int| 0 <= i < supports.len() && supports[i]
            && forall|j: int| 0 <= j < i ==> !supports[j])
    } else {
        None
    }
}

/// Choose a sender: the first registered provider that supports the model
/// (`supports[i]` is provider `i`'s answer), else the OpenAI configuration.
pub fn choose_sender(supports: &[bool], has_openai: bool) -> (r: Result<SenderChoice, LoopError>)
    ensures
        match r {
            Ok(SenderChoice::Provider(i)) => i < supports@.len() && supports@[i as int]
                && forall|j: int| 0 <= j < i ==> !supports@[j],
            Ok(SenderChoice::OpenAi) => has_openai && forall|j: int|
                0 <= j < supports@.len() ==> !supports@[j],
            Err(e) => e is MissingOpenAiConfig && !has_openai && forall|j: int|
                0 <= j < supports@.len() ==> !supports@[j],
        },
{
    let mut i: usize = 0;
    while i < supports.len()
        invariant
            i <= supports@.len(),
            forall|j: int| 0 <= j < i ==> !supports@[j],
        decreases supports@.len() - i,
    {
        if supports[i] {
            return Ok(SenderChoice::Provider(i));
        }
        i = i + 1;
    }
    if has_openai {
        Ok(SenderChoice::OpenAi)
    } else {
        Err(LoopError::MissingOpenAiConfig)
    }
}

/// The non-blank parts (those with something left after trimming), in order.
pub open spec fn nonblank(parts: Seq<Seq<char>>) -> Seq<Seq<char>>
    decreases parts.len(),
{
    if parts.len() == 0 {
        Seq::empty()
    } else if trim(parts.last()).len() > 0 {
        nonblank(parts.drop_last()).push(parts.last())
    } else {
        nonblank(parts.drop_last())
    }
}

pub proof fn lemma_nonblank_len(parts: Seq<Seq<char>>)
    ensures
        nonblank(parts).len() <= parts.len(),
    decreases parts.len(),
{
    if parts.len() > 0 {
        lemma_nonblank_len(parts.drop_last());
    }
}

/// Does `s` hold only whitespace?
pub fn is_blank(s: &str) -> (r: bool)
    ensures
        r == (trim(s@).len() == 0),
{
    let cs = chars_of(s);
    let (a, b) = trim_bounds(&cs);
    a == b
}

/// The system prompt made of the rendered segments: the non-blank ones
/// joined by a blank line.
pub fn assemble_system_prompt(parts: &[String]) -> (r: String)
    ensures
        r@ == join(nonblank(parts@.map_values(|p: String| p@)), "\n\n"@),
{
    let ghost ps = parts@.map_values(|p: String| p@);
    let mut out = String::new();
    let mut kept: usize = 0;
    let mut i: usize = 0;
    while i < parts.len()
        invariant
            ps == parts@.map_values(|p: String| p@),
            i <= parts@.len(),
            kept == nonblank(ps.take(i as int)).len(),
            kept <= i,
            out@ == join(nonblank(ps.take(i as int)), "\n\n"@),
        decreases parts@.len() - i,
    {
        let p = &parts[i];
        assert(ps.take(i as int + 1).drop_last() =~= ps.take(i as int));
        assert(ps.take(i as int + 1).last() == p@);
        let ghost prev = nonblank(ps.take(i as int));
        proof {
            lemma_nonblank_len(ps.take(i as int));
        }
        if !is_blank(p.as_str()) {
            assert(nonblank(ps.take(i as int + 1)) == prev.push(p@));
            assert(prev.push(p@).drop_last() =~= prev);
            if kept == 0 {
                out = p.clone();
            } else {
                out = out.concat("\n\n").concat(p.as_str());
            }
            kept = kept + 1;
        }
        i = i + 1;
    }
    assert(ps.take(parts@.len() as int) =~= ps);
    out
}

/// The messages sent to the model: a system message with the prompt goes
/// first, unless the prompt is empty or the first message is already a
/// system message.
pub open spec fn with_system(ms: Seq<MessageModel>, prompt: Seq<char>) -> Seq<MessageModel> {
    if prompt.len() == 0 || (ms.len() > 0 && ms[0].role == ChatRole::System) {
        ms
    } else {
        seq![text_message(ChatRole::System, prompt)] + ms
    }
}

/// Put the system prompt in front of the messages (see [`with_system`]).
pub fn with_system_prompt(messages: Vec<ChatMessage>, system_prompt: String) -> (r: Vec<ChatMessage>)
    ensures
        model_messages(r@) == with_system(model_messages(messages@), system_prompt@),
{
    let mut messages = messages;
    if system_prompt.unicode_len() == 0 {
        return messages;
    }
    if messages.len() > 0 && messages[0].role == ChatRole::System {
        return messages;
    }
    let ghost before = messages@;
    messages.insert(0, ChatMessage::system_text(system_prompt));
    assert(model_messages(messages@) =~= with_system(model_messages(before), system_prompt@));
    messages
}

/// The system prompt is put in front at most once: once the messages start
/// with a system message, adding a prompt again changes nothing; and the
/// given messages always follow unchanged.
pub proof fn law_system_prompt_once(ms: Seq<MessageModel>, p: Seq<char>, q: Seq<char>)
    ensures
        p.len() > 0 ==> with_system(with_system(ms, p), q) == with_system(ms, p),
        with_system(ms, p).skip(with_system(ms, p).len() - ms.len()) == ms,
        with_system(ms, p).len() <= ms.len() + 1,
{
    assert(with_system(ms, p).skip(with_system(ms, p).len() - ms.len()) =~= ms);
}

} // verus!
