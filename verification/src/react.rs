//! The ReAct agent's decision parser: the think phase must answer with
//! exactly one leading marker, `[think]`, `[act]` or `[answer]`.

use vstd::prelude::*;
use crate::llm::{text_message, ChatMessage, ChatRole};
use crate::text::{chars_of, slice_chars, some_line_opens_with, some_line_opens_with_exec, starts_with, starts_with_at_exec, take_chars, trim, trim_bounds};

verus! {

/// ReAct (Reasoning and Acting) agent settings.
///
/// The agent alternates a think phase, whose output starts with one of the
/// markers `[think]` (keep thinking), `[act]` (go to the act phase) or
/// `[answer]` (final answer), and an act phase that uses tools.
#[derive(Debug)]
pub struct ReActAgent {
    pub enable_logging: bool,
}

/// What the think phase decided.
#[derive(Debug)]
pub enum ThinkDecision {
    /// `[think]`: continue thinking; the whole trimmed output.
    ContinueThinking { thought: String },
    /// `[act]`: proceed to the act phase; the whole trimmed output.
    ReadyToAct { thought: String },
    /// `[answer]`: the final answer, marker removed and trimmed.
    FinalAnswer { answer: String },
}

/// Why the think phase's output was rejected. Each of these makes the
/// agent clear its history.
#[derive(Debug)]
pub enum ThinkError {
    /// The output was empty or whitespace only.
    EmptyOutput,
    /// The output does not start with a marker; `got` holds its first 100 characters.
    MissingMarker { got: String },
    /// A second marker opens a line of the content; `got` holds the first
    /// 200 characters of the output.
    MultipleMarkers { got: String },
}

/// The classes of think-phase output.
pub enum ThinkClass {
    Empty,
    Missing,
    Multiple,
    Think,
    Act,
    Answer,
}

pub open spec fn think_marker() -> Seq<char> {
    "[think]"@
}

pub open spec fn act_marker() -> Seq<char> {
    "[act]"@
}

pub open spec fn answer_marker() -> Seq<char> {
    "[answer]"@
}

/// The text after a leading marker.
pub open spec fn after_marker(t: Seq<char>, m: Seq<char>) -> Seq<char> {
    t.skip(m.len() as int)
}

/// Classification of the trimmed think output `t`.
pub open spec fn classify_think(t: Seq<char>) -> ThinkClass {
    if t.len() == 0 {
        ThinkClass::Empty
    } else if starts_with(t, think_marker()) {
        let c = after_marker(t, think_marker());
        if some_line_opens_with(c, act_marker()) || some_line_opens_with(c, answer_marker()) {
            ThinkClass::Multiple
        } else {
            ThinkClass::Think
        }
    } else if starts_with(t, act_marker()) {
        let c = after_marker(t, act_marker());
        if some_line_opens_with(c, think_marker()) || some_line_opens_with(c, answer_marker()) {
            ThinkClass::Multiple
        } else {
            ThinkClass::Act
        }
    } else if starts_with(t, answer_marker()) {
        let c = after_marker(t, answer_marker());
        if some_line_opens_with(c, think_marker()) || some_line_opens_with(c, act_marker()) {
            ThinkClass::Multiple
        } else {
            ThinkClass::Answer
        }
    } else {
        ThinkClass::Missing
    }
}

/// The class a parse result belongs to.
pub open spec fn class_of(r: Result<ThinkDecision, ThinkError>) -> ThinkClass {
    match r {
        Ok(ThinkDecision::ContinueThinking { .. }) => ThinkClass::Think,
        Ok(ThinkDecision::ReadyToAct { .. }) => ThinkClass::Act,
        Ok(ThinkDecision::FinalAnswer { .. }) => ThinkClass::Answer,
        Err(ThinkError::EmptyOutput) => ThinkClass::Empty,
        Err(ThinkError::MissingMarker { .. }) => ThinkClass::Missing,
        Err(ThinkError::MultipleMarkers { .. }) => ThinkClass::Multiple,
    }
}

/// The text each parse result carries, given the trimmed output `t`.
pub open spec fn payload_ok(r: Result<ThinkDecision, ThinkError>, t: Seq<char>) -> bool {
    match r {
        Ok(ThinkDecision::ContinueThinking { thought }) => thought@ == t,
        Ok(ThinkDecision::ReadyToAct { thought }) => thought@ == t,
        Ok(ThinkDecision::FinalAnswer { answer }) => answer@ == trim(after_marker(t, answer_marker())),
        Err(ThinkError::EmptyOutput) => true,
        Err(ThinkError::MissingMarker { got }) => got@ == take_chars(t, 100),
        Err(ThinkError::MultipleMarkers { got }) => got@ == take_chars(t, 200),
    }
}

pub open spec fn empty_output_message() -> Seq<char> {
    "Think phase returned empty output (likely due to unstable LLM response). History will be cleared."@
}

pub open spec fn missing_marker_message() -> Seq<char> {
    "Think phase output missing marker (likely due to unstable LLM response). History will be cleared. Got: "@
}

pub open spec fn multiple_markers_message() -> Seq<char> {
    "Think phase output contains multiple decision markers. Use ONLY ONE marker. Got: "@
}

impl ThinkError {
    /// The error's message text.
    pub fn to_string(&self) -> (r: String)
        ensures
            r@ == match self {
                ThinkError::EmptyOutput => empty_output_message(),
                ThinkError::MissingMarker { got } => missing_marker_message() + got@,
                ThinkError::MultipleMarkers { got } => multiple_markers_message() + got@,
            },
    {
        match self {
            ThinkError::EmptyOutput => String::from_str(
                "Think phase returned empty output (likely due to unstable LLM response). History will be cleared.",
            ),
            ThinkError::MissingMarker { got } => String::from_str(
                "Think phase output missing marker (likely due to unstable LLM response). History will be cleared. Got: ",
            ).concat(got.as_str()),
            ThinkError::MultipleMarkers { got } => String::from_str(
                "Think phase output contains multiple decision markers. Use ONLY ONE marker. Got: ",
            ).concat(got.as_str()),
        }
    }
}

/// The first `n` characters of `s` as a new string.
fn prefix_string(s: &str, n: usize) -> (r: String)
    ensures
        r@ == take_chars(s@, n as nat),
{
    let len = s.unicode_len();
    if len <= n {
        String::from_str(s)
    } else {
        String::from_str(s.substring_char(0, n))
    }
}

impl ReActAgent {
    /// A ReAct agent with logging enabled.
    pub fn new() -> (r: Self)
        ensures
            r.enable_logging,
    {
        ReActAgent { enable_logging: true }
    }

    /// The same agent with logging switched on or off.
    pub fn with_logging(self, enable: bool) -> (r: Self)
        ensures
            r.enable_logging == enable,
    {
        ReActAgent { enable_logging: enable }
    }

    /// Parse the think phase's output into a decision.
    ///
    /// The output is trimmed. It must be non-empty and start with exactly one
    /// of the markers; no line of the text after the marker may, once its
    /// leading whitespace is removed, start with one of the other two markers
    /// (mentioning a marker elsewhere in a line is allowed).
    pub fn parse_think_decision(&self, output: &str) -> (r: Result<ThinkDecision, ThinkError>)
        ensures
            class_of(r) == classify_think(trim(output@)),
            payload_ok(r, trim(output@)),
    {
        let cs = chars_of(output);
        let (s, e) = trim_bounds(&cs);
        let ghost t = trim(output@);
        if s == e {
            return Err(ThinkError::EmptyOutput);
        }
        let tc = slice_chars(&cs, s, e);
        let trimmed = output.substring_char(s, e);
        assert(trimmed@ == t);
        assert(tc@ == t);
        let n = tc.len();
        if starts_with_at_exec(&tc, 0, "[think]") {
            let ml = "[think]".unicode_len();
            let content = slice_chars(&tc, ml, n);
            assert(content@ =~= after_marker(t, think_marker()));
            if some_line_opens_with_exec(&content, "[act]") || some_line_opens_with_exec(
                &content,
                "[answer]",
            ) {
                return Err(ThinkError::MultipleMarkers { got: prefix_string(trimmed, 200) });
            }
            return Ok(ThinkDecision::ContinueThinking { thought: String::from_str(trimmed) });
        }
        if starts_with_at_exec(&tc, 0, "[act]") {
            let ml = "[act]".unicode_len();
            let content = slice_chars(&tc, ml, n);
            assert(content@ =~= after_marker(t, act_marker()));
            if some_line_opens_with_exec(&content, "[think]") || some_line_opens_with_exec(
                &content,
                "[answer]",
            ) {
                return Err(ThinkError::MultipleMarkers { got: prefix_string(trimmed, 200) });
            }
            return Ok(ThinkDecision::ReadyToAct { thought: String::from_str(trimmed) });
        }
        if starts_with_at_exec(&tc, 0, "[answer]") {
            let ml = "[answer]".unicode_len();
            let content = slice_chars(&tc, ml, n);
            assert(content@ =~= after_marker(t, answer_marker()));
            if some_line_opens_with_exec(&content, "[think]") || some_line_opens_with_exec(
                &content,
                "[act]",
            ) {
                return Err(ThinkError::MultipleMarkers { got: prefix_string(trimmed, 200) });
            }
            let (s2, e2) = trim_bounds(&content);
            let answer = trimmed.substring_char(ml + s2, ml + e2);
            assert(answer@ =~= content@.subrange(s2 as int, e2 as int));
            return Ok(ThinkDecision::FinalAnswer { answer: String::from_str(answer) });
        }
        Err(ThinkError::MissingMarker { got: prefix_string(trimmed, 100) })
    }
}

impl Default for ReActAgent {
    /// A ReAct agent with logging enabled, as [`ReActAgent::new`] makes it.
    fn default() -> (r: Self)
        ensures
            r.enable_logging,
    {
        ReActAgent::new()
    }
}

/// What the agent does after a think phase.
#[derive(Debug)]
pub enum AfterThink {
    /// Append this user message and think again.
    ThinkAgain(ChatMessage),
    /// Append this user message and run the act phase.
    Act(ChatMessage),
    /// The task is done.
    Done,
}

/// The user message that keeps the conversation going after a thought.
pub open spec fn continue_prompt() -> Seq<char> {
    "Continue thinking."@
}

/// The user message before the act phase.
pub open spec fn act_prompt() -> Seq<char> {
    "Proceed with the action."@
}

impl ReActAgent {
    /// The step after a think phase: keep thinking, act, or stop at the
    /// final answer. (The thought itself is already in the history.)
    pub fn after_think(&self, decision: &ThinkDecision) -> (r: AfterThink)
        ensures
            match decision {
                ThinkDecision::ContinueThinking { .. } => r matches AfterThink::ThinkAgain(m)
                    && m@ == text_message(ChatRole::User, continue_prompt()),
                ThinkDecision::ReadyToAct { .. } => r matches AfterThink::Act(m)
                    && m@ == text_message(ChatRole::User, act_prompt()),
                ThinkDecision::FinalAnswer { .. } => r is Done,
            },
    {
        match decision {
            ThinkDecision::ContinueThinking { .. } => AfterThink::ThinkAgain(
                ChatMessage::user_text(String::from_str("Continue thinking.")),
            ),
            ThinkDecision::ReadyToAct { .. } => AfterThink::Act(
                ChatMessage::user_text(String::from_str("Proceed with the action.")),
            ),
            ThinkDecision::FinalAnswer { .. } => AfterThink::Done,
        }
    }

    /// The user message that reports what the act phase observed.
    pub fn observation_message(&self, observation: &str) -> (r: ChatMessage)
        ensures
            r@ == text_message(ChatRole::User, "Observation: "@ + observation@),
    {
        ChatMessage::user_text(String::from_str("Observation: ").concat(observation))
    }
}


proof fn lemma_markers_exclusive(t: Seq<char>)
    ensures
        starts_with(t, "[act]"@) ==> !starts_with(t, "[think]"@) && !starts_with(t, "[answer]"@),
        starts_with(t, "[answer]"@) ==> !starts_with(t, "[think]"@) && !starts_with(t, "[act]"@),
        "[think]"@.len() == 7 && "[act]"@.len() == 5 && "[answer]"@.len() == 8,
{
    reveal_strlit("[think]");
    reveal_strlit("[act]");
    reveal_strlit("[answer]");
    if starts_with(t, "[act]"@) {
        assert(t[1] == t.subrange(0, 5)[1]);
        assert(t[2] == t.subrange(0, 5)[2]);
        if starts_with(t, "[think]"@) {
            assert(t[1] == t.subrange(0, 7)[1]);
        }
        if starts_with(t, "[answer]"@) {
            assert(t[2] == t.subrange(0, 8)[2]);
        }
    }
    if starts_with(t, "[answer]"@) {
        assert(t[1] == t.subrange(0, 8)[1]);
        assert(t[2] == t.subrange(0, 8)[2]);
        if starts_with(t, "[think]"@) {
            assert(t[1] == t.subrange(0, 7)[1]);
        }
        if starts_with(t, "[act]"@) {
            assert(t[2] == t.subrange(0, 5)[2]);
        }
    }
}

/// Exactly one decision marker: a decision is taken only when the output
/// opens with its marker and no line of the text after it opens (after
/// leading blanks) with either of the other two markers; an output that
/// opens with a marker and has such a line is rejected as holding several
/// markers. (`t` is the trimmed output.)
pub proof fn law_one_marker_per_decision(t: Seq<char>)
    ensures
        classify_think(t) is Think ==> starts_with(t, "[think]"@)
            && !some_line_opens_with(t.skip(7), "[act]"@)
            && !some_line_opens_with(t.skip(7), "[answer]"@),
        classify_think(t) is Act ==> starts_with(t, "[act]"@)
            && !some_line_opens_with(t.skip(5), "[think]"@)
            && !some_line_opens_with(t.skip(5), "[answer]"@),
        classify_think(t) is Answer ==> starts_with(t, "[answer]"@)
            && !some_line_opens_with(t.skip(8), "[think]"@)
            && !some_line_opens_with(t.skip(8), "[act]"@),
        starts_with(t, "[think]"@) && (some_line_opens_with(t.skip(7), "[act]"@)
            || some_line_opens_with(t.skip(7), "[answer]"@)) ==> classify_think(t) is Multiple,
        starts_with(t, "[act]"@) && (some_line_opens_with(t.skip(5), "[think]"@)
            || some_line_opens_with(t.skip(5), "[answer]"@)) ==> classify_think(t) is Multiple,
        starts_with(t, "[answer]"@) && (some_line_opens_with(t.skip(8), "[think]"@)
            || some_line_opens_with(t.skip(8), "[act]"@)) ==> classify_think(t) is Multiple,
        t.len() == 0 <==> classify_think(t) is Empty,
        t.len() > 0 && !starts_with(t, "[think]"@) && !starts_with(t, "[act]"@) && !starts_with(t, "[answer]"@)
            <==> classify_think(t) is Missing,
{
    lemma_markers_exclusive(t);
}

/// What each decision carries: a thought is the whole trimmed output `t`,
/// marker included; a final answer is the text after `[answer]`, trimmed;
/// a rejection for a missing marker shows the first 100 characters of `t`,
/// one for several markers the first 200.
pub proof fn law_decision_payloads(r: Result<ThinkDecision, ThinkError>, t: Seq<char>)
    requires
        payload_ok(r, t),
    ensures
        r matches Ok(ThinkDecision::ContinueThinking { thought }) ==> thought@ == t,
        r matches Ok(ThinkDecision::ReadyToAct { thought }) ==> thought@ == t,
        r matches Ok(ThinkDecision::FinalAnswer { answer }) ==> answer@ == trim(t.skip(8)),
        r matches Err(ThinkError::MissingMarker { got }) ==> got@ == t.take(if t.len() <= 100 { t.len() as int } else { 100 }),
        r matches Err(ThinkError::MultipleMarkers { got }) ==> got@ == t.take(if t.len() <= 200 { t.len() as int } else { 200 }),
{
    lemma_markers_exclusive(t);
    if t.len() <= 100 {
        assert(t.take(t.len() as int) =~= t);
    }
    if t.len() <= 200 {
        assert(t.take(t.len() as int) =~= t);
    }
}

} // verus!
