//! A session: the workspace, the agent's directory, the default model, and
//! the tools, system prompt segments and history every context falls back to.

use vstd::prelude::*;
use crate::llm::{text_message, ChatMessage, ChatRole};
use crate::paths::{join_path, path_join};
use crate::history::InMemoryHistory;
use crate::llm::MessageModel;

verus! {

/// A part of the system prompt that is the same text every time.
#[derive(Debug)]
pub struct StaticSystemPromptSegment {
    text: String,
}

impl StaticSystemPromptSegment {
    /// A segment with the text `text`.
    pub fn new(text: String) -> (r: Self)
        ensures
            r.text() == text@,
    {
        StaticSystemPromptSegment { text }
    }

    /// The segment's text.
    pub closed spec fn text(&self) -> Seq<char> {
        self.text@
    }

    /// The segment rendered: its text.
    pub fn render(&self) -> (r: String)
        ensures
            r@ == self.text(),
    {
        self.text.clone()
    }
}

/// The user's line as a user message.
pub fn make_user_message(line: String) -> (r: ChatMessage)
    ensures
        r@ == text_message(ChatRole::User, line@),
{
    ChatMessage::user_text(line)
}

/// A session of the runtime `R`, with tools `T`, system prompt segments `S`
/// and a history `H`.
pub struct Session<R, T, S, H> {
    runtime: R,
    workspace_path: String,
    agent_path: String,
    default_model: String,
    tools: Vec<T>,
    system_prompt_segments: Vec<S>,
    history: H,
}

impl<R, T, S, H> Session<R, T, S, H> {
    /// The runtime.
    pub closed spec fn runtime_value(&self) -> R {
        self.runtime
    }

    /// The workspace directory.
    pub closed spec fn workspace(&self) -> Seq<char> {
        self.workspace_path@
    }

    /// The agent's own directory.
    pub closed spec fn agent_dir(&self) -> Seq<char> {
        self.agent_path@
    }

    /// The default model; empty when none was set.
    pub closed spec fn model(&self) -> Seq<char> {
        self.default_model@
    }

    /// The session's tools, in the order they were added.
    pub closed spec fn tool_list(&self) -> Seq<T> {
        self.tools@
    }

    /// The session's system prompt segments, in the order they were added.
    pub closed spec fn segment_list(&self) -> Seq<S> {
        self.system_prompt_segments@
    }

    /// The session's history.
    pub closed spec fn history_value(&self) -> H {
        self.history
    }

    /// The runtime.
    pub fn runtime(&self) -> (r: &R)
        ensures
            *r == self.runtime_value(),
    {
        &self.runtime
    }

    /// The workspace directory.
    pub fn workspace_path(&self) -> (r: &str)
        ensures
            r@ == self.workspace(),
    {
        self.workspace_path.as_str()
    }

    /// The agent's own directory.
    pub fn agent_path(&self) -> (r: &str)
        ensures
            r@ == self.agent_dir(),
    {
        self.agent_path.as_str()
    }

    /// The default model.
    pub fn default_model(&self) -> (r: &str)
        ensures
            r@ == self.model(),
    {
        self.default_model.as_str()
    }

    /// The session's tools.
    pub fn tools(&self) -> (r: &[T])
        ensures
            r@ == self.tool_list(),
    {
        self.tools.as_slice()
    }

    /// The session's system prompt segments.
    pub fn system_prompt_segments(&self) -> (r: &[S])
        ensures
            r@ == self.segment_list(),
    {
        self.system_prompt_segments.as_slice()
    }

    /// The session's history.
    pub fn history(&self) -> (r: &H)
        ensures
            *r == self.history_value(),
    {
        &self.history
    }
}

/// Builds a [`Session`].
pub struct SessionBuilder<R, T, S, H> {
    runtime: R,
    workspace_path: Option<String>,
    agent_path: Option<String>,
    default_model: Option<String>,
    tools: Vec<T>,
    system_prompt_segments: Vec<S>,
    history: Option<H>,
}

/// What a builder has been given, as text where it is text.
pub struct BuilderModel<R, T, S, H> {
    pub runtime: R,
    pub workspace_path: Option<Seq<char>>,
    pub agent_path: Option<Seq<char>>,
    pub default_model: Option<Seq<char>>,
    pub tools: Seq<T>,
    pub segments: Seq<S>,
    pub history: Option<H>,
}

/// The text of an optional string.
pub open spec fn opt_text(o: Option<String>) -> Option<Seq<char>> {
    match o {
        Some(s) => Some(s@),
        None => None,
    }
}

/// What a new builder for `runtime` holds: nothing set.
pub open spec fn empty_model<R, T, S, H>(runtime: R) -> BuilderModel<R, T, S, H> {
    BuilderModel {
        runtime,
        workspace_path: None,
        agent_path: None,
        default_model: None,
        tools: Seq::empty(),
        segments: Seq::empty(),
        history: None,
    }
}

/// What a builder holds after `add_tool(t)`.
pub open spec fn with_tool<R, T, S, H>(m: BuilderModel<R, T, S, H>, t: T) -> BuilderModel<R, T, S, H> {
    BuilderModel { tools: m.tools.push(t), ..m }
}

/// What a builder holds after `add_tool` with each of `ts` in turn.
pub open spec fn with_tools<R, T, S, H>(m: BuilderModel<R, T, S, H>, ts: Seq<T>) -> BuilderModel<R, T, S, H>
    decreases ts.len(),
{
    if ts.len() == 0 {
        m
    } else {
        with_tool(with_tools(m, ts.drop_last()), ts.last())
    }
}

/// What a builder holds after `add_system_prompt_segment(g)`.
pub open spec fn with_segment<R, T, S, H>(m: BuilderModel<R, T, S, H>, g: S) -> BuilderModel<R, T, S, H> {
    BuilderModel { segments: m.segments.push(g), ..m }
}

/// What a builder holds after `add_system_prompt_segment` with each of `gs`
/// in turn.
pub open spec fn with_segments<R, T, S, H>(m: BuilderModel<R, T, S, H>, gs: Seq<S>) -> BuilderModel<R, T, S, H>
    decreases gs.len(),
{
    if gs.len() == 0 {
        m
    } else {
        with_segment(with_segments(m, gs.drop_last()), gs.last())
    }
}

/// Tools added one after another follow those the builder had, in the order
/// they were added, and nothing else the builder holds changes; so a session
/// built from a new builder after adding `ts` has exactly the tools `ts`
/// (see `SessionBuilder::build` and `Session::tools`).
pub proof fn law_tools_in_order<R, T, S, H>(m: BuilderModel<R, T, S, H>, ts: Seq<T>, runtime: R)
    ensures
        with_tools(m, ts) == (BuilderModel { tools: m.tools + ts, ..m }),
        with_tools(empty_model::<R, T, S, H>(runtime), ts).tools == ts,
    decreases ts.len(),
{
    if ts.len() > 0 {
        law_tools_in_order(m, ts.drop_last(), runtime);
        assert((m.tools + ts.drop_last()).push(ts.last()) =~= m.tools + ts);
        law_tools_in_order(empty_model::<R, T, S, H>(runtime), ts.drop_last(), runtime);
        assert(Seq::<T>::empty() + ts =~= ts);
        assert(ts.drop_last().push(ts.last()) =~= ts);
    } else {
        assert(m.tools + ts =~= m.tools);
    }
}

/// System prompt segments added one after another follow those the builder
/// had, in the order they were added, and nothing else the builder holds
/// changes; so a session built from a new builder after adding `gs` has
/// exactly the segments `gs`.
pub proof fn law_segments_in_order<R, T, S, H>(m: BuilderModel<R, T, S, H>, gs: Seq<S>, runtime: R)
    ensures
        with_segments(m, gs) == (BuilderModel { segments: m.segments + gs, ..m }),
        with_segments(empty_model::<R, T, S, H>(runtime), gs).segments == gs,
    decreases gs.len(),
{
    if gs.len() > 0 {
        law_segments_in_order(m, gs.drop_last(), runtime);
        assert((m.segments + gs.drop_last()).push(gs.last()) =~= m.segments + gs);
        law_segments_in_order(empty_model::<R, T, S, H>(runtime), gs.drop_last(), runtime);
        assert(gs.drop_last().push(gs.last()) =~= gs);
    } else {
        assert(m.segments + gs =~= m.segments);
    }
}

impl<R, T, S, H> SessionBuilder<R, T, S, H> {
    /// What the builder has been given.
    pub closed spec fn model(&self) -> BuilderModel<R, T, S, H> {
        BuilderModel {
            runtime: self.runtime,
            workspace_path: opt_text(self.workspace_path),
            agent_path: opt_text(self.agent_path),
            default_model: opt_text(self.default_model),
            tools: self.tools@,
            segments: self.system_prompt_segments@,
            history: self.history,
        }
    }

    /// A builder for a session of `runtime`, with nothing set.
    pub fn new(runtime: R) -> (r: Self)
        ensures
            r.model() == empty_model::<R, T, S, H>(runtime),
    {
        let r = SessionBuilder {
            runtime,
            workspace_path: None,
            agent_path: None,
            default_model: None,
            tools: Vec::new(),
            system_prompt_segments: Vec::new(),
            history: None,
        };
        assert(r.model().tools =~= Seq::<T>::empty());
        assert(r.model().segments =~= Seq::<S>::empty());
        r
    }

    /// Set the workspace directory.
    pub fn set_workspace_path(self, p: String) -> (r: Self)
        ensures
            r.model() == (BuilderModel { workspace_path: Some(p@), ..self.model() }),
    {
        let mut b = self;
        b.workspace_path = Some(p);
        b
    }

    /// Set the agent's directory.
    pub fn set_agent_path(self, p: String) -> (r: Self)
        ensures
            r.model() == (BuilderModel { agent_path: Some(p@), ..self.model() }),
    {
        let mut b = self;
        b.agent_path = Some(p);
        b
    }

    /// Set the default model.
    pub fn set_default_model(self, s: String) -> (r: Self)
        ensures
            r.model() == (BuilderModel { default_model: Some(s@), ..self.model() }),
    {
        let mut b = self;
        b.default_model = Some(s);
        b
    }

    /// Add a tool after those added before.
    pub fn add_tool(self, tool: T) -> (r: Self)
        ensures
            r.model() == with_tool(self.model(), tool),
    {
        let mut b = self;
        b.tools.push(tool);
        b
    }

    /// Add a system prompt segment after those added before.
    pub fn add_system_prompt_segment(self, seg: S) -> (r: Self)
        ensures
            r.model() == with_segment(self.model(), seg),
    {
        let mut b = self;
        b.system_prompt_segments.push(seg);
        b
    }

    /// Set the history.
    pub fn set_history(self, history: H) -> (r: Self)
        ensures
            r.model() == (BuilderModel { history: Some(history), ..self.model() }),
    {
        let mut b = self;
        b.history = Some(history);
        b
    }

    /// The session: the workspace is the one set, else `current_dir`; the
    /// agent's directory is the one set, else `.agent` in the workspace; the
    /// default model is the one set, else empty; the history is the one set,
    /// else a new empty in-memory history (made into an `H` by `H::from`).
    pub fn build(self, current_dir: String) -> (r: Session<R, T, S, H>)
        where
            H: From<InMemoryHistory>,
        ensures
            r.runtime_value() == self.model().runtime,
            r.workspace() == match self.model().workspace_path {
                Some(p) => p,
                None => current_dir@,
            },
            r.agent_dir() == match self.model().agent_path {
                Some(p) => p,
                None => path_join(r.workspace(), ".agent"@),
            },
            r.model() == match self.model().default_model {
                Some(m) => m,
                None => Seq::<char>::empty(),
            },
            r.tool_list() == self.model().tools,
            r.segment_list() == self.model().segments,
            self.model().history matches Some(h) ==> r.history_value() == h,
            self.model().history is None ==> exists|e: InMemoryHistory|
                e@ == Seq::<MessageModel>::empty() && e.max_size == 1000
                    && call_ensures(H::from, (e,), r.history_value()),
    {
        let workspace_path = match self.workspace_path {
            Some(p) => p,
            None => current_dir,
        };
        let agent_path = match self.agent_path {
            Some(p) => p,
            None => join_path(workspace_path.as_str(), ".agent"),
        };
        let default_model = match self.default_model {
            Some(m) => m,
            None => String::new(),
        };
        let history = match self.history {
            Some(h) => h,
            None => {
                let e = InMemoryHistory::new();
                let h = H::from(e);
                assert(call_ensures(H::from, (e,), h));
                h
            },
        };
        Session {
            runtime: self.runtime,
            workspace_path,
            agent_path,
            default_model,
            tools: self.tools,
            system_prompt_segments: self.system_prompt_segments,
            history,
        }
    }
}

} // verus!
