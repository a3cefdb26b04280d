//! The ReCAP agent's memory: recaps of the conversation, recorded before
//! each step and rolled up when there are too many.

use vstd::prelude::*;
use crate::llm::{model_messages, text_message, ChatContent, ChatMessage, ChatRole, MessageModel};
use crate::text::{trim, trimmed};

verus! {

/// Most recaps kept before older ones are rolled up.
pub const MAX_RECAP_NODES: usize = 8;

/// What a recap was made from.
#[derive(Clone, Copy, Debug, PartialEq, Eq, Structural)]
pub enum ReCapLevel {
    /// Raw interaction history.
    History,
    /// Earlier recaps.
    Recap,
}

/// One recap.
#[derive(Debug)]
pub struct ReCapNode {
    pub level: ReCapLevel,
    pub text: String,
}

/// Mathematical form of a [`ReCapNode`].
pub struct NodeModel {
    pub level: ReCapLevel,
    pub text: Seq<char>,
}

impl View for ReCapNode {
    type V = NodeModel;

    open spec fn view(&self) -> NodeModel {
        NodeModel { level: self.level, text: self.text@ }
    }
}

/// An agent that keeps recaps of the conversation and shows them to the
/// model instead of relying on the raw history alone.
pub struct ReCapAgent {
    nodes: Vec<ReCapNode>,
    debug: bool,
}

impl View for ReCapAgent {
    type V = Seq<NodeModel>;

    closed spec fn view(&self) -> Seq<NodeModel> {
        self.nodes@.map_values(|n: ReCapNode| n@)
    }
}

/// The level's name as `Debug` prints it.
pub open spec fn level_name(l: ReCapLevel) -> Seq<char> {
    match l {
        ReCapLevel::History => "History"@,
        ReCapLevel::Recap => "Recap"@,
    }
}

/// The system text that shows a recap to the model.
pub open spec fn node_text(n: NodeModel) -> Seq<char> {
    "ReCAP ("@ + level_name(n.level) + "):\n"@ + trim(n.text)
}

/// The system messages that show recaps to the model.
pub open spec fn node_messages(ns: Seq<NodeModel>) -> Seq<MessageModel> {
    ns.map_values(|n: NodeModel| text_message(ChatRole::System, node_text(n)))
}

/// System messages with the given texts.
pub open spec fn system_messages(ts: Seq<Seq<char>>) -> Seq<MessageModel> {
    ts.map_values(|t: Seq<char>| text_message(ChatRole::System, t))
}

/// The recaps after recording a new one made from history.
pub open spec fn recorded(ns: Seq<NodeModel>, text: Seq<char>) -> Seq<NodeModel> {
    ns.push(NodeModel { level: ReCapLevel::History, text })
}

/// The recaps after the older half is replaced by one roll-up recap.
pub open spec fn rolled_up(ns: Seq<NodeModel>, text: Seq<char>) -> Seq<NodeModel> {
    seq![NodeModel { level: ReCapLevel::Recap, text }] + ns.skip((ns.len() / 2) as int)
}

/// The instruction for a new recap.
pub open spec fn recap_instruction() -> Seq<char> {
    "You are producing a ReCAP memory update.\nReturn ONLY plain text with the following sections:\n- Goals\n- Current plan / next actions\n- Key facts (including tool outputs worth keeping)\n- Decisions made / rationale (high level)\n- Open questions / uncertainties\n- Constraints / preferences\nDo NOT include secrets. Do NOT include tool call JSON."@
}

/// The instruction for a roll-up.
pub open spec fn rollup_instruction() -> Seq<char> {
    "You are rolling up multiple ReCAP summaries into a higher-level ReCAP.\nReturn ONLY plain text with the same sections as before, but preserve long-term goals, constraints, and decisions."@
}

/// The request for a new recap: the system segments, the existing recaps
/// under a heading (if any), the instruction, and the raw history.
pub open spec fn recap_request_of(segs: Seq<Seq<char>>, ns: Seq<NodeModel>, hist: Seq<MessageModel>) -> Seq<MessageModel> {
    system_messages(segs) + (if ns.len() > 0 {
        seq![text_message(ChatRole::System, "Existing ReCAP memory (most recent last):"@)] + node_messages(ns)
    } else {
        Seq::empty()
    }) + seq![
        text_message(ChatRole::System, recap_instruction()),
        text_message(ChatRole::System, "Raw interaction history follows:"@),
    ] + hist
}

/// The request for a roll-up: the system segments, the instruction, and the
/// older half of the recaps.
pub open spec fn rollup_request_of(segs: Seq<Seq<char>>, ns: Seq<NodeModel>) -> Seq<MessageModel> {
    system_messages(segs) + seq![text_message(ChatRole::System, rollup_instruction())] + node_messages(
        ns.take((ns.len() / 2) as int),
    )
}

/// The messages of the acting step: the system segments, every recap, and
/// the history.
pub open spec fn act_request_of(segs: Seq<Seq<char>>, ns: Seq<NodeModel>, hist: Seq<MessageModel>) -> Seq<MessageModel> {
    system_messages(segs) + node_messages(ns) + hist
}

/// A recording followed by a roll-up when there are too many recaps never
/// leaves more than eight, and a roll-up keeps the newer half unchanged
/// behind one higher-level recap.
pub proof fn law_recaps_stay_bounded(ns: Seq<NodeModel>, text: Seq<char>, rollup_text: Seq<char>)
    requires
        ns.len() <= 8,
    ensures
        ({
            let r = recorded(ns, text);
            let after = if r.len() > 8 { rolled_up(r, rollup_text) } else { r };
            after.len() <= 8 && after.last() == (NodeModel { level: ReCapLevel::History, text })
        }),
{
    let r = recorded(ns, text);
    if r.len() > 8 {
        let after = rolled_up(r, rollup_text);
        assert(after.len() == 1 + r.len() - r.len() / 2);
        assert(after.last() == r.last());
    }
}

/// A roll-up puts one higher-level recap in front of the newer half.
pub proof fn law_rollup_keeps_newer_half(ns: Seq<NodeModel>, text: Seq<char>)
    requires
        ns.len() > 8,
    ensures
        rolled_up(ns, text).len() < ns.len(),
        rolled_up(ns, text)[0] == (NodeModel { level: ReCapLevel::Recap, text }),
        rolled_up(ns, text).skip(1) == ns.skip((ns.len() / 2) as int),
{
    assert(rolled_up(ns, text).skip(1) =~= ns.skip((ns.len() / 2) as int));
}

/// Why a recap step failed.
#[derive(Debug)]
pub enum ReCapError {
    NotAssistant { rollup: bool },
    ToolCalls { rollup: bool },
    ToolResult { rollup: bool },
}

impl ReCapError {
    /// The error's message text.
    pub fn to_string(&self) -> (r: String)
        ensures
            r@ == match self {
                ReCapError::NotAssistant { rollup } => if *rollup {
                    "recap_rollup: reply role is not assistant"@
                } else {
                    "recap: reply role is not assistant"@
                },
                ReCapError::ToolCalls { rollup } => if *rollup {
                    "recap_rollup: unexpected tool_calls"@
                } else {
                    "recap: unexpected tool_calls"@
                },
                ReCapError::ToolResult { rollup } => if *rollup {
                    "recap_rollup: unexpected tool result"@
                } else {
                    "recap: unexpected tool result"@
                },
            },
    {
        match self {
            ReCapError::NotAssistant { rollup } => if *rollup {
                String::from_str("recap_rollup: reply role is not assistant")
            } else {
                String::from_str("recap: reply role is not assistant")
            },
            ReCapError::ToolCalls { rollup } => if *rollup {
                String::from_str("recap_rollup: unexpected tool_calls")
            } else {
                String::from_str("recap: unexpected tool_calls")
            },
            ReCapError::ToolResult { rollup } => if *rollup {
                String::from_str("recap_rollup: unexpected tool result")
            } else {
                String::from_str("recap: unexpected tool result")
            },
        }
    }
}

/// The text of a recap reply: it must be an assistant text message.
pub fn recap_reply_text(reply: ChatMessage, rollup: bool) -> (r: Result<String, ReCapError>)
    ensures
        reply.role != ChatRole::Assistant ==> r == Err::<String, ReCapError>(
            ReCapError::NotAssistant { rollup },
        ),
        reply.role == ChatRole::Assistant ==> match reply.content {
            ChatContent::Text(t) => r == Ok::<String, ReCapError>(t),
            ChatContent::ToolCalls(_) => r == Err::<String, ReCapError>(ReCapError::ToolCalls { rollup }),
            ChatContent::ToolResult { .. } => r == Err::<String, ReCapError>(
                ReCapError::ToolResult { rollup },
            ),
        },
{
    if reply.role != ChatRole::Assistant {
        return Err(ReCapError::NotAssistant { rollup });
    }
    match reply.content {
        ChatContent::Text(t) => Ok(t),
        ChatContent::ToolCalls(_) => Err(ReCapError::ToolCalls { rollup }),
        ChatContent::ToolResult { .. } => Err(ReCapError::ToolResult { rollup }),
    }
}

/// The message that shows a recap to the model.
pub fn node_message(n: &ReCapNode) -> (r: ChatMessage)
    ensures
        r@ == text_message(ChatRole::System, node_text(n@)),
{
    let name = match n.level {
        ReCapLevel::History => "History",
        ReCapLevel::Recap => "Recap",
    };
    let t = String::from_str("ReCAP (").concat(name).concat("):\n").concat(trimmed(n.text.as_str()).as_str());
    ChatMessage::system_text(t)
}

/// Append system messages with the given texts.
fn push_system_texts(out: &mut Vec<ChatMessage>, texts: &[String])
    ensures
        model_messages(final(out)@) == model_messages(old(out)@) + system_messages(
            texts@.map_values(|t: String| t@),
        ),
{
    let ghost start = model_messages(out@);
    let ghost ts = texts@.map_values(|t: String| t@);
    let mut i: usize = 0;
    while i < texts.len()
        invariant
            ts == texts@.map_values(|t: String| t@),
            i <= texts@.len(),
            model_messages(out@) == start + system_messages(ts.take(i as int)),
        decreases texts@.len() - i,
    {
        let ghost before = model_messages(out@);
        out.push(ChatMessage::system_text(texts[i].clone()));
        assert(model_messages(out@) =~= before.push(text_message(ChatRole::System, ts[i as int])));
        assert(system_messages(ts.take(i as int + 1)) =~= system_messages(ts.take(i as int)).push(
            text_message(ChatRole::System, ts[i as int]),
        ));
        i = i + 1;
    }
    assert(ts.take(texts@.len() as int) =~= ts);
}

/// Append the messages of `nodes[lo..hi]`.
fn push_node_messages(out: &mut Vec<ChatMessage>, nodes: &Vec<ReCapNode>, lo: usize, hi: usize)
    requires
        lo <= hi <= nodes@.len(),
    ensures
        model_messages(final(out)@) == model_messages(old(out)@) + node_messages(
            nodes@.map_values(|n: ReCapNode| n@).subrange(lo as int, hi as int),
        ),
{
    let ghost start = model_messages(out@);
    let ghost ns = nodes@.map_values(|n: ReCapNode| n@);
    let mut i: usize = lo;
    while i < hi
        invariant
            ns == nodes@.map_values(|n: ReCapNode| n@),
            lo <= i <= hi <= nodes@.len(),
            model_messages(out@) == start + node_messages(ns.subrange(lo as int, i as int)),
        decreases hi - i,
    {
        let ghost before = model_messages(out@);
        out.push(node_message(&nodes[i]));
        assert(model_messages(out@) =~= before.push(
            text_message(ChatRole::System, node_text(ns[i as int])),
        ));
        assert(node_messages(ns.subrange(lo as int, i as int + 1)) =~= node_messages(
            ns.subrange(lo as int, i as int),
        ).push(text_message(ChatRole::System, node_text(ns[i as int]))));
        i = i + 1;
    }
}

/// Append copies of `msgs`.
fn push_copies(out: &mut Vec<ChatMessage>, msgs: &[ChatMessage])
    ensures
        model_messages(final(out)@) == model_messages(old(out)@) + model_messages(msgs@),
{
    let ghost start = model_messages(out@);
    let mut i: usize = 0;
    while i < msgs.len()
        invariant
            i <= msgs@.len(),
            model_messages(out@) == start + model_messages(msgs@.take(i as int)),
        decreases msgs@.len() - i,
    {
        let ghost before = model_messages(out@);
        out.push(msgs[i].duplicate());
        assert(model_messages(out@) =~= before.push(msgs@[i as int]@));
        assert(model_messages(msgs@.take(i as int + 1)) =~= model_messages(msgs@.take(i as int)).push(
            msgs@[i as int]@,
        ));
        i = i + 1;
    }
    assert(msgs@.take(msgs@.len() as int) =~= msgs@);
}

impl ReCapAgent {
    /// An agent with no recaps; `debug` turns on progress notes.
    pub fn new(debug: bool) -> (r: Self)
        ensures
            r@ == Seq::<NodeModel>::empty(),
            r.debug_enabled() == debug,
    {
        let r = ReCapAgent { nodes: Vec::new(), debug };
        assert(r@ =~= Seq::<NodeModel>::empty());
        r
    }

    /// Whether progress notes are on.
    pub closed spec fn debug_enabled(&self) -> bool {
        self.debug
    }

    /// Whether progress notes are on.
    pub fn debug(&self) -> (r: bool)
        ensures
            r == self.debug_enabled(),
    {
        self.debug
    }

    /// The number of recaps held.
    pub fn node_count(&self) -> (r: usize)
        ensures
            r == self@.len(),
    {
        self.nodes.len()
    }

    /// Record a recap made from the raw history.
    pub fn record_recap(&mut self, text: String)
        ensures
            final(self)@ == recorded(old(self)@, text@),
            final(self).debug_enabled() == old(self).debug_enabled(),
    {
        let ghost before = self@;
        self.nodes.push(ReCapNode { level: ReCapLevel::History, text });
        assert(self@ =~= recorded(before, text@));
    }

    /// Whether there are more recaps than are kept.
    pub fn needs_rollup(&self) -> (r: bool)
        ensures
            r == (self@.len() > 8),
    {
        self.nodes.len() > MAX_RECAP_NODES
    }

    /// Replace the older half of the recaps with the roll-up `text`.
    pub fn apply_rollup(&mut self, text: String)
        ensures
            final(self)@ == rolled_up(old(self)@, text@),
            final(self).debug_enabled() == old(self).debug_enabled(),
    {
        let ghost before = self@;
        let n = self.nodes.len();
        let split_at = n / 2;
        let mut out: Vec<ReCapNode> = Vec::new();
        out.push(ReCapNode { level: ReCapLevel::Recap, text });
        let mut i: usize = split_at;
        while i < n
            invariant
                n == self.nodes@.len(),
                before == self@,
                split_at == n / 2,
                split_at <= i <= n,
                out@.len() == 1 + i - split_at,
                out@[0]@ == (NodeModel { level: ReCapLevel::Recap, text: text@ }),
                forall|j: int| split_at <= j < i ==> #[trigger] out@[1 + j - split_at]@ == before[j],
            decreases n - i,
        {
            let node = &self.nodes[i];
            out.push(ReCapNode { level: node.level, text: node.text.clone() });
            i = i + 1;
        }
        self.nodes = out;
        assert forall|k: int| 0 <= k < self@.len() implies #[trigger] self@[k] == rolled_up(before, text@)[k] by {
            if k > 0 {
                assert(self@[k] == self.nodes@[k]@);
                assert(self.nodes@[1 + (k - 1 + split_at) - split_at]@ == before[k - 1 + split_at]);
            }
        }
        assert(self@ =~= rolled_up(before, text@));
    }

    /// The request for a new recap (see [`recap_request_of`]).
    pub fn recap_request(&self, segments: &[String], history: &[ChatMessage]) -> (r: Vec<ChatMessage>)
        ensures
            model_messages(r@) == recap_request_of(
                segments@.map_values(|t: String| t@),
                self@,
                model_messages(history@),
            ),
    {
        let mut out: Vec<ChatMessage> = Vec::new();
        assert(model_messages(out@) =~= Seq::<MessageModel>::empty());
        push_system_texts(&mut out, segments);
        let n = self.nodes.len();
        let ghost ts = segments@.map_values(|t: String| t@);
        let ghost mid = model_messages(out@);
        let ghost cond = if self@.len() > 0 {
            seq![text_message(ChatRole::System, "Existing ReCAP memory (most recent last):"@)] + node_messages(self@)
        } else {
            Seq::empty()
        };
        if n > 0 {
            out.push(ChatMessage::system_text(String::from_str("Existing ReCAP memory (most recent last):")));
            let ghost mid1 = model_messages(out@);
            assert(mid1 =~= mid.push(text_message(ChatRole::System, "Existing ReCAP memory (most recent last):"@)));
            push_node_messages(&mut out, &self.nodes, 0, n);
            assert(self.nodes@.map_values(|x: ReCapNode| x@).subrange(0, n as int) =~= self@);
            assert(model_messages(out@) =~= mid + cond);
        } else {
            assert(cond =~= Seq::<MessageModel>::empty());
            assert(model_messages(out@) =~= mid + cond);
        }
        let ghost mid2 = model_messages(out@);
        out.push(ChatMessage::system_text(String::from_str(
            "You are producing a ReCAP memory update.\nReturn ONLY plain text with the following sections:\n- Goals\n- Current plan / next actions\n- Key facts (including tool outputs worth keeping)\n- Decisions made / rationale (high level)\n- Open questions / uncertainties\n- Constraints / preferences\nDo NOT include secrets. Do NOT include tool call JSON.",
        )));
        out.push(ChatMessage::system_text(String::from_str("Raw interaction history follows:")));
        let ghost mid3 = model_messages(out@);
        assert(mid3 =~= mid2 + seq![
            text_message(ChatRole::System, recap_instruction()),
            text_message(ChatRole::System, "Raw interaction history follows:"@),
        ]);
        push_copies(&mut out, history);
        assert(model_messages(out@) =~= recap_request_of(
            segments@.map_values(|t: String| t@),
            self@,
            model_messages(history@),
        ));
        out
    }

    /// The request for a roll-up (see [`rollup_request_of`]).
    pub fn rollup_request(&self, segments: &[String]) -> (r: Vec<ChatMessage>)
        ensures
            model_messages(r@) == rollup_request_of(segments@.map_values(|t: String| t@), self@),
    {
        let mut out: Vec<ChatMessage> = Vec::new();
        assert(model_messages(out@) =~= Seq::<MessageModel>::empty());
        push_system_texts(&mut out, segments);
        out.push(ChatMessage::system_text(String::from_str(
            "You are rolling up multiple ReCAP summaries into a higher-level ReCAP.\nReturn ONLY plain text with the same sections as before, but preserve long-term goals, constraints, and decisions.",
        )));
        let n = self.nodes.len();
        push_node_messages(&mut out, &self.nodes, 0, n / 2);
        assert(self.nodes@.map_values(|x: ReCapNode| x@).subrange(0, (n / 2) as int) =~= self@.take(
            (self@.len() / 2) as int,
        ));
        assert(model_messages(out@) =~= rollup_request_of(segments@.map_values(|t: String| t@), self@));
        out
    }

    /// The messages of the acting step (see [`act_request_of`]).
    pub fn act_request(&self, segments: &[String], history: &[ChatMessage]) -> (r: Vec<ChatMessage>)
        ensures
            model_messages(r@) == act_request_of(
                segments@.map_values(|t: String| t@),
                self@,
                model_messages(history@),
            ),
    {
        let mut out: Vec<ChatMessage> = Vec::new();
        assert(model_messages(out@) =~= Seq::<MessageModel>::empty());
        push_system_texts(&mut out, segments);
        let n = self.nodes.len();
        push_node_messages(&mut out, &self.nodes, 0, n);
        assert(self.nodes@.map_values(|x: ReCapNode| x@).subrange(0, n as int) =~= self@);
        push_copies(&mut out, history);
        assert(model_messages(out@) =~= act_request_of(
            segments@.map_values(|t: String| t@),
            self@,
            model_messages(history@),
        ));
        out
    }
}

} // verus!
