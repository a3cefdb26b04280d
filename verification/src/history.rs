//! In-memory conversation history with a sliding window that never splits a
//! tool call from its results and never starts with a tool message.

use vstd::prelude::*;
use crate::compression::{adjusted_keep_from, first_non_tool_from, split_point, CompressionConfig, CompressionStrategy};
use crate::data_store::DirNode;
use crate::paths::{join_path, path_join};
use crate::tokens::total_tokens;
use crate::llm::{duplicate_messages, model_messages, ChatMessage, ChatRole, MessageModel};

verus! {

/// In-memory history implementation (no persistence).
#[derive(Debug)]
pub struct InMemoryHistory {
    pub messages: Vec<ChatMessage>,
    pub max_size: usize,
}

/// The messages kept after `s` has grown past `max_size`: the oldest are
/// dropped (the cut moved back so as not to separate a tool call from its
/// results), then any leading tool messages.
pub open spec fn window(s: Seq<MessageModel>, max_size: nat) -> Seq<MessageModel> {
    if s.len() > max_size {
        let d = s.skip(adjusted_keep_from(s, s.len() - max_size));
        d.skip(first_non_tool_from(d, 0))
    } else {
        s
    }
}

/// The last `n` messages (all of them when there are fewer).
pub open spec fn recent(s: Seq<MessageModel>, n: nat) -> Seq<MessageModel> {
    if n >= s.len() {
        s
    } else {
        s.skip(s.len() - n)
    }
}

/// Appending below the limit keeps every message: the history becomes the
/// old one followed by the new message.
pub proof fn law_append_below_limit_keeps_all(s: Seq<MessageModel>, m: MessageModel, max_size: nat)
    requires
        s.len() + 1 <= max_size,
    ensures
        window(s.push(m), max_size) == s.push(m),
{
}

/// The window only ever drops messages from the front: what remains is a
/// suffix of the history, so the newest messages survive in order.
pub proof fn law_window_is_suffix(s: Seq<MessageModel>, max_size: nat)
    ensures
        window(s, max_size).len() <= s.len(),
        window(s, max_size) == s.skip(s.len() - window(s, max_size).len()),
{
    if s.len() > max_size {
        crate::compression::lemma_adjusted_keep_from_bound(s, s.len() - max_size);
        let kf = adjusted_keep_from(s, s.len() - max_size);
        let d = s.skip(kf);
        crate::compression::lemma_first_non_tool_bound(d, 0, d.len() as int);
        let f = first_non_tool_from(d, 0);
        assert(d.skip(f) =~= s.skip(kf + f));
        assert(s.skip(kf + f) =~= s.skip(s.len() - window(s, max_size).len()));
    } else {
        assert(s.skip(0) =~= s);
    }
}

/// After the window has cut the history, it never starts with a tool message.
pub proof fn law_window_never_starts_with_tool(s: Seq<MessageModel>, max_size: nat)
    requires
        s.len() > max_size,
        window(s, max_size).len() > 0,
    ensures
        window(s, max_size)[0].role != ChatRole::Tool,
{
    crate::compression::lemma_adjusted_keep_from_bound(s, s.len() - max_size);
    let kf = adjusted_keep_from(s, s.len() - max_size);
    let d = s.skip(kf);
    crate::compression::lemma_first_non_tool_bound(d, 0, d.len() as int);
}

/// With room for at least one message, a newly appended message that is not
/// a tool result is always the last message afterwards.
pub proof fn law_appended_message_is_last(s: Seq<MessageModel>, m: MessageModel, max_size: nat)
    requires
        max_size >= 1,
        m.role != ChatRole::Tool,
    ensures
        window(s.push(m), max_size).len() > 0,
        window(s.push(m), max_size).last() == m,
{
    let t = s.push(m);
    if t.len() > max_size {
        crate::compression::lemma_adjusted_keep_from_bound(t, t.len() - max_size);
        let kf = adjusted_keep_from(t, t.len() - max_size);
        let d = t.skip(kf);
        assert(d.last() == m);
        crate::compression::lemma_first_non_tool_bound(d, 0, d.len() - 1);
        let f = first_non_tool_from(d, 0);
        assert(d.skip(f).last() == d.last());
    }
}

/// The last `n` messages are `min(n, len)` messages ending with the last one.
pub proof fn law_recent_length(s: Seq<MessageModel>, n: nat)
    ensures
        recent(s, n).len() == if n >= s.len() { s.len() } else { n },
        recent(s, n) == s.skip(s.len() - recent(s, n).len()),
{
    if n >= s.len() {
        assert(s.skip(0) =~= s);
    }
}

impl View for InMemoryHistory {
    type V = Seq<MessageModel>;

    open spec fn view(&self) -> Seq<MessageModel> {
        model_messages(self.messages@)
    }
}

impl InMemoryHistory {
    /// An empty history holding at most 1000 messages (see `append`).
    pub fn new() -> (r: Self)
        ensures
            r@ == Seq::<MessageModel>::empty(),
            r.max_size == 1000,
    {
        Self::new_with_limit(1000)
    }

    /// An empty history with a custom limit; when it is exceeded the oldest
    /// messages are removed (sliding window).
    pub fn new_with_limit(max_size: usize) -> (r: Self)
        ensures
            r@ == Seq::<MessageModel>::empty(),
            r.max_size == max_size,
    {
        let r = InMemoryHistory { messages: Vec::new(), max_size };
        assert(r@ =~= Seq::<MessageModel>::empty());
        r
    }

    /// The number of messages.
    pub fn len(&self) -> (r: usize)
        ensures
            r == self@.len(),
    {
        self.messages.len()
    }

    /// Whether the history is empty.
    pub fn is_empty(&self) -> (r: bool)
        ensures
            r == (self@.len() == 0),
    {
        self.messages.len() == 0
    }

    /// A copy of all messages.
    pub fn get_all(&self) -> (r: Vec<ChatMessage>)
        ensures
            model_messages(r@) == self@,
    {
        duplicate_messages(&self.messages)
    }

    /// A copy of the last message, if any.
    pub fn last(&self) -> (r: Option<ChatMessage>)
        ensures
            match r {
                Some(m) => self@.len() > 0 && m@ == self@.last(),
                None => self@.len() == 0,
            },
    {
        let n = self.messages.len();
        if n == 0 {
            None
        } else {
            Some(self.messages[n - 1].duplicate())
        }
    }

    /// Remove all messages.
    pub fn clear(&mut self)
        ensures
            final(self)@ == Seq::<MessageModel>::empty(),
            final(self).max_size == old(self).max_size,
    {
        self.messages = Vec::new();
        assert(self@ =~= Seq::<MessageModel>::empty());
    }

    /// A copy of the last `n` messages (all of them when there are fewer).
    pub fn get_recent(&self, n: usize) -> (r: Vec<ChatMessage>)
        ensures
            model_messages(r@) == recent(self@, n as nat),
    {
        let len = self.messages.len();
        let start = if n >= len {
            0
        } else {
            len - n
        };
        let mut out: Vec<ChatMessage> = Vec::new();
        let mut i = start;
        while i < len
            invariant
                len == self.messages@.len(),
                start <= i <= len,
                out@.len() == i - start,
                forall|j: int| 0 <= j < out@.len() ==> #[trigger] out@[j]@ == self.messages@[start + j]@,
            decreases len - i,
        {
            out.push(self.messages[i].duplicate());
            i = i + 1;
        }
        assert(model_messages(out@) =~= recent(self@, n as nat));
        out
    }

    /// Move `keep_from` back, when it points at a tool message, onto the
    /// nearest earlier assistant tool-calls message (if there is one).
    pub fn adjust_keep_from_for_tool_calls(messages: &[ChatMessage], keep_from: usize) -> (r: usize)
        ensures
            r == adjusted_keep_from(model_messages(messages@), keep_from as int),
    {
        let strategy = CompressionStrategy::new(crate::compression::CompressionConfig::default());
        strategy.adjust_keep_from_for_tool_calls(messages, keep_from)
    }

    /// Append a message. When the history then holds more than `max_size`
    /// messages, the oldest are removed, without separating a tool call
    /// from its results, and then any leading tool messages.
    pub fn append(&mut self, message: ChatMessage)
        ensures
            final(self)@ == window(old(self)@.push(message@), old(self).max_size as nat),
            final(self).max_size == old(self).max_size,
    {
        let ghost s = old(self)@.push(message@);
        self.messages.push(message);
        assert(self@ =~= s);
        let len = self.messages.len();
        if len > self.max_size {
            let keep_from = Self::adjust_keep_from_for_tool_calls(self.messages.as_slice(), len - self.max_size);
            let ghost kf = keep_from as int;
            proof {
                crate::compression::lemma_adjusted_keep_from_bound(s, len - self.max_size);
            }
            let mut rest: Vec<ChatMessage> = Vec::new();
            let mut i = keep_from;
            while i < len
                invariant
                    len == self.messages@.len(),
                    self@ == s,
                    keep_from <= i <= len,
                    rest@.len() == i - keep_from,
                    forall|j: int| 0 <= j < rest@.len() ==> #[trigger] rest@[j]@ == s[keep_from + j],
                decreases len - i,
            {
                rest.push(self.messages[i].duplicate());
                i = i + 1;
            }
            assert(model_messages(rest@) =~= s.skip(kf));
            CompressionStrategy::clean_leading_tool_messages(&mut rest);
            self.messages = rest;
        }
    }
}

/// The messages a persistent history keeps after `s` has grown past
/// `max_size`: the oldest are dropped, then any leading tool messages.
pub open spec fn persistent_window(s: Seq<MessageModel>, max_size: nat) -> Seq<MessageModel> {
    if s.len() > max_size {
        let d = s.skip(s.len() - max_size);
        d.skip(first_non_tool_from(d, 0))
    } else {
        s
    }
}

/// How many of the oldest messages a persistent history compresses: none
/// unless compression is due, else up to the split point.
pub open spec fn compression_cut_of(cfg: CompressionConfig, s: Seq<MessageModel>) -> int {
    if cfg.enabled && total_tokens(s) > cfg.compress_threshold_tokens {
        split_point(cfg, s).0
    } else {
        0
    }
}

/// A history kept as `history.yaml` in a data-store directory, compressed
/// when it grows past a token threshold. Reading and writing the file, and
/// asking the model for summaries, happen outside; the decisions are here.
#[derive(Debug)]
pub struct PersistentHistory {
    pub max_size: usize,
    pub strategy: CompressionStrategy,
    pub dir: DirNode,
}

impl PersistentHistory {
    /// A history in `dir`: at most 1000 messages; compression starts above
    /// 8000 tokens, compresses about 4000 and keeps the newest 2000.
    pub fn new(dir: DirNode) -> (r: Self)
        ensures
            r.max_size == 1000,
            r.strategy.config.compress_threshold_tokens == 8000,
            r.strategy.config.compress_target_tokens == 4000,
            r.strategy.config.keep_recent_tokens == 2000,
            r.strategy.config.enabled,
            r.dir == dir,
    {
        let config = CompressionConfig {
            compress_threshold_tokens: 8000,
            compress_target_tokens: 4000,
            keep_recent_tokens: 2000,
            enabled: true,
        };
        PersistentHistory { max_size: 1000, strategy: CompressionStrategy::new(config), dir }
    }

    /// The history file.
    pub fn history_path(&self) -> (r: String)
        ensures
            r@ == path_join(path_join(self.dir.root_path(), self.dir.base_path()), "history.yaml"@),
    {
        join_path(self.dir.full_path().as_str(), "history.yaml")
    }

    /// The directory of archived messages.
    pub fn archive_dir(&self) -> (r: String)
        ensures
            r@ == path_join(path_join(self.dir.root_path(), self.dir.base_path()), "history"@),
    {
        join_path(self.dir.full_path().as_str(), "history")
    }

    /// How many of the oldest messages to compress (see [`compression_cut_of`]).
    pub fn compression_cut(&self, messages: &[ChatMessage]) -> (r: usize)
        ensures
            r == compression_cut_of(self.strategy.config, model_messages(messages@)),
            r <= messages@.len(),
    {
        if !self.strategy.should_compress(messages) {
            return 0;
        }
        let (compress_until, _keep_from) = self.strategy.find_split_point(messages);
        compress_until
    }

    /// Remove the `n` oldest messages and hand them back.
    pub fn take_oldest(messages: &mut Vec<ChatMessage>, n: usize) -> (r: Vec<ChatMessage>)
        requires
            n <= old(messages)@.len(),
        ensures
            model_messages(r@) == model_messages(old(messages)@).take(n as int),
            model_messages(final(messages)@) == model_messages(old(messages)@).skip(n as int),
    {
        let ghost s = model_messages(messages@);
        let len = messages.len();
        let mut head: Vec<ChatMessage> = Vec::new();
        let mut tail: Vec<ChatMessage> = Vec::new();
        let mut i: usize = 0;
        while i < len
            invariant
                len == messages@.len(),
                s == model_messages(messages@),
                n <= len,
                i <= len,
                head@.len() == if i < n { i as int } else { n as int },
                tail@.len() == if i < n { 0 } else { i - n },
                forall|j: int| 0 <= j < head@.len() ==> #[trigger] head@[j]@ == s[j],
                forall|j: int| 0 <= j < tail@.len() ==> #[trigger] tail@[j]@ == s[n + j],
            decreases len - i,
        {
            if i < n {
                head.push(messages[i].duplicate());
            } else {
                tail.push(messages[i].duplicate());
            }
            i = i + 1;
        }
        *messages = tail;
        assert(model_messages(head@) =~= s.take(n as int));
        assert(model_messages(messages@) =~= s.skip(n as int));
        head
    }

    /// Put the summary of the compressed messages first.
    pub fn insert_summary(messages: &mut Vec<ChatMessage>, summary: ChatMessage)
        ensures
            model_messages(final(messages)@) == seq![summary@] + model_messages(old(messages)@),
    {
        let ghost before = model_messages(messages@);
        messages.insert(0, summary);
        assert(model_messages(messages@) =~= seq![summary@] + before);
    }

    /// Cut the history to its window (see [`persistent_window`]).
    pub fn apply_window(&self, messages: &mut Vec<ChatMessage>)
        ensures
            model_messages(final(messages)@) == persistent_window(model_messages(old(messages)@), self.max_size as nat),
    {
        let len = messages.len();
        if len > self.max_size {
            let ghost s = model_messages(messages@);
            let _dropped = Self::take_oldest(messages, len - self.max_size);
            CompressionStrategy::clean_leading_tool_messages(messages);
        }
    }

    /// The last `n` messages (all when there are fewer).
    pub fn recent_of(messages: &[ChatMessage], n: usize) -> (r: Vec<ChatMessage>)
        ensures
            model_messages(r@) == recent(model_messages(messages@), n as nat),
    {
        let ghost s = model_messages(messages@);
        let len = messages.len();
        let start = if n >= len { 0 } else { len - n };
        let mut out: Vec<ChatMessage> = Vec::new();
        let mut i = start;
        while i < len
            invariant
                len == messages@.len(),
                s == model_messages(messages@),
                start <= i <= len,
                out@.len() == i - start,
                forall|j: int| 0 <= j < out@.len() ==> #[trigger] out@[j]@ == s[start + j],
            decreases len - i,
        {
            out.push(messages[i].duplicate());
            i = i + 1;
        }
        assert(model_messages(out@) =~= recent(s, n as nat));
        out
    }
}

/// Below its limit a persistent history keeps everything; past it, what is
/// kept is a suffix of at most `max_size` messages that does not start with
/// a tool message.
pub proof fn law_persistent_window(s: Seq<MessageModel>, max_size: nat)
    ensures
        s.len() <= max_size ==> persistent_window(s, max_size) == s,
        persistent_window(s, max_size).len() <= max_size || s.len() <= max_size,
        persistent_window(s, max_size) == s.skip(s.len() - persistent_window(s, max_size).len()),
        s.len() > max_size && persistent_window(s, max_size).len() > 0 ==> persistent_window(s, max_size)[0].role
            != ChatRole::Tool,
{
    if s.len() > max_size {
        let d = s.skip(s.len() - max_size);
        crate::compression::lemma_first_non_tool_bound(d, 0, d.len() as int);
        let f = first_non_tool_from(d, 0);
        assert(d.skip(f) =~= s.skip(s.len() - max_size + f));
    } else {
        assert(s.skip(0) =~= s);
    }
}

} // verus!
