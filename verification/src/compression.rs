//! Planning of history compression: when to compress, and where to cut the
//! history so that a tool call is never separated from its results.

use vstd::prelude::*;
use crate::json::{json_to_string, serde_json_text};
use crate::llm::{is_tool_calls_message, model_messages, text_message, ChatContent, ChatMessage, ChatRole, ContentModel, MessageModel};
use crate::text::{decimal, decimal_string, trim, trimmed, truncate_bytes, truncate_str};

use crate::tokens::{estimate_message_tokens, lemma_prefix_tokens_monotone, message_tokens, prefix_tokens, suffix_tokens, total_tokens};

verus! {

/// Configuration for history compression.
#[derive(Debug)]
pub struct CompressionConfig {
    /// Trigger compression when total tokens exceed this threshold (default: 16000).
    pub compress_threshold_tokens: usize,
    /// Target tokens to compress in each operation (default: 8000).
    pub compress_target_tokens: usize,
    /// Keep recent messages (in tokens) uncompressed (default: 4000).
    pub keep_recent_tokens: usize,
    /// Enable compression (default: true).
    pub enabled: bool,
}

impl Default for CompressionConfig {
    fn default() -> (r: Self)
        ensures
            r.compress_threshold_tokens == 16000,
            r.compress_target_tokens == 8000,
            r.keep_recent_tokens == 4000,
            r.enabled,
    {
        CompressionConfig {
            compress_threshold_tokens: 16000,
            compress_target_tokens: 8000,
            keep_recent_tokens: 4000,
            enabled: true,
        }
    }
}

/// Strategy for compressing conversation history.
#[derive(Debug)]
pub struct CompressionStrategy {
    pub config: CompressionConfig,
}

/// The least `k` in `[from, len]` with `prefix_tokens(ms, k) >= target`, or 0.
pub open spec fn first_prefix_reaching(ms: Seq<MessageModel>, target: nat, from: int) -> int
    decreases ms.len() + 1 - from,
{
    if from > ms.len() || from < 1 {
        0
    } else if prefix_tokens(ms, from) >= target {
        from
    } else {
        first_prefix_reaching(ms, target, from + 1)
    }
}

/// The greatest `i` in `[0, upto]` with `suffix_tokens(ms, i) >= target`, or
/// `ms.len()` when there is none.
pub open spec fn last_suffix_reaching(ms: Seq<MessageModel>, target: nat, upto: int) -> int
    decreases upto + 1,
{
    if upto < 0 {
        ms.len() as int
    } else if suffix_tokens(ms, upto) >= target {
        upto
    } else {
        last_suffix_reaching(ms, target, upto - 1)
    }
}

/// The greatest index below `i` that holds an assistant tool-calls message.
pub open spec fn last_tool_calls_before(ms: Seq<MessageModel>, i: int) -> Option<int>
    decreases i,
{
    if i <= 0 {
        None
    } else if is_tool_calls_message(ms[i - 1]) {
        Some(i - 1)
    } else {
        last_tool_calls_before(ms, i - 1)
    }
}

/// The least index at or after `i` that does not hold a tool message, or `ms.len()`.
pub open spec fn first_non_tool_from(ms: Seq<MessageModel>, i: int) -> int
    decreases ms.len() - i,
{
    if i >= ms.len() {
        ms.len() as int
    } else if ms[i].role != ChatRole::Tool {
        i
    } else {
        first_non_tool_from(ms, i + 1)
    }
}

/// `keep_from` moved back onto the tool-calls message whose results it would cut.
pub open spec fn adjusted_keep_from(ms: Seq<MessageModel>, keep_from: int) -> int {
    if keep_from == 0 || keep_from >= ms.len() {
        keep_from
    } else if ms[keep_from].role == ChatRole::Tool {
        match last_tool_calls_before(ms, keep_from) {
            Some(j) => j,
            None => keep_from,
        }
    } else {
        keep_from
    }
}

/// `compress_until` moved forward past the results of the tool calls right before it.
pub open spec fn adjusted_compress_until(ms: Seq<MessageModel>, cu: int) -> int {
    if cu == 0 || cu >= ms.len() {
        cu
    } else if is_tool_calls_message(ms[cu - 1]) {
        first_non_tool_from(ms, cu)
    } else {
        cu
    }
}

/// Where compression cuts the history: `(compress_until, keep_from)`.
///
/// Messages are compressed until their estimated tokens reach the target,
/// but never all of them (when the target is not reached before the end,
/// all but the last five are, and at least one); the recent messages whose
/// tokens reach `keep_recent_tokens` are kept; neither cut separates a tool
/// call from its results, and the compressed part ends before the kept part.
pub open spec fn split_point(cfg: CompressionConfig, ms: Seq<MessageModel>) -> (int, int) {
    let len = ms.len() as int;
    let cu0 = first_prefix_reaching(ms, cfg.compress_target_tokens as nat, 1);
    let cu1 = if cu0 >= len {
        if len - 5 > 1 {
            len - 5
        } else {
            1
        }
    } else {
        cu0
    };
    let kf = adjusted_keep_from(ms, last_suffix_reaching(ms, cfg.keep_recent_tokens as nat, len - 1));
    let cu2 = if cu1 > kf {
        kf
    } else {
        cu1
    };
    (adjusted_compress_until(ms, cu2), kf)
}

proof fn lemma_first_prefix_is(ms: Seq<MessageModel>, target: nat, from: int, k: int)
    requires
        1 <= from <= k <= ms.len(),
        prefix_tokens(ms, k) >= target,
        forall|j: int| 1 <= j < k ==> prefix_tokens(ms, j) < target,
    ensures
        first_prefix_reaching(ms, target, from) == k,
    decreases k - from,
{
    if from < k {
        lemma_first_prefix_is(ms, target, from + 1, k);
    }
}

/// The compressed part reaches the compression target and no further: when
/// the first `k` messages are the shortest prefix whose estimated tokens
/// reach `compress_target_tokens`, and neither the kept part (which starts
/// at or after `k`) nor a tool call ending the prefix moves the cut, the
/// first `k` messages are compressed, whatever `keep_recent_tokens` is.
pub proof fn law_compression_reaches_target(cfg: CompressionConfig, ms: Seq<MessageModel>, k: int)
    requires
        1 <= k < ms.len(),
        prefix_tokens(ms, k) >= cfg.compress_target_tokens,
        forall|j: int| 1 <= j < k ==> prefix_tokens(ms, j) < cfg.compress_target_tokens,
        !is_tool_calls_message(ms[k - 1]),
    ensures
        split_point(cfg, ms).1 >= k ==> split_point(cfg, ms).0 == k,
{
    lemma_first_prefix_is(ms, cfg.compress_target_tokens as nat, 1, k);
}

proof fn lemma_last_suffix_is(ms: Seq<MessageModel>, target: nat, upto: int, i: int)
    requires
        0 <= i <= upto < ms.len(),
        suffix_tokens(ms, i) >= target,
        forall|j: int| i < j < ms.len() ==> suffix_tokens(ms, j) < target,
    ensures
        last_suffix_reaching(ms, target, upto) == i,
    decreases upto - i,
{
    if upto > i {
        lemma_last_suffix_is(ms, target, upto - 1, i);
    }
}

/// The kept part is the shortest tail reaching the recent budget: when the
/// messages from `i` on are the shortest tail whose estimated tokens reach
/// `keep_recent_tokens` and message `i` is not a tool result, the kept part
/// starts at `i`, whatever `compress_target_tokens` is.
pub proof fn law_kept_part_reaches_recent_budget(cfg: CompressionConfig, ms: Seq<MessageModel>, i: int)
    requires
        0 <= i < ms.len(),
        suffix_tokens(ms, i) >= cfg.keep_recent_tokens,
        forall|j: int| i < j < ms.len() ==> suffix_tokens(ms, j) < cfg.keep_recent_tokens,
        ms[i].role != ChatRole::Tool,
    ensures
        split_point(cfg, ms).1 == i,
{
    lemma_last_suffix_is(ms, cfg.keep_recent_tokens as nat, ms.len() - 1, i);
}

pub proof fn lemma_last_suffix_bound(ms: Seq<MessageModel>, target: nat, upto: int)
    requires
        upto < ms.len(),
    ensures
        0 <= last_suffix_reaching(ms, target, upto) <= ms.len(),
        last_suffix_reaching(ms, target, upto) <= upto || last_suffix_reaching(ms, target, upto) == ms.len(),
    decreases upto + 1,
{
    if upto >= 0 && suffix_tokens(ms, upto) < target {
        lemma_last_suffix_bound(ms, target, upto - 1);
    }
}

pub proof fn lemma_adjusted_keep_from_bound(ms: Seq<MessageModel>, keep_from: int)
    requires
        0 <= keep_from <= ms.len(),
    ensures
        0 <= adjusted_keep_from(ms, keep_from) <= keep_from,
{
    lemma_last_tool_calls(ms, keep_from);
}

pub proof fn lemma_suffix_step(ms: Seq<MessageModel>, i: int)
    requires
        0 <= i < ms.len(),
    ensures
        suffix_tokens(ms, i) == message_tokens(ms[i]) + suffix_tokens(ms, i + 1),
{
}

pub proof fn lemma_first_non_tool(ms: Seq<MessageModel>, i: int, j: int)
    requires
        0 <= i <= j <= ms.len(),
        forall|k: int| i <= k < j ==> #[trigger] ms[k].role == ChatRole::Tool,
    ensures
        first_non_tool_from(ms, i) == first_non_tool_from(ms, j),
    decreases j - i,
{
    if i < j {
        lemma_first_non_tool(ms, i + 1, j);
    }
}

pub proof fn lemma_first_non_tool_bound(ms: Seq<MessageModel>, i: int, k: int)
    requires
        0 <= i <= k,
        k == ms.len() || (k < ms.len() && ms[k].role != ChatRole::Tool),
    ensures
        i <= first_non_tool_from(ms, i) <= k,
        first_non_tool_from(ms, i) == ms.len() || ms[first_non_tool_from(ms, i)].role != ChatRole::Tool,
    decreases ms.len() - i,
{
    if i < ms.len() && ms[i].role == ChatRole::Tool {
        lemma_first_non_tool_bound(ms, i + 1, k);
    }
}

pub proof fn lemma_last_tool_calls(ms: Seq<MessageModel>, i: int)
    requires
        0 <= i <= ms.len(),
    ensures
        match last_tool_calls_before(ms, i) {
            Some(j) => 0 <= j < i && is_tool_calls_message(ms[j]) && forall|k: int|
                j < k < i ==> !is_tool_calls_message(#[trigger] ms[k]),
            None => forall|k: int| 0 <= k < i ==> !is_tool_calls_message(#[trigger] ms[k]),
        },
    decreases i,
{
    if i > 0 && !is_tool_calls_message(ms[i - 1]) {
        lemma_last_tool_calls(ms, i - 1);
    }
}

/// The least `k >= 1` whose first `k` messages reach `target` tokens, or 0.
fn compress_candidate(messages: &[ChatMessage], target: usize) -> (r: usize)
    ensures
        r as int == first_prefix_reaching(model_messages(messages@), target as nat, 1),
{
    let ghost ms = model_messages(messages@);
    let len = messages.len();
    let mut accumulated: usize = 0;
    let mut i: usize = 0;
    while i < len
        invariant
            ms == model_messages(messages@),
            len == messages@.len(),
            i <= len,
            accumulated == prefix_tokens(ms, i as int),
            i > 0 ==> accumulated < target,
            first_prefix_reaching(ms, target as nat, 1) == first_prefix_reaching(
                ms,
                target as nat,
                i + 1,
            ),
        decreases len - i,
    {
        let t = estimate_message_tokens(&messages[i]);
        proof {
            assert(ms[i as int] == messages@[i as int]@);
            assert(prefix_tokens(ms, i + 1) == accumulated + t);
        }
        if t >= target - accumulated {
            return i + 1;
        }
        accumulated = accumulated + t;
        i = i + 1;
    }
    0
}

/// The greatest index whose suffix reaches `keep` tokens, or the length.
fn keep_candidate(messages: &[ChatMessage], keep: usize) -> (r: usize)
    ensures
        r as int == last_suffix_reaching(model_messages(messages@), keep as nat, messages@.len() - 1),
{
    let ghost ms = model_messages(messages@);
    let len = messages.len();
    let mut recent: usize = 0;
    let mut j: usize = len;
    while j > 0
        invariant
            ms == model_messages(messages@),
            len == messages@.len(),
            j <= len,
            recent == suffix_tokens(ms, j as int),
            j < len ==> recent < keep,
            last_suffix_reaching(ms, keep as nat, len - 1) == last_suffix_reaching(
                ms,
                keep as nat,
                j - 1,
            ),
        decreases j,
    {
        j = j - 1;
        let t = estimate_message_tokens(&messages[j]);
        proof {
            assert(ms[j as int] == messages@[j as int]@);
            lemma_suffix_step(ms, j as int);
        }
        if t >= keep - recent {
            return j;
        }
        recent = recent + t;
    }
    len
}

impl CompressionStrategy {
    /// A strategy with the given configuration.
    pub fn new(config: CompressionConfig) -> (r: Self)
        ensures
            r.config == config,
    {
        CompressionStrategy { config }
    }

    /// Whether compression should be triggered: it is enabled and the
    /// messages' estimated tokens exceed the threshold.
    pub fn should_compress(&self, messages: &[ChatMessage]) -> (r: bool)
        ensures
            r == (self.config.enabled && total_tokens(model_messages(messages@))
                > self.config.compress_threshold_tokens),
    {
        if !self.config.enabled {
            return false;
        }
        let ghost ms = model_messages(messages@);
        let threshold = self.config.compress_threshold_tokens;
        let mut total: usize = 0;
        let mut i: usize = 0;
        while i < messages.len()
            invariant
                ms == model_messages(messages@),
                i <= messages@.len(),
                total == prefix_tokens(ms, i as int),
                total <= threshold,
                self.config.enabled,
                threshold == self.config.compress_threshold_tokens,
            decreases messages@.len() - i,
        {
            let t = estimate_message_tokens(&messages[i]);
            proof {
                assert(ms[i as int] == messages@[i as int]@);
            }
            if t > threshold - total {
                proof {
                    assert(ms.len() == messages@.len());
                    assert(prefix_tokens(ms, i + 1) == total + t);
                    lemma_prefix_tokens_monotone(ms, i + 1, ms.len() as int);
                    assert(total_tokens(ms) > threshold);
                }
                return true;
            }
            total = total + t;
            i = i + 1;
        }
        false
    }

    /// Find the split point for compression: `(compress_until, keep_from)`.
    pub fn find_split_point(&self, messages: &[ChatMessage]) -> (r: (usize, usize))
        ensures
            (r.0 as int, r.1 as int) == split_point(self.config, model_messages(messages@)),
            r.0 <= r.1 <= messages@.len(),
            // The compressed part never ends between a tool call and its results.
            0 < r.0 < messages@.len() && is_tool_calls_message(model_messages(messages@)[r.0 - 1])
                ==> model_messages(messages@)[r.0 as int].role != ChatRole::Tool,
            // The kept part starts on a tool message only when no tool call precedes it.
            0 < r.1 < messages@.len() && model_messages(messages@)[r.1 as int].role == ChatRole::Tool
                ==> forall|j: int| 0 <= j < r.1 ==> !is_tool_calls_message(#[trigger] model_messages(messages@)[j]),
    {
        let ghost ms = model_messages(messages@);
        let len = messages.len();
        let target = self.config.compress_target_tokens;
        let target = self.config.compress_target_tokens;
        let mut compress_until = compress_candidate(messages, target);
        // Never compress everything.
        if compress_until >= len {
            compress_until = if len > 6 {
                len - 5
            } else {
                1
            };
        }
        let keep_from = keep_candidate(messages, self.config.keep_recent_tokens);
        let kc = keep_from;
        let keep_from = self.adjust_keep_from_for_tool_calls(messages, keep_from);
        if compress_until > keep_from {
            compress_until = keep_from;
        }
        let cu2 = compress_until;
        let compress_until = self.adjust_compress_until_for_tool_calls(messages, compress_until);
        proof {
            let kf = keep_from as int;
            assert(ms.len() == len);
            lemma_last_suffix_bound(ms, self.config.keep_recent_tokens as nat, len - 1);
            if 0 < kc && kc < len {
                lemma_last_tool_calls(ms, kc as int);
            }
            lemma_last_tool_calls(ms, kf);
            if cu2 > 0 && cu2 < len && is_tool_calls_message(ms[cu2 - 1]) {
                if kf < len {
                    assert(ms[kf].role != ChatRole::Tool);
                }
                lemma_first_non_tool_bound(ms, cu2 as int, kf);
            }
            if 0 < cu2 < len && is_tool_calls_message(ms[cu2 - 1]) && compress_until < len {
                lemma_first_non_tool_bound(ms, cu2 as int, len as int);
            }
        }
        (compress_until, keep_from)
    }

    /// Move `compress_until` forward so that it does not separate an
    /// assistant tool-calls message from the tool messages after it.
    pub fn adjust_compress_until_for_tool_calls(&self, messages: &[ChatMessage], compress_until: usize) -> (r: usize)
        ensures
            r == adjusted_compress_until(model_messages(messages@), compress_until as int),
    {
        let ghost ms = model_messages(messages@);
        let len = messages.len();
        if compress_until == 0 || compress_until >= len {
            return compress_until;
        }
        let prev = &messages[compress_until - 1];
        proof {
            assert(ms[compress_until - 1] == messages@[compress_until - 1]@);
        }
        if prev.role == ChatRole::Assistant {
            if let ChatContent::ToolCalls(_) = &prev.content {
                let mut i = compress_until;
                while i < len && messages[i].role == ChatRole::Tool
                    invariant
                        ms == model_messages(messages@),
                        len == messages@.len(),
                        compress_until <= i <= len,
                        forall|k: int| compress_until <= k < i ==> #[trigger] ms[k].role == ChatRole::Tool,
                    decreases len - i,
                {
                    proof {
                        assert(ms[i as int] == messages@[i as int]@);
                    }
                    i = i + 1;
                }
                proof {
                    lemma_first_non_tool(ms, compress_until as int, i as int);
                    if i < len {
                        assert(ms[i as int] == messages@[i as int]@);
                    }
                }
                return i;
            }
        }
        compress_until
    }

    /// Move `keep_from` back, when it points at a tool message, onto the
    /// nearest earlier assistant tool-calls message (if there is one).
    pub fn adjust_keep_from_for_tool_calls(&self, messages: &[ChatMessage], keep_from: usize) -> (r: usize)
        ensures
            r == adjusted_keep_from(model_messages(messages@), keep_from as int),
    {
        let ghost ms = model_messages(messages@);
        if keep_from == 0 || keep_from >= messages.len() {
            return keep_from;
        }
        proof {
            assert(ms[keep_from as int] == messages@[keep_from as int]@);
            assert(ms.len() == messages@.len());
        }
        if messages[keep_from].role == ChatRole::Tool {
            let mut i = keep_from;
            while i > 0
                invariant
                    ms == model_messages(messages@),
                    i <= keep_from < messages@.len(),
                    last_tool_calls_before(ms, keep_from as int) == last_tool_calls_before(ms, i as int),
                ms[keep_from as int].role == ChatRole::Tool,
                decreases i,
            {
                i = i - 1;
                proof {
                    assert(ms[i as int] == messages@[i as int]@);
                }
                if messages[i].role == ChatRole::Assistant {
                    if let ChatContent::ToolCalls(_) = &messages[i].content {
                        assert(is_tool_calls_message(ms[i as int]));
                        assert(last_tool_calls_before(ms, i + 1) == Some(i as int));
                        return i;
                    }
                }
            }
        }
        keep_from
    }

    /// Remove leading tool messages: the API requires the first message to be
    /// a system, user or assistant message.
    pub fn clean_leading_tool_messages(messages: &mut Vec<ChatMessage>)
        ensures
            model_messages(final(messages)@) == model_messages(old(messages)@).skip(
                first_non_tool_from(model_messages(old(messages)@), 0),
            ),
    {
        let ghost ms = model_messages(old(messages)@);
        let ghost mut k: int = 0;
        assert(ms.skip(0) =~= ms);
        while messages.len() > 0 && messages[0].role == ChatRole::Tool
            invariant
                0 <= k <= ms.len(),
                model_messages(messages@) == ms.skip(k),
                first_non_tool_from(ms, 0) == first_non_tool_from(ms, k),
            decreases messages@.len(),
        {
            let ghost prev = messages@;
            proof {
                assert(model_messages(prev).len() == prev.len());
                assert(model_messages(prev)[0] == prev[0]@);
                assert(ms.skip(k)[0] == ms[k]);
                assert(ms[k].role == ChatRole::Tool);
            }
            messages.remove(0);
            proof {
                assert(messages@ =~= prev.drop_first());
                assert forall|j: int| 0 <= j < messages@.len() implies model_messages(messages@)[j] == ms.skip(k + 1)[j] by {
                    assert(model_messages(messages@)[j] == messages@[j]@);
                    assert(messages@[j] == prev[j + 1]);
                    assert(model_messages(prev)[j + 1] == prev[j + 1]@);
                    assert(ms.skip(k)[j + 1] == ms[k + j + 1]);
                }
                k = k + 1;
                assert(model_messages(messages@) =~= ms.skip(k));
            }
        }
        proof {
            if messages@.len() > 0 {
                assert(model_messages(messages@)[0] == messages@[0]@);
                assert(ms.skip(k)[0] == ms[k]);
            }
            assert(first_non_tool_from(ms, k) == k);
        }
    }
}

/// The role's name in a summarization prompt.
pub open spec fn role_label(r: ChatRole) -> Seq<char> {
    match r {
        ChatRole::System => "System"@,
        ChatRole::User => "User"@,
        ChatRole::Assistant => "Assistant"@,
        ChatRole::Tool => "Tool"@,
    }
}

/// A message's content in a summarization prompt: its text, the JSON text
/// of its tool calls, or its tool result cut to 100 bytes.
pub open spec fn prompt_content(c: ContentModel) -> Seq<char> {
    match c {
        ContentModel::Text(t) => t,
        ContentModel::ToolCalls(v) => "[Tool calls: "@ + serde_json_text(v) + "]"@,
        ContentModel::ToolResult { tool_call_id, result } => "[Tool result "@ + tool_call_id + ": "@ + (
        if vstd::utf8::encode_utf8(result).len() > 100 {
            truncate_bytes(result, 100) + "..."@
        } else {
            result
        }) + "]"@,
    }
}

/// The numbered dialogue of a summarization prompt.
pub open spec fn dialogue(ms: Seq<MessageModel>) -> Seq<char>
    decreases ms.len(),
{
    if ms.len() == 0 {
        Seq::empty()
    } else {
        dialogue(ms.drop_last()) + decimal(ms.len()) + ". "@ + role_label(ms.last().role) + ": "@
            + prompt_content(ms.last().content) + "\n\n"@
    }
}

/// The text before the dialogue in a summarization prompt.
pub open spec fn summarization_head() -> Seq<char> {
    "Summarize the key information from the following conversation. Requirements:\n1. Concisely summarize the main topics and conclusions\n2. Preserve important facts, decisions, and outcomes\n3. If there are tool calls, explain what operations were performed\n4. Keep it under 300 words\n5. Use bullet point format (start with -)\n\nConversation:\n"@
}

/// The text after the dialogue in a summarization prompt.
pub open spec fn summarization_tail() -> Seq<char> {
    "\n\nOutput the summary directly without any preamble:"@
}

fn role_label_str(r: ChatRole) -> (s: &'static str)
    ensures
        s@ == role_label(r),
{
    match r {
        ChatRole::System => "System",
        ChatRole::User => "User",
        ChatRole::Assistant => "Assistant",
        ChatRole::Tool => "Tool",
    }
}

fn prompt_content_text(c: &ChatContent) -> (r: String)
    ensures
        r@ == prompt_content(c@),
{
    match c {
        ChatContent::Text(t) => t.clone(),
        ChatContent::ToolCalls(v) => String::from_str("[Tool calls: ").concat(json_to_string(v).as_str()).concat("]"),
        ChatContent::ToolResult { tool_call_id, result } => {
            let shown = if result.as_str().as_bytes().len() > 100 {
                String::from_str(truncate_str(result.as_str(), 100)).concat("...")
            } else {
                result.clone()
            };
            String::from_str("[Tool result ").concat(tool_call_id.as_str()).concat(": ").concat(shown.as_str()).concat(
                "]",
            )
        },
    }
}

impl CompressionStrategy {
    /// The prompt asking the model to summarize `messages`.
    pub fn build_summarization_prompt(&self, messages: &[ChatMessage]) -> (r: String)
        ensures
            r@ == summarization_head() + dialogue(model_messages(messages@)) + summarization_tail(),
    {
        let ghost ms = model_messages(messages@);
        let mut d = String::new();
        let mut i: usize = 0;
        while i < messages.len()
            invariant
                ms == model_messages(messages@),
                i <= messages@.len(),
                d@ == dialogue(ms.take(i as int)),
            decreases messages@.len() - i,
        {
            assert(ms.take(i as int + 1).drop_last() =~= ms.take(i as int));
            assert(ms.take(i as int + 1).last() == messages@[i as int]@);
            let m = &messages[i];
            d = d.concat(decimal_string(i as u128 + 1).as_str()).concat(". ").concat(role_label_str(m.role)).concat(
                ": ",
            ).concat(prompt_content_text(&m.content).as_str()).concat("\n\n");
            i = i + 1;
        }
        assert(ms.take(messages@.len() as int) =~= ms);
        String::from_str(
            "Summarize the key information from the following conversation. Requirements:\n1. Concisely summarize the main topics and conclusions\n2. Preserve important facts, decisions, and outcomes\n3. If there are tool calls, explain what operations were performed\n4. Keep it under 300 words\n5. Use bullet point format (start with -)\n\nConversation:\n",
        ).concat(d.as_str()).concat("\n\nOutput the summary directly without any preamble:")
    }
}

/// The summary text used when the model gave none.
pub open spec fn no_summary() -> Seq<char> {
    "（无法生成摘要）"@
}

/// The system message that replaces archived messages: how many were
/// archived and where, and the trimmed summary.
pub fn summary_message(message_count: usize, archive_filename: &str, summary: Option<&str>) -> (r: ChatMessage)
    ensures
        r@ == text_message(
            ChatRole::System,
            "[Previous "@ + decimal(message_count as nat) + " messages archived to history/"@ + archive_filename@
                + "]\n\nSummary:\n"@ + trim(
                match summary {
                    Some(s) => s@,
                    None => no_summary(),
                },
            ) + "\n\nConversation continues..."@,
        ),
{
    let text = match summary {
        Some(s) => s,
        None => "（无法生成摘要）",
    };
    let content = String::from_str("[Previous ").concat(decimal_string(message_count as u128).as_str()).concat(
        " messages archived to history/",
    ).concat(archive_filename).concat("]\n\nSummary:\n").concat(trimmed(text).as_str()).concat(
        "\n\nConversation continues...",
    );
    ChatMessage::system_text(content)
}

} // verus!
