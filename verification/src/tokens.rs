//! Token estimates with the `cl100k_base` encoding (GPT-4, GPT-3.5-turbo).

use vstd::prelude::*;
use crate::json::{json_to_string, serde_json_text};
use crate::llm::{model_messages, ChatContent, ChatMessage, ContentModel, MessageModel};

verus! {

/// The tokens that `tiktoken_rs`'s `cl100k_base` encoder produces for a text
/// with special tokens allowed; `None` where the encoder reports an error.
pub uninterp spec fn cl100k_encoding(text: Seq<char>) -> Option<Seq<u32>>;

/// Calls `CoreBPE::encode` of `tiktoken_rs::cl100k_base_singleton()` with all
/// special tokens allowed (what `encode_with_special_tokens` does, which
/// unwraps the result); the tokens are what [`cl100k_encoding`] names.
#[verifier::external_body]
fn cl100k_encode(text: &str) -> (r: Option<Vec<u32>>)
    ensures
        match r {
            Some(v) => cl100k_encoding(text@) == Some(v@),
            None => cl100k_encoding(text@) is None,
        },
{
    let bpe = tiktoken_rs::cl100k_base_singleton();
    bpe.encode(text, &bpe.special_tokens()).ok().map(|r| r.0)
}

/// Estimated tokens of a text: 0 for the empty text, else the number of
/// `cl100k_base` tokens (0 where the encoder reports an error).
pub open spec fn token_estimate(t: Seq<char>) -> nat {
    if t.len() == 0 {
        0
    } else {
        match cl100k_encoding(t) {
            Some(v) => v.len(),
            None => 0,
        }
    }
}

/// Estimated tokens of one message: its text, the compact JSON text of its
/// tool calls, or its tool result.
pub open spec fn message_tokens(m: MessageModel) -> nat {
    match m.content {
        ContentModel::Text(t) => token_estimate(t),
        ContentModel::ToolCalls(v) => token_estimate(serde_json_text(v)),
        ContentModel::ToolResult { result, .. } => token_estimate(result),
    }
}

/// Estimated tokens of the first `k` messages.
pub open spec fn prefix_tokens(ms: Seq<MessageModel>, k: int) -> nat
    decreases k,
{
    if k <= 0 || k > ms.len() {
        0
    } else {
        prefix_tokens(ms, k - 1) + message_tokens(ms[k - 1])
    }
}

/// Estimated tokens of the messages from index `i` on.
pub open spec fn suffix_tokens(ms: Seq<MessageModel>, i: int) -> nat
    decreases ms.len() - i,
{
    if i < 0 || i >= ms.len() {
        0
    } else {
        message_tokens(ms[i]) + suffix_tokens(ms, i + 1)
    }
}

/// Estimated tokens of all messages.
pub open spec fn total_tokens(ms: Seq<MessageModel>) -> nat {
    prefix_tokens(ms, ms.len() as int)
}

/// Estimate the number of tokens in a text using tiktoken (`cl100k_base`).
pub fn estimate_tokens(text: &str) -> (r: usize)
    ensures
        r == token_estimate(text@),
{
    if text.is_empty() {
        return 0;
    }
    match cl100k_encode(text) {
        Some(v) => v.len(),
        None => 0,
    }
}

/// Estimate the tokens of one message.
pub fn estimate_message_tokens(msg: &ChatMessage) -> (r: usize)
    ensures
        r == message_tokens(msg@),
{
    match &msg.content {
        ChatContent::Text(text) => estimate_tokens(text.as_str()),
        ChatContent::ToolCalls(tc) => {
            let s = json_to_string(tc);
            estimate_tokens(s.as_str())
        },
        ChatContent::ToolResult { result, .. } => estimate_tokens(result.as_str()),
    }
}

/// Estimate the tokens of a list of messages: the sum over the messages.
pub fn estimate_messages_tokens(messages: &[ChatMessage]) -> (r: usize)
    requires
        total_tokens(model_messages(messages@)) <= usize::MAX,
    ensures
        r == total_tokens(model_messages(messages@)),
{
    let ghost ms = model_messages(messages@);
    let mut total: usize = 0;
    let mut i: usize = 0;
    proof {
        lemma_prefix_tokens_monotone(ms, 0, ms.len() as int);
    }
    while i < messages.len()
        invariant
            ms == model_messages(messages@),
            i <= messages@.len(),
            total == prefix_tokens(ms, i as int),
            total_tokens(ms) <= usize::MAX,
        decreases messages@.len() - i,
    {
        let t = estimate_message_tokens(&messages[i]);
        proof {
            assert(ms[i as int] == messages@[i as int]@);
            lemma_prefix_tokens_monotone(ms, i + 1, ms.len() as int);
        }
        total = total + t;
        i = i + 1;
    }
    total
}

/// The sum of the messages' token estimates, or `None` where it does not
/// fit in `usize`.
pub fn try_estimate_messages_tokens(messages: &[ChatMessage]) -> (r: Option<usize>)
    ensures
        match r {
            Some(n) => n == total_tokens(model_messages(messages@)),
            None => total_tokens(model_messages(messages@)) > usize::MAX,
        },
{
    let ghost ms = model_messages(messages@);
    let mut total: usize = 0;
    let mut i: usize = 0;
    while i < messages.len()
        invariant
            ms == model_messages(messages@),
            i <= messages@.len(),
            total == prefix_tokens(ms, i as int),
        decreases messages@.len() - i,
    {
        let t = estimate_message_tokens(&messages[i]);
        proof {
            assert(ms[i as int] == messages@[i as int]@);
        }
        if t > usize::MAX - total {
            proof {
                lemma_prefix_tokens_monotone(ms, i + 1, ms.len() as int);
            }
            return None;
        }
        total = total + t;
        i = i + 1;
    }
    Some(estimate_messages_tokens(messages))
}

pub proof fn lemma_prefix_tokens_monotone(ms: Seq<MessageModel>, a: int, b: int)
    requires
        0 <= a <= b <= ms.len(),
    ensures
        prefix_tokens(ms, a) <= prefix_tokens(ms, b),
    decreases b - a,
{
    if a < b {
        lemma_prefix_tokens_monotone(ms, a, b - 1);
    }
}


proof fn lemma_prefix_push(ms: Seq<MessageModel>, m: MessageModel, k: int)
    requires
        0 <= k <= ms.len(),
    ensures
        prefix_tokens(ms.push(m), k) == prefix_tokens(ms, k),
    decreases k,
{
    if k > 0 {
        lemma_prefix_push(ms, m, k - 1);
        assert(ms.push(m)[k - 1] == ms[k - 1]);
    }
}

/// A message is estimated by its text: a text message by its text, a
/// tool-calls message by the compact JSON text of its calls, a tool result
/// by the result; so a tool-calls message weighs what a text message
/// holding that JSON text weighs, and a history weighs the sum of its
/// messages.
pub proof fn law_message_estimate_is_text_estimate(m: MessageModel, ms: Seq<MessageModel>)
    ensures
        m.content matches ContentModel::Text(t) ==> message_tokens(m) == token_estimate(t),
        m.content matches ContentModel::ToolCalls(v) ==> message_tokens(m) == token_estimate(serde_json_text(v))
            && message_tokens(m) == message_tokens(
            MessageModel { role: m.role, content: ContentModel::Text(serde_json_text(v)) },
        ),
        m.content matches ContentModel::ToolResult { result, .. } ==> message_tokens(m) == token_estimate(result),
        total_tokens(ms.push(m)) == total_tokens(ms) + message_tokens(m),
{
    lemma_prefix_push(ms, m, ms.len() as int);
}

} // verus!
