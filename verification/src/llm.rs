//! Chat messages and the OpenAI chat-completions wire format.

use vstd::prelude::*;
use crate::json::{
    json_to_string, parse_json, serde_json_parse, serde_json_text,
    entries_get, entries_lookup, json_as_array, json_as_object, json_as_str, json_get,
    model_entries, model_items, lemma_array_view, lemma_object_view, JsonModel, JsonValue,
};

verus! {

/// Who wrote a chat message.
#[derive(Clone, Copy, Debug, PartialEq, Eq, Structural)]
pub enum ChatRole {
    System,
    User,
    Assistant,
    Tool,
}

/// What a chat message carries.
#[derive(Debug)]
pub enum ChatContent {
    /// Plain text.
    Text(String),
    /// The assistant's tool calls, as the JSON array the API returned.
    ToolCalls(JsonValue),
    /// The result of one tool call.
    ToolResult { tool_call_id: String, result: String },
}

/// One message of a conversation.
#[derive(Debug)]
pub struct ChatMessage {
    pub role: ChatRole,
    pub content: ChatContent,
}

/// Mathematical form of [`ChatContent`].
pub enum ContentModel {
    Text(Seq<char>),
    ToolCalls(JsonModel),
    ToolResult { tool_call_id: Seq<char>, result: Seq<char> },
}

/// Mathematical form of [`ChatMessage`].
pub struct MessageModel {
    pub role: ChatRole,
    pub content: ContentModel,
}

impl View for ChatContent {
    type V = ContentModel;

    open spec fn view(&self) -> ContentModel {
        match self {
            ChatContent::Text(t) => ContentModel::Text(t@),
            ChatContent::ToolCalls(v) => ContentModel::ToolCalls(v@),
            ChatContent::ToolResult { tool_call_id, result } => ContentModel::ToolResult {
                tool_call_id: tool_call_id@,
                result: result@,
            },
        }
    }
}

impl View for ChatMessage {
    type V = MessageModel;

    open spec fn view(&self) -> MessageModel {
        MessageModel { role: self.role, content: self.content@ }
    }
}

/// Mathematical form of a sequence of messages.
pub open spec fn model_messages(ms: Seq<ChatMessage>) -> Seq<MessageModel> {
    Seq::new(ms.len(), |i: int| ms[i]@)
}

/// The message is an assistant message carrying tool calls.
pub open spec fn is_tool_calls_message(m: MessageModel) -> bool {
    m.role == ChatRole::Assistant && m.content is ToolCalls
}

/// A text message with the given role.
pub open spec fn text_message(role: ChatRole, t: Seq<char>) -> MessageModel {
    MessageModel { role, content: ContentModel::Text(t) }
}

impl ChatContent {
    /// A copy of this content.
    pub fn duplicate(&self) -> (r: ChatContent)
        ensures
            r@ == self@,
    {
        match self {
            ChatContent::Text(t) => ChatContent::Text(t.clone()),
            ChatContent::ToolCalls(v) => ChatContent::ToolCalls(v.duplicate()),
            ChatContent::ToolResult { tool_call_id, result } => ChatContent::ToolResult {
                tool_call_id: tool_call_id.clone(),
                result: result.clone(),
            },
        }
    }
}

impl ChatMessage {
    /// A copy of this message.
    pub fn duplicate(&self) -> (r: ChatMessage)
        ensures
            r@ == self@,
    {
        ChatMessage { role: self.role, content: self.content.duplicate() }
    }

    /// A system message with text `s`.
    pub fn system_text(s: String) -> (r: Self)
        ensures
            r@ == text_message(ChatRole::System, s@),
    {
        ChatMessage { role: ChatRole::System, content: ChatContent::Text(s) }
    }

    /// A user message with text `s`.
    pub fn user_text(s: String) -> (r: Self)
        ensures
            r@ == text_message(ChatRole::User, s@),
    {
        ChatMessage { role: ChatRole::User, content: ChatContent::Text(s) }
    }

    /// An assistant message with text `s`.
    pub fn assistant_text(s: String) -> (r: Self)
        ensures
            r@ == text_message(ChatRole::Assistant, s@),
    {
        ChatMessage { role: ChatRole::Assistant, content: ChatContent::Text(s) }
    }

    /// An assistant message carrying tool calls `v`.
    pub fn assistant_tool_calls(v: JsonValue) -> (r: Self)
        ensures
            r@ == (MessageModel { role: ChatRole::Assistant, content: ContentModel::ToolCalls(v@) }),
    {
        ChatMessage { role: ChatRole::Assistant, content: ChatContent::ToolCalls(v) }
    }

    /// A tool message with the result of call `tool_call_id`.
    pub fn tool_result(tool_call_id: String, result: String) -> (r: Self)
        ensures
            r@ == (MessageModel {
                role: ChatRole::Tool,
                content: ContentModel::ToolResult { tool_call_id: tool_call_id@, result: result@ },
            }),
    {
        ChatMessage { role: ChatRole::Tool, content: ChatContent::ToolResult { tool_call_id, result } }
    }
}

/// A copy of a list of messages.
pub fn duplicate_messages(ms: &Vec<ChatMessage>) -> (r: Vec<ChatMessage>)
    ensures
        model_messages(r@) == model_messages(ms@),
{
    let mut out: Vec<ChatMessage> = Vec::new();
    let mut i: usize = 0;
    while i < ms.len()
        invariant
            i <= ms@.len(),
            out@.len() == i,
            forall|j: int| 0 <= j < i ==> #[trigger] out@[j]@ == ms@[j]@,
        decreases ms@.len() - i,
    {
        out.push(ms[i].duplicate());
        i = i + 1;
    }
    assert(model_messages(out@) =~= model_messages(ms@));
    out
}


/// The API's name of a role.
pub open spec fn role_name(r: ChatRole) -> Seq<char> {
    match r {
        ChatRole::System => "system"@,
        ChatRole::User => "user"@,
        ChatRole::Assistant => "assistant"@,
        ChatRole::Tool => "tool"@,
    }
}

/// The API's JSON object for one message.
pub open spec fn message_json(m: MessageModel) -> JsonModel {
    let role = ("role"@, JsonModel::Str(role_name(m.role)));
    JsonModel::Object(
        match m.content {
            ContentModel::Text(t) => seq![role, ("content"@, JsonModel::Str(t))],
            ContentModel::ToolCalls(tc) => seq![role, ("tool_calls"@, tc)],
            ContentModel::ToolResult { tool_call_id, result } => seq![
                role,
                ("tool_call_id"@, JsonModel::Str(tool_call_id)),
                ("content"@, JsonModel::Str(result)),
            ],
        },
    )
}

/// The body of a non-streaming chat-completions request: `model`, `stream:
/// false`, the tools with `tool_choice: "auto"` when there are any, and the
/// messages.
pub open spec fn chat_body(model: Seq<char>, ms: Seq<MessageModel>, tools: Seq<JsonModel>) -> JsonModel {
    let head = seq![("model"@, JsonModel::Str(model)), ("stream"@, JsonModel::Bool(false))];
    let mid = if tools.len() > 0 {
        seq![("tools"@, JsonModel::Array(tools)), ("tool_choice"@, JsonModel::Str("auto"@))]
    } else {
        Seq::empty()
    };
    JsonModel::Object(
        head + mid + seq![("messages"@, JsonModel::Array(ms.map_values(|m: MessageModel| message_json(m))))],
    )
}

/// A JSON string value.
fn jstr(s: &str) -> (r: JsonValue)
    ensures
        r@ == JsonModel::Str(s@),
{
    JsonValue::Str(String::from_str(s))
}

/// The API's JSON object for one message.
pub fn message_to_json(m: &ChatMessage) -> (r: JsonValue)
    ensures
        r@ == message_json(m@),
{
    let role = match m.role {
        ChatRole::System => "system",
        ChatRole::User => "user",
        ChatRole::Assistant => "assistant",
        ChatRole::Tool => "tool",
    };
    let mut entries: Vec<(String, JsonValue)> = Vec::new();
    entries.push((String::from_str("role"), jstr(role)));
    match &m.content {
        ChatContent::Text(t) => {
            entries.push((String::from_str("content"), jstr(t.as_str())));
        },
        ChatContent::ToolCalls(tc) => {
            entries.push((String::from_str("tool_calls"), tc.duplicate()));
        },
        ChatContent::ToolResult { tool_call_id, result } => {
            entries.push((String::from_str("tool_call_id"), jstr(tool_call_id.as_str())));
            entries.push((String::from_str("content"), jstr(result.as_str())));
        },
    }
    let r = JsonValue::Object(entries);
    proof {
        lemma_object_view(r);
        assert(model_entries(entries@) =~= message_json(m@)->Object_0);
    }
    r
}

/// Build the JSON body of a non-streaming chat-completions request.
pub fn build_chat_completions_body(model: &str, messages: &[ChatMessage], tools: &[JsonValue]) -> (r: JsonValue)
    ensures
        r@ == chat_body(model@, model_messages(messages@), model_items(tools@)),
{
    let mut body: Vec<(String, JsonValue)> = Vec::new();
    body.push((String::from_str("model"), jstr(model)));
    body.push((String::from_str("stream"), JsonValue::Bool(false)));
    if tools.len() > 0 {
        let mut ts: Vec<JsonValue> = Vec::new();
        let mut i: usize = 0;
        while i < tools.len()
            invariant
                i <= tools@.len(),
                ts@.len() == i,
                forall|j: int| 0 <= j < i ==> #[trigger] ts@[j]@ == tools@[j]@,
            decreases tools@.len() - i,
        {
            ts.push(tools[i].duplicate());
            i = i + 1;
        }
        let tv = JsonValue::Array(ts);
        proof {
            lemma_array_view(tv);
            assert(model_items(ts@) =~= model_items(tools@));
        }
        body.push((String::from_str("tools"), tv));
        body.push((String::from_str("tool_choice"), jstr("auto")));
    }
    let mut out: Vec<JsonValue> = Vec::new();
    let mut i: usize = 0;
    while i < messages.len()
        invariant
            i <= messages@.len(),
            out@.len() == i,
            forall|j: int| 0 <= j < i ==> #[trigger] out@[j]@ == message_json(messages@[j]@),
        decreases messages@.len() - i,
    {
        out.push(message_to_json(&messages[i]));
        i = i + 1;
    }
    let mv = JsonValue::Array(out);
    proof {
        lemma_array_view(mv);
        assert(model_items(out@) =~= model_messages(messages@).map_values(|m: MessageModel| message_json(m)));
    }
    body.push((String::from_str("messages"), mv));
    let r = JsonValue::Object(body);
    proof {
        lemma_object_view(r);
        assert(model_entries(body@) =~= chat_body(model@, model_messages(messages@), model_items(tools@))->Object_0);
    }
    r
}

/// Why a chat-completions response could not be read.
#[derive(Debug)]
pub enum CompletionError {
    /// No `choices` array.
    MissingChoices,
    /// `choices` is empty.
    EmptyChoices,
    /// `choices[0].message` is not an object.
    MissingMessage,
    /// The message has neither non-empty `tool_calls` nor string `content`.
    NoContent,
}

impl CompletionError {
    /// The error's message text.
    pub open spec fn message(self) -> Seq<char> {
        match self {
            CompletionError::MissingChoices => "openai: missing choices"@,
            CompletionError::EmptyChoices => "openai: empty choices"@,
            CompletionError::MissingMessage => "openai: missing choices[0].message"@,
            CompletionError::NoContent => "openai: message has neither tool_calls nor string content"@,
        }
    }

    /// The error's message text.
    pub fn to_string(&self) -> (r: String)
        ensures
            r@ == self.message(),
    {
        match self {
            CompletionError::MissingChoices => String::from_str("openai: missing choices"),
            CompletionError::EmptyChoices => String::from_str("openai: empty choices"),
            CompletionError::MissingMessage => String::from_str("openai: missing choices[0].message"),
            CompletionError::NoContent => String::from_str(
                "openai: message has neither tool_calls nor string content",
            ),
        }
    }
}

/// What a chat-completions response holds.
pub enum ReplyModel {
    MissingChoices,
    EmptyChoices,
    MissingMessage,
    ToolCalls(JsonModel),
    Text(Seq<char>),
    NoContent,
}

/// How a chat-completions response is read: `choices[0].message`, whose
/// non-empty `tool_calls` array wins over its string `content`.
pub open spec fn classify_reply(root: JsonModel) -> ReplyModel {
    match json_as_array(json_get(root, "choices"@)) {
        None => ReplyModel::MissingChoices,
        Some(cs) => if cs.len() == 0 {
            ReplyModel::EmptyChoices
        } else {
            match json_as_object(json_get(cs[0], "message"@)) {
                None => ReplyModel::MissingMessage,
                Some(msg) => {
                    let tc = entries_get(msg, "tool_calls"@);
                    if tc matches Some(JsonModel::Array(a)) && a.len() > 0 {
                        ReplyModel::ToolCalls(tc.unwrap())
                    } else {
                        match json_as_str(entries_get(msg, "content"@)) {
                            Some(c) => ReplyModel::Text(c),
                            None => ReplyModel::NoContent,
                        }
                    }
                },
            }
        },
    }
}

/// The parse result agrees with the response's classification.
pub open spec fn reply_matches(r: Result<ChatMessage, CompletionError>, c: ReplyModel) -> bool {
    match c {
        ReplyModel::MissingChoices => r matches Err(CompletionError::MissingChoices),
        ReplyModel::EmptyChoices => r matches Err(CompletionError::EmptyChoices),
        ReplyModel::MissingMessage => r matches Err(CompletionError::MissingMessage),
        ReplyModel::NoContent => r matches Err(CompletionError::NoContent),
        ReplyModel::ToolCalls(v) => r is Ok && r->Ok_0@ == (MessageModel {
            role: ChatRole::Assistant,
            content: ContentModel::ToolCalls(v),
        }),
        ReplyModel::Text(t) => r is Ok && r->Ok_0@ == text_message(ChatRole::Assistant, t),
    }
}

/// Read the assistant's reply out of a chat-completions response.
pub fn parse_chat_completions_response(root: &JsonValue) -> (r: Result<ChatMessage, CompletionError>)
    ensures
        reply_matches(r, classify_reply(root@)),
{
    let choices = match root.get("choices") {
        Some(v) => match v.as_array() {
            Some(a) => a,
            None => return Err(CompletionError::MissingChoices),
        },
        None => return Err(CompletionError::MissingChoices),
    };
    if choices.len() == 0 {
        return Err(CompletionError::EmptyChoices);
    }
    assert(model_items(choices@)[0] == choices@[0]@);
    let msg = match choices[0].get("message") {
        Some(v) => match v.as_object() {
            Some(m) => m,
            None => return Err(CompletionError::MissingMessage),
        },
        None => return Err(CompletionError::MissingMessage),
    };
    if let Some(tc) = entries_lookup(msg, "tool_calls") {
        if let JsonValue::Array(a) = tc {
            if a.len() > 0 {
                proof {
                    lemma_array_view(*tc);
                }
                return Ok(ChatMessage::assistant_tool_calls(tc.duplicate()));
            }
        }
        proof {
            if tc is Array {
                lemma_array_view(*tc);
            }
        }
    }
    if let Some(c) = entries_lookup(msg, "content") {
        if let Some(s) = c.as_str() {
            return Ok(ChatMessage::assistant_text(String::from_str(s)));
        }
    }
    Err(CompletionError::NoContent)
}

/// The text of a chat-completions request: the body of
/// [`build_chat_completions_body`] as compact JSON.
pub fn request_body_text(model: &str, messages: &[ChatMessage], tools: &[JsonValue]) -> (r: String)
    ensures
        r@ == serde_json_text(chat_body(model@, model_messages(messages@), model_items(tools@))),
{
    let body = build_chat_completions_body(model, messages, tools);
    json_to_string(&body)
}

/// Why a response body could not be read as a reply.
#[derive(Debug)]
pub enum ResponseError {
    /// The body is not JSON.
    BadJson,
    /// The JSON is not a usable reply.
    Reply(CompletionError),
}

impl ResponseError {
    /// The error's message text.
    pub fn to_string(&self) -> (r: String)
        ensures
            match self {
                ResponseError::BadJson => r@ == "openai: failed to parse response JSON"@,
                ResponseError::Reply(e) => r@ == e.message(),
            },
    {
        match self {
            ResponseError::BadJson => String::from_str("openai: failed to parse response JSON"),
            ResponseError::Reply(e) => e.to_string(),
        }
    }
}

/// Read the assistant's reply out of the text of a response body.
pub fn parse_response_text(text: &str) -> (r: Result<ChatMessage, ResponseError>)
    ensures
        match serde_json_parse(text@) {
            None => r matches Err(ResponseError::BadJson),
            Some(root) => reply_matches(
                match r {
                    Ok(m) => Ok(m),
                    Err(ResponseError::Reply(e)) => Err(e),
                    Err(ResponseError::BadJson) => Err(CompletionError::NoContent),
                },
                classify_reply(root),
            ) && !(r matches Err(ResponseError::BadJson)),
        },
{
    match parse_json(text) {
        None => Err(ResponseError::BadJson),
        Some(root) => match parse_chat_completions_response(&root) {
            Ok(m) => Ok(m),
            Err(e) => Err(ResponseError::Reply(e)),
        },
    }
}

} // verus!
