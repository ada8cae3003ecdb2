//! Plain data carried between the core and its collaborators: chat
//! messages, completion requests and responses, the command-line surface,
//! and the embedding service's request and response shapes.

use vstd::prelude::*;
use vstd::string::*;

verus! {

/// One conversation message: a role tag and its text content.
pub struct Message {
    pub role: String,
    pub content: String,
}

impl Message {
    /// A message with the system role.
    pub fn system(content: &str) -> (m: Message)
        ensures
            m.role@ == "system"@,
            m.content@ == content@,
    {
        Message { role: String::from_str("system"), content: content.to_owned() }
    }

    /// A message with the user role.
    pub fn user(content: &str) -> (m: Message)
        ensures
            m.role@ == "user"@,
            m.content@ == content@,
    {
        Message { role: String::from_str("user"), content: content.to_owned() }
    }

    /// A message with the assistant role.
    pub fn assistant(content: &str) -> (m: Message)
        ensures
            m.role@ == "assistant"@,
            m.content@ == content@,
    {
        Message { role: String::from_str("assistant"), content: content.to_owned() }
    }
}

/// A completion request. The sampling knobs that the completion service
/// reads as fractions are carried in fixed point: a `_micros` field holds
/// the value scaled by one million.
pub struct CompletionRequest {
    pub messages: Vec<Message>,
    pub prompt: String,
    pub top_k: usize,
    pub top_p_micros: u64,
    pub n_keep: usize,
    pub n_predict: usize,
    pub cache_prompt: bool,
    pub stop: Vec<String>,
    pub temperature_micros: Option<u64>,
    pub stream: bool,
    pub max_tokens: usize,
}

/// A one-shot completion response.
pub struct SimpleCompletionResponse {
    pub data: DataResponse,
}

/// One decoded unit of partial assistant output.
pub struct DataResponse {
    pub content: String,
}

/// A full completion response.
pub struct CompletionResponse {
    pub id: String,
    pub object: String,
    pub created: u64,
    pub model: String,
    pub choices: Vec<Choice>,
}

/// One completion choice.
pub struct Choice {
    pub index: u32,
    pub message: Message,
    pub finish_reason: String,
}

/// The outcome of a tool invocation.
pub struct ToolResult {
    pub success: bool,
    pub contents: Vec<Content>,
}

/// One piece of tool output.
pub struct Content {
    pub content_type: String,
    pub body: String,
}

impl Content {
    /// Plain-text tool output.
    pub fn text(content: &str) -> (c: Content)
        ensures
            c.content_type@ == "text/plain"@,
            c.body@ == content@,
    {
        Content { content_type: String::from_str("text/plain"), body: content.to_owned() }
    }
}

/// The command-line surface: a config path, a log level, the chat-client
/// flag, and an optional canned prompt.
pub struct Cli {
    pub config: Option<String>,
    pub loglevel: Option<String>,
    pub chat_client: bool,
    pub user_prompt: Option<String>,
}

/// The body posted to the embedding service: the text to embed.
pub struct Payload {
    pub content: String,
}

/// One row of the embedding service's response: a row index and a batch of
/// vectors. The element type is the caller's; the core never reads the
/// numbers themselves.
pub struct Embeddings<T> {
    pub index: usize,
    pub embedding: Vec<Vec<T>>,
}

} // verus!
