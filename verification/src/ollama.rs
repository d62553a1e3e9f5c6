//! The shapes of the chat endpoint's requests and replies, and how a
//! prompt becomes a request.  The HTTP transport lives outside the
//! library.

use vstd::prelude::*;

verus! {

/// One chat message.
#[derive(Debug)]
pub struct Message {
    pub role: String,
    pub content: String,
}

/// A chat request: a model name and the messages so far.
#[derive(Debug)]
pub struct ChatRequest {
    pub model: String,
    pub messages: Vec<Message>,
    pub stream: bool,
}

/// A chat reply: the assistant's message, when one came back.
#[derive(Debug)]
pub struct ChatResponse {
    pub message: Option<Message>,
}

impl ChatRequest {
    /// The single-turn, non-streaming request sent for a prompt: one user
    /// message holding the prompt text.
    pub fn for_prompt(model: &str, prompt: &str) -> (r: ChatRequest)
        ensures
            r.model@ == model@,
            r.stream == false,
            r.messages@.len() == 1,
            r.messages@[0].role@ == "user"@,
            r.messages@[0].content@ == prompt@,
    {
        let mut messages: Vec<Message> = Vec::new();
        messages.push(Message { role: "user".to_owned(), content: prompt.to_owned() });
        ChatRequest { model: model.to_owned(), messages, stream: false }
    }
}

} // verus!
