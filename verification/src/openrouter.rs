//! The shapes exchanged with the remote text-generation transport.  The
//! transport itself (one outbound HTTP call per generation) lives outside
//! this crate; the pipeline only builds requests and reads responses.

use vstd::prelude::*;

verus! {

/// Message role in the chat conversation.
#[derive(Clone, Copy, PartialEq, Eq, Structural, Debug)]
pub enum MessageRole {
    System,
    User,
    Assistant,
}

/// Provider sorting preference for the generation transport.
#[derive(Clone, Copy, PartialEq, Eq, Structural, Debug)]
pub enum ProviderSort {
    Price,
    Throughput,
    Latency,
}

pub struct ChatCompletionRequest {
    pub model: String,
    pub messages: Vec<Message>,
    pub provider: Option<ProviderPrefs>,
}

pub struct ProviderPrefs {
    pub sort: ProviderSort,
}

pub struct Message {
    pub role: MessageRole,
    pub content: String,
}

pub struct ChatCompletionResponse {
    pub id: String,
    pub model: String,
    pub choices: Vec<Choice>,
}

pub struct Choice {
    pub message: Message,
    pub finish_reason: Option<String>,
}

/// The text a transport response carries: the primary completion's content,
/// or nothing when the response holds no completion at all.
pub open spec fn extracted_content_spec(resp: ChatCompletionResponse) -> Seq<char> {
    if resp.choices@.len() > 0 {
        resp.choices@[0].message.content@
    } else {
        Seq::<char>::empty()
    }
}

/// Extracts the primary completion's text; a response with no completion
/// yields the empty body.
pub fn extract_content(resp: &ChatCompletionResponse) -> (r: String)
    ensures
        r@ == extracted_content_spec(*resp),
{
    if resp.choices.len() > 0 {
        resp.choices[0].message.content.clone()
    } else {
        String::new()
    }
}

} // verus!
