//! Wire message types of the chat completions API, as plain values.

use vstd::prelude::*;

verus! {

/// A text content part of a user message.
#[derive(Debug, Clone)]
pub struct ChatCompletionContentPartText {
    /// The text.
    pub text: String,
}

/// An image URL wrapper.
#[derive(Debug, Clone)]
pub struct ImageUrl {
    /// The URL string.
    pub url: String,
}

/// An image content part of a user message.
#[derive(Debug, Clone)]
pub struct ChatCompletionContentPartImage {
    /// The image URL.
    pub image_url: ImageUrl,
}

/// A video URL wrapper.
#[derive(Debug, Clone)]
pub struct VideoUrl {
    /// The URL string.
    pub url: String,
}

/// A video content part of a user message.
#[derive(Debug, Clone)]
pub struct ChatCompletionContentPartVideo {
    /// The video URL.
    pub video_url: VideoUrl,
}

/// One content part of a user message.
#[derive(Debug, Clone)]
pub enum ChatCompletionContentPart {
    /// Plain text.
    Text(ChatCompletionContentPartText),
    /// An image by URL.
    ImageUrl(ChatCompletionContentPartImage),
    /// A video by URL.
    VideoUrl(ChatCompletionContentPartVideo),
}

/// Content of a system message.
#[derive(Debug, Clone)]
pub enum ChatCompletionSystemMessageContent {
    /// Plain text.
    Text(String),
}

/// Content of a user message.
#[derive(Debug, Clone)]
pub enum ChatCompletionUserMessageContent {
    /// Plain text.
    Text(String),
    /// A list of content parts.
    Array(Vec<ChatCompletionContentPart>),
}

/// A system message.
#[derive(Debug, Clone)]
pub struct ChatCompletionSystemMessage {
    /// The message content.
    pub content: ChatCompletionSystemMessageContent,
}

/// A user message.
#[derive(Debug, Clone)]
pub struct ChatCompletionUserMessage {
    /// The message content.
    pub content: ChatCompletionUserMessageContent,
}

/// A request message with its role.
#[derive(Debug, Clone)]
pub enum ChatCompletionMessage {
    /// A system message.
    System(ChatCompletionSystemMessage),
    /// A user message.
    User(ChatCompletionUserMessage),
}

/// The message of a response choice.
#[derive(Debug, Clone)]
pub struct ChatCompletionResponseMessage {
    /// The main content, if any.
    pub content: Option<String>,
    /// The chain-of-thought reasoning content, if any.
    pub reasoning_content: Option<String>,
}

/// One choice of a chat completion response.
#[derive(Debug, Clone)]
pub struct ChatCompletionChoice {
    /// The choice's message.
    pub message: ChatCompletionResponseMessage,
}

/// A chat completion response.
#[derive(Debug, Clone)]
pub struct CreateChatCompletionResponse {
    /// The returned choices.
    pub choices: Vec<ChatCompletionChoice>,
}

} // verus!
