//! What a model streams, and how a model is called.
use vstd::prelude::*;
use vstd::string::*;

use crate::error::LlmFailure;

verus! {

/// One finished block of a model's answer.
#[derive(Debug, PartialEq)]
pub enum ContentBlock {
    Text { text: String },
    Reasoning { text: String },
    ToolCall { id: String, name: String, arguments: String },
}

impl Clone for ContentBlock {
    fn clone(&self) -> (copy: Self)
        ensures
            copy == *self,
    {
        match self {
            ContentBlock::Text { text } => ContentBlock::Text { text: text.clone() },
            ContentBlock::Reasoning { text } => ContentBlock::Reasoning { text: text.clone() },
            ContentBlock::ToolCall { id, name, arguments } => ContentBlock::ToolCall {
                id: id.clone(),
                name: name.clone(),
                arguments: arguments.clone(),
            },
        }
    }
}

/// The kind of a block that begins.
#[derive(Debug, Clone, Copy, PartialEq, Eq, Structural)]
pub enum BlockType {
    Text,
    Reasoning,
    ToolCall,
}

/// Tokens that a request took.
#[derive(Debug, Clone, Copy, PartialEq, Eq, Structural)]
pub struct TokenUsage {
    pub input_tokens: u64,
    pub output_tokens: u64,
    pub cache_read_tokens: Option<u64>,
    pub reasoning_tokens: Option<u64>,
}

impl Default for TokenUsage {
    fn default() -> (usage: Self)
        ensures
            usage == (TokenUsage {
                input_tokens: 0,
                output_tokens: 0,
                cache_read_tokens: None,
                reasoning_tokens: None,
            }),
    {
        TokenUsage {
            input_tokens: 0,
            output_tokens: 0,
            cache_read_tokens: None,
            reasoning_tokens: None,
        }
    }
}

/// Why a stream finished.
#[derive(Debug, Clone, PartialEq)]
pub enum FinishReason {
    Stop,
    ToolCalls,
    MaxTokens,
    Error { failure: LlmFailure },
    Aborted { failure: LlmFailure },
}

/// One piece of a model's stream.
#[derive(Debug, Clone, PartialEq)]
pub enum StreamChunk {
    BlockStart { index: u32, block_type: BlockType },
    TextDelta { index: u32, text: String },
    ReasoningDelta { index: u32, text: String },
    ToolCallDelta { index: u32, id: String, name: Option<String>, arguments_delta: String },
    BlockEnd { index: u32, block: ContentBlock },
    Usage { usage: TokenUsage },
    Finish { reason: FinishReason },
}

/// Which model answers.
#[derive(Debug, PartialEq)]
pub struct ModelSelection {
    pub provider: String,
    pub model: String,
    pub reasoning_effort: Option<String>,
}

impl Clone for ModelSelection {
    fn clone(&self) -> (copy: Self)
        ensures
            copy == *self,
    {
        ModelSelection {
            provider: self.provider.clone(),
            model: self.model.clone(),
            reasoning_effort: self.reasoning_effort.clone(),
        }
    }
}

/// How a model is called.
#[derive(Debug, Clone, PartialEq)]
pub struct LlmCallConfig {
    pub provider: String,
    pub model: String,
    pub reasoning_effort: Option<String>,
    /// The sampling temperature, as decimal text.
    pub temperature: Option<String>,
    pub max_tokens: Option<u64>,
    pub stop: Vec<String>,
}

} // verus!
