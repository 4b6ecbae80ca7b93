//! The events of a streaming model turn.

use crate::json::{contents, contents_all, Json};
use vstd::prelude::*;

verus! {

/// Token counts of a model call, where the provider gave them.
#[derive(Debug, Clone, Copy, PartialEq, Eq, Structural)]
pub struct Usage {
    pub input_tokens: Option<u64>,
    pub output_tokens: Option<u64>,
    pub total_tokens: Option<u64>,
}

impl Default for Usage {
    fn default() -> (r: Self)
        ensures
            r.input_tokens is None,
            r.output_tokens is None,
            r.total_tokens is None,
    {
        Usage { input_tokens: None, output_tokens: None, total_tokens: None }
    }
}

/// Why a model call ended.
#[derive(Debug, Clone, Copy, PartialEq, Eq, Structural)]
pub enum FinishReason {
    Stop,
    Length,
    /// The call asked for tools: more steps follow.
    ToolCalls,
    ContentFilter,
    Error,
    Other,
}

/// What a tool call returned.
#[derive(Debug)]
#[allow(inconsistent_fields)]
pub enum ToolResultValue {
    Text { value: serde_json::Value },
    Json { value: serde_json::Value },
    Error { value: serde_json::Value },
    Content { value: Vec<serde_json::Value> },
}

/// The value of a [`ToolResultValue`].
#[verifier::ext_equal]
#[allow(inconsistent_fields)]
pub enum ToolResultValueModel {
    Text { value: Json },
    Json { value: Json },
    Error { value: Json },
    Content { value: Seq<Json> },
}

impl DeepView for ToolResultValue {
    type V = ToolResultValueModel;

    open spec fn deep_view(&self) -> ToolResultValueModel {
        match self {
            ToolResultValue::Text { value } => ToolResultValueModel::Text { value: contents(*value) },
            ToolResultValue::Json { value } => ToolResultValueModel::Json { value: contents(*value) },
            ToolResultValue::Error { value } => ToolResultValueModel::Error { value: contents(*value) },
            ToolResultValue::Content { value } => ToolResultValueModel::Content { value: contents_all(value@) },
        }
    }
}

/// A tool call's structured output.
#[derive(Debug)]
pub struct ToolOutput {
    pub structured: serde_json::Value,
}

/// The value of a [`ToolOutput`].
#[verifier::ext_equal]
pub struct ToolOutputModel {
    pub structured: Json,
}

impl DeepView for ToolOutput {
    type V = ToolOutputModel;

    open spec fn deep_view(&self) -> ToolOutputModel {
        ToolOutputModel {
            structured: contents(self.structured),
        }
    }
}

/// One event of a streaming model turn: what the transcript is folded from.
#[derive(Debug)]
pub enum LLMEvent {
    TextStart,
    TextDelta { text: String },
    TextEnd,
    ReasoningStart,
    ReasoningDelta { text: String },
    ReasoningEnd,
    ToolCall { id: String, name: String, input: serde_json::Value },
    ToolResult { id: String, result: ToolResultValue, output: Option<ToolOutput> },
    ToolError { id: String, message: String },
    StepFinish { usage: Option<Usage> },
    Finish { reason: FinishReason, usage: Option<Usage> },
    /// The provider or the connection failed.
    ProviderError { message: String },
    /// The call is tried again after a wait. With `salvaged` the work done so far
    /// was kept; without, the message starts over.
    Retry { attempt: u32, max: u32, delay_ms: u64, message: String, salvaged: bool },
    Warning { message: String },
    Other,
}

/// The value of a [`LLMEvent`].
#[verifier::ext_equal]
pub enum LLMEventModel {
    TextStart,
    TextDelta { text: Seq<char> },
    TextEnd,
    ReasoningStart,
    ReasoningDelta { text: Seq<char> },
    ReasoningEnd,
    ToolCall { id: Seq<char>, name: Seq<char>, input: Json },
    ToolResult { id: Seq<char>, result: ToolResultValueModel, output: Option<ToolOutputModel> },
    ToolError { id: Seq<char>, message: Seq<char> },
    StepFinish { usage: Option<Usage> },
    Finish { reason: FinishReason, usage: Option<Usage> },
    ProviderError { message: Seq<char> },
    Retry { attempt: u32, max: u32, delay_ms: u64, message: Seq<char>, salvaged: bool },
    Warning { message: Seq<char> },
    Other,
}

impl DeepView for LLMEvent {
    type V = LLMEventModel;

    open spec fn deep_view(&self) -> LLMEventModel {
        match self {
            LLMEvent::TextStart => LLMEventModel::TextStart,
            LLMEvent::TextDelta { text } => LLMEventModel::TextDelta { text: text.deep_view() },
            LLMEvent::TextEnd => LLMEventModel::TextEnd,
            LLMEvent::ReasoningStart => LLMEventModel::ReasoningStart,
            LLMEvent::ReasoningDelta { text } => LLMEventModel::ReasoningDelta { text: text.deep_view() },
            LLMEvent::ReasoningEnd => LLMEventModel::ReasoningEnd,
            LLMEvent::ToolCall { id, name, input } => LLMEventModel::ToolCall { id: id.deep_view(), name: name.deep_view(), input: contents(*input) },
            LLMEvent::ToolResult { id, result, output } => LLMEventModel::ToolResult { id: id.deep_view(), result: result.deep_view(), output: output.deep_view() },
            LLMEvent::ToolError { id, message } => LLMEventModel::ToolError { id: id.deep_view(), message: message.deep_view() },
            LLMEvent::StepFinish { usage } => LLMEventModel::StepFinish { usage: *usage },
            LLMEvent::Finish { reason, usage } => LLMEventModel::Finish { reason: *reason, usage: *usage },
            LLMEvent::ProviderError { message } => LLMEventModel::ProviderError { message: message.deep_view() },
            LLMEvent::Retry { attempt, max, delay_ms, message, salvaged } => LLMEventModel::Retry { attempt: *attempt, max: *max, delay_ms: *delay_ms, message: message.deep_view(), salvaged: *salvaged },
            LLMEvent::Warning { message } => LLMEventModel::Warning { message: message.deep_view() },
            LLMEvent::Other => LLMEventModel::Other,
        }
    }
}

} // verus!
