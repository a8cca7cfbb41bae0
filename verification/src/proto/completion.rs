//! Streaming completion shapes.
use vstd::prelude::*;
use crate::proto::envelope::Id;

verus! {

pub const METHOD_COMPLETION_STREAM: &'static str = "session.turn.start";
pub const METHOD_COMPLETION_DELTA: &'static str = "session.turn.event";

#[derive(Debug, Clone, PartialEq, Eq)]
pub struct CompletionStreamParams {
    pub model: String,
    pub prompt: String,
    pub session_id: Option<String>,
    pub cwd: Option<String>,
    pub agent: Option<String>,
    pub task_tier: Option<u8>,
    pub autonomous: Option<bool>,
}

#[derive(Debug, Clone, PartialEq, Eq)]
pub struct CompletionStreamResult {
    pub session_id: String,
    pub message_id: i64,
    pub text: String,
    pub usage: UsageSummary,
}

#[derive(Debug, Clone, PartialEq, Eq)]
pub struct CompletionDelta {
    pub request_id: Id,
    pub session_id: String,
    pub text: String,
    pub usage: Option<UsageSummary>,
}

#[derive(Debug, Clone, Copy, PartialEq, Eq)]
pub struct UsageSummary {
    pub input_tokens: u64,
    pub output_tokens: u64,
    pub total_tokens: u64,
}

} // verus!
