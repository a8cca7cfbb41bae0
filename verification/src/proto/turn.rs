//! Typed session-turn protocol and durable event shapes.  JSON payloads that
//! the client only carries are kept in their serialized form.
use vstd::prelude::*;
use crate::proto::envelope::Id;

verus! {

pub const METHOD_PROTOCOL_NEGOTIATE: &'static str = "protocol.negotiate";
pub const METHOD_TURN_START: &'static str = "session.turn.start";
pub const METHOD_TURN_CANCEL: &'static str = "session.turn.cancel";
pub const METHOD_TURN_REPLAY: &'static str = "session.turn.replay";
pub const METHOD_TURN_EVENT: &'static str = "session.turn.event";
pub const METHOD_TURN_RESPONSE: &'static str = "session.turn.response";

#[derive(Debug, Clone, Copy, PartialEq, Eq)]
pub struct ProtocolVersion {
    pub major: u16,
    pub minor: u16,
}

#[derive(Debug, Clone, Copy, PartialEq, Eq)]
pub enum Capability {
    TurnStreaming,
    TurnCancellation,
    EventReplay,
    Idempotency,
    ArtifactReferences,
}

#[derive(Debug, Clone, PartialEq, Eq)]
pub struct ProtocolNegotiateParams {
    pub version: ProtocolVersion,
    pub capabilities: Vec<Capability>,
}

#[derive(Debug, Clone, PartialEq, Eq)]
pub struct ProtocolNegotiateResult {
    pub version: ProtocolVersion,
    pub capabilities: Vec<Capability>,
}

#[derive(Debug, Clone, PartialEq, Eq, Hash)]
pub struct IdempotencyKey(pub String);

impl IdempotencyKey {
    pub fn new(value: String) -> (k: Self)
        ensures
            k.0 == value,
    {
        IdempotencyKey(value)
    }
}

#[derive(Debug, Clone, PartialEq, Eq)]
pub struct TurnStartParams {
    pub model: String,
    pub prompt: String,
    pub session_id: Option<String>,
    pub cwd: Option<String>,
    pub idempotency_key: IdempotencyKey,
    pub agent: Option<String>,
    pub task_tier: Option<u8>,
    pub autonomous: Option<bool>,
    pub action: Option<RequestAction>,
    pub project_id: String,
}

#[derive(Debug, Clone, PartialEq, Eq)]
pub enum RequestAction {
    Submit,
    Command { command: String },
    PermissionReply { request_id: String, choice: TurnPermissionChoice },
    QuestionReply { question_id: String, answer: QuestionAnswer },
    DiffReply { path: String, decision: TurnDiffDecision },
    Cancel,
    Replay,
}

/// A typed answer to an interactive turn event.
#[derive(Debug, Clone, PartialEq, Eq)]
pub enum ClientResponse {
    Permission { request_id: String, choice: TurnPermissionChoice },
    Question { question_id: String, answer: QuestionAnswer },
    DiffHunk { request_id: String, path: String, index: u32, approved: bool },
}

#[derive(Debug, Clone, PartialEq, Eq)]
pub struct TurnResponseParams {
    pub session_id: String,
    pub turn_id: String,
    pub idempotency_key: IdempotencyKey,
    pub response: ClientResponse,
}

#[derive(Debug, Clone, PartialEq, Eq)]
pub struct TurnResponseResult {
    pub session_id: String,
    pub turn_id: String,
    pub accepted: bool,
}

#[derive(Debug, Clone, Copy, PartialEq, Eq)]
pub enum TurnPermissionChoice {
    AllowOnce,
    AllowAlways,
    AllowSession,
    DenyOnce,
    Reject,
    Inspect,
    Cancel,
}

/// A free-form answer to a rendered question control.
#[derive(Debug, Clone, PartialEq, Eq)]
pub struct QuestionAnswer(pub String);

#[derive(Debug, Clone, Copy, PartialEq, Eq)]
pub enum TurnDiffDecision {
    Approve,
    Reject,
}

#[derive(Debug, Clone, PartialEq, Eq)]
pub struct TurnStartResult {
    pub session_id: String,
    pub turn_id: String,
}

#[derive(Debug, Clone, PartialEq, Eq)]
pub struct TurnCancelParams {
    pub session_id: String,
    pub turn_id: String,
    pub idempotency_key: IdempotencyKey,
}

#[derive(Debug, Clone, PartialEq, Eq)]
pub struct TurnCancelResult {
    pub session_id: String,
    pub turn_id: String,
    pub cancelled: bool,
}

#[derive(Debug, Clone, PartialEq, Eq)]
pub struct TurnReplayParams {
    pub session_id: String,
    pub after_sequence: u64,
    pub limit: Option<u32>,
}

#[derive(Debug, Clone, PartialEq, Eq)]
pub struct TurnReplayResult {
    pub events: Vec<SequencedEvent>,
    pub next_sequence: Option<u64>,
    /// True when the requested cursor predates retained history.
    pub gap: bool,
}

#[derive(Debug, PartialEq, Eq)]
pub struct ArtifactReference {
    pub artifact_id: String,
    pub media_type: String,
    pub size_bytes: u64,
    pub content_hash: String,
    pub storage_ref: String,
}

#[derive(Debug, PartialEq, Eq)]
pub struct BoundedOutput {
    pub inline: String,
    pub truncated: bool,
    pub artifacts: Vec<ArtifactReference>,
}

/// Durable turn events.  Fields that hold arbitrary JSON on the wire
/// (`input`, `metadata`, `data`, `plan`, `usage`, `context`) carry its
/// serialized text.
#[derive(Debug, PartialEq, Eq)]
pub enum TurnEvent {
    TurnStarted { turn_id: String },
    TextDelta { turn_id: String, text: String },
    ReasoningDelta { turn_id: String, text: String },
    ToolOutput { turn_id: String, output: BoundedOutput },
    ToolStarted { turn_id: String, tool_call_id: String, tool: String, input: Option<String> },
    ToolStatus {
        turn_id: String,
        tool_call_id: String,
        status: ToolStatusValue,
        metadata: Option<String>,
    },
    ToolCompleted { turn_id: String, tool_call_id: String, output: Option<BoundedOutput> },
    ToolError { turn_id: String, tool_call_id: String, error: String },
    PermissionRequested { turn_id: String, request_id: String, tool: String, description: String },
    QuestionAsked { turn_id: String, question_id: String, question: String },
    DiffRequested { turn_id: String, request_id: String, path: String, diff: String },
    ArtifactCreated { turn_id: String, artifact: ArtifactReference },
    TurnCompleted { turn_id: String, message_id: Option<i64> },
    TurnCancelled { turn_id: String },
    TurnFailed { turn_id: String, message: String },
    CompactionStarted { turn_id: String },
    CompactionCompleted { turn_id: String, summary: Option<String> },
    SystemMessage { turn_id: String, message: String },
    IntegrationEvent { turn_id: String, integration: String, event: String, data: Option<String> },
    PlanUpdated { turn_id: String, plan: String },
    StatusChanged { turn_id: String, status: String, message: Option<String> },
    Telemetry { turn_id: String, usage: Option<String>, context: Option<String> },
}

impl Clone for ArtifactReference {
    fn clone(&self) -> (r: Self)
        ensures
            r == *self,
    {
        ArtifactReference {
            artifact_id: self.artifact_id.clone(),
            media_type: self.media_type.clone(),
            size_bytes: self.size_bytes,
            content_hash: self.content_hash.clone(),
            storage_ref: self.storage_ref.clone(),
        }
    }
}

/// Two outputs carry the same text, flag and artifacts.
pub open spec fn same_output(a: BoundedOutput, b: BoundedOutput) -> bool {
    a.inline == b.inline && a.truncated == b.truncated && a.artifacts@ == b.artifacts@
}

pub open spec fn same_opt_output(a: Option<BoundedOutput>, b: Option<BoundedOutput>) -> bool {
    match (a, b) {
        (Some(x), Some(y)) => same_output(x, y),
        (None, None) => true,
        _ => false,
    }
}

/// Two events are the same variant with the same fields (an output's
/// artifact list compared by its elements).
pub open spec fn same_event(a: TurnEvent, b: TurnEvent) -> bool {
    match a {
        TurnEvent::ToolOutput { turn_id, output } => b matches TurnEvent::ToolOutput {
            turn_id: t,
            output: o,
        } && t == turn_id && same_output(output, o),
        TurnEvent::ToolCompleted { turn_id, tool_call_id, output } => b matches TurnEvent::ToolCompleted {
            turn_id: t,
            tool_call_id: c,
            output: o,
        } && t == turn_id && c == tool_call_id && same_opt_output(output, o),
        _ => a == b,
    }
}

impl Clone for BoundedOutput {
    fn clone(&self) -> (r: Self)
        ensures
            same_output(*self, r),
    {
        let mut artifacts: Vec<ArtifactReference> = Vec::new();
        let mut i: usize = 0;
        while i < self.artifacts.len()
            invariant
                i <= self.artifacts@.len(),
                artifacts@ == self.artifacts@.take(i as int),
            decreases self.artifacts@.len() - i,
        {
            artifacts.push(self.artifacts[i].clone());
            i = i + 1;
            assert(artifacts@ =~= self.artifacts@.take(i as int));
        }
        assert(artifacts@ =~= self.artifacts@);
        BoundedOutput { inline: self.inline.clone(), truncated: self.truncated, artifacts }
    }
}

fn clone_opt_text(o: &Option<String>) -> (r: Option<String>)
    ensures
        r == *o,
{
    match o {
        Some(v) => Some(v.clone()),
        None => None,
    }
}

impl Clone for TurnEvent {
    fn clone(&self) -> (r: Self)
        ensures
            same_event(*self, r),
    {
        match self {
            TurnEvent::TurnStarted { turn_id } => TurnEvent::TurnStarted { turn_id: turn_id.clone() },
            TurnEvent::TextDelta { turn_id, text } => TurnEvent::TextDelta {
                turn_id: turn_id.clone(),
                text: text.clone(),
            },
            TurnEvent::ReasoningDelta { turn_id, text } => TurnEvent::ReasoningDelta {
                turn_id: turn_id.clone(),
                text: text.clone(),
            },
            TurnEvent::ToolOutput { turn_id, output } => TurnEvent::ToolOutput {
                turn_id: turn_id.clone(),
                output: output.clone(),
            },
            TurnEvent::ToolStarted { turn_id, tool_call_id, tool, input } => TurnEvent::ToolStarted {
                turn_id: turn_id.clone(),
                tool_call_id: tool_call_id.clone(),
                tool: tool.clone(),
                input: clone_opt_text(input),
            },
            TurnEvent::ToolStatus { turn_id, tool_call_id, status, metadata } => TurnEvent::ToolStatus {
                turn_id: turn_id.clone(),
                tool_call_id: tool_call_id.clone(),
                status: *status,
                metadata: clone_opt_text(metadata),
            },
            TurnEvent::ToolCompleted { turn_id, tool_call_id, output } => TurnEvent::ToolCompleted {
                turn_id: turn_id.clone(),
                tool_call_id: tool_call_id.clone(),
                output: match output {
                    Some(o) => Some(o.clone()),
                    None => None,
                },
            },
            TurnEvent::ToolError { turn_id, tool_call_id, error } => TurnEvent::ToolError {
                turn_id: turn_id.clone(),
                tool_call_id: tool_call_id.clone(),
                error: error.clone(),
            },
            TurnEvent::PermissionRequested { turn_id, request_id, tool, description } =>
                TurnEvent::PermissionRequested {
                turn_id: turn_id.clone(),
                request_id: request_id.clone(),
                tool: tool.clone(),
                description: description.clone(),
            },
            TurnEvent::QuestionAsked { turn_id, question_id, question } => TurnEvent::QuestionAsked {
                turn_id: turn_id.clone(),
                question_id: question_id.clone(),
                question: question.clone(),
            },
            TurnEvent::DiffRequested { turn_id, request_id, path, diff } => TurnEvent::DiffRequested {
                turn_id: turn_id.clone(),
                request_id: request_id.clone(),
                path: path.clone(),
                diff: diff.clone(),
            },
            TurnEvent::ArtifactCreated { turn_id, artifact } => TurnEvent::ArtifactCreated {
                turn_id: turn_id.clone(),
                artifact: artifact.clone(),
            },
            TurnEvent::TurnCompleted { turn_id, message_id } => TurnEvent::TurnCompleted {
                turn_id: turn_id.clone(),
                message_id: *message_id,
            },
            TurnEvent::TurnCancelled { turn_id } => TurnEvent::TurnCancelled { turn_id: turn_id.clone() },
            TurnEvent::TurnFailed { turn_id, message } => TurnEvent::TurnFailed {
                turn_id: turn_id.clone(),
                message: message.clone(),
            },
            TurnEvent::CompactionStarted { turn_id } => TurnEvent::CompactionStarted {
                turn_id: turn_id.clone(),
            },
            TurnEvent::CompactionCompleted { turn_id, summary } => TurnEvent::CompactionCompleted {
                turn_id: turn_id.clone(),
                summary: clone_opt_text(summary),
            },
            TurnEvent::SystemMessage { turn_id, message } => TurnEvent::SystemMessage {
                turn_id: turn_id.clone(),
                message: message.clone(),
            },
            TurnEvent::IntegrationEvent { turn_id, integration, event, data } =>
                TurnEvent::IntegrationEvent {
                turn_id: turn_id.clone(),
                integration: integration.clone(),
                event: event.clone(),
                data: clone_opt_text(data),
            },
            TurnEvent::PlanUpdated { turn_id, plan } => TurnEvent::PlanUpdated {
                turn_id: turn_id.clone(),
                plan: plan.clone(),
            },
            TurnEvent::StatusChanged { turn_id, status, message } => TurnEvent::StatusChanged {
                turn_id: turn_id.clone(),
                status: status.clone(),
                message: clone_opt_text(message),
            },
            TurnEvent::Telemetry { turn_id, usage, context } => TurnEvent::Telemetry {
                turn_id: turn_id.clone(),
                usage: clone_opt_text(usage),
                context: clone_opt_text(context),
            },
        }
    }
}

#[derive(Debug, Clone, Copy, PartialEq, Eq)]
pub enum ToolStatusValue {
    Pending,
    Running,
    Completed,
    Failed,
    Cancelled,
}

#[derive(Debug, Clone, PartialEq, Eq)]
pub struct SequencedEvent {
    pub event_id: String,
    pub session_id: String,
    pub sequence: u64,
    pub occurred_at: i64,
    pub request_id: Option<Id>,
    pub event: TurnEvent,
}

/// The turn that an event belongs to.
pub open spec fn spec_event_turn_id(event: TurnEvent) -> Seq<char> {
    match event {
        TurnEvent::TurnStarted { turn_id } => turn_id@,
        TurnEvent::TextDelta { turn_id, .. } => turn_id@,
        TurnEvent::ReasoningDelta { turn_id, .. } => turn_id@,
        TurnEvent::ToolOutput { turn_id, .. } => turn_id@,
        TurnEvent::ToolStarted { turn_id, .. } => turn_id@,
        TurnEvent::ToolStatus { turn_id, .. } => turn_id@,
        TurnEvent::ToolCompleted { turn_id, .. } => turn_id@,
        TurnEvent::ToolError { turn_id, .. } => turn_id@,
        TurnEvent::PermissionRequested { turn_id, .. } => turn_id@,
        TurnEvent::QuestionAsked { turn_id, .. } => turn_id@,
        TurnEvent::DiffRequested { turn_id, .. } => turn_id@,
        TurnEvent::ArtifactCreated { turn_id, .. } => turn_id@,
        TurnEvent::TurnCompleted { turn_id, .. } => turn_id@,
        TurnEvent::TurnCancelled { turn_id } => turn_id@,
        TurnEvent::TurnFailed { turn_id, .. } => turn_id@,
        TurnEvent::CompactionStarted { turn_id } => turn_id@,
        TurnEvent::CompactionCompleted { turn_id, .. } => turn_id@,
        TurnEvent::SystemMessage { turn_id, .. } => turn_id@,
        TurnEvent::IntegrationEvent { turn_id, .. } => turn_id@,
        TurnEvent::PlanUpdated { turn_id, .. } => turn_id@,
        TurnEvent::StatusChanged { turn_id, .. } => turn_id@,
        TurnEvent::Telemetry { turn_id, .. } => turn_id@,
    }
}

impl TurnEvent {
    /// The turn that this event belongs to.
    pub fn turn_id(&self) -> (id: &String)
        ensures
            id@ == spec_event_turn_id(*self),
    {
        match self {
            TurnEvent::TurnStarted { turn_id } => turn_id,
            TurnEvent::TextDelta { turn_id, .. } => turn_id,
            TurnEvent::ReasoningDelta { turn_id, .. } => turn_id,
            TurnEvent::ToolOutput { turn_id, .. } => turn_id,
            TurnEvent::ToolStarted { turn_id, .. } => turn_id,
            TurnEvent::ToolStatus { turn_id, .. } => turn_id,
            TurnEvent::ToolCompleted { turn_id, .. } => turn_id,
            TurnEvent::ToolError { turn_id, .. } => turn_id,
            TurnEvent::PermissionRequested { turn_id, .. } => turn_id,
            TurnEvent::QuestionAsked { turn_id, .. } => turn_id,
            TurnEvent::DiffRequested { turn_id, .. } => turn_id,
            TurnEvent::ArtifactCreated { turn_id, .. } => turn_id,
            TurnEvent::TurnCompleted { turn_id, .. } => turn_id,
            TurnEvent::TurnCancelled { turn_id } => turn_id,
            TurnEvent::TurnFailed { turn_id, .. } => turn_id,
            TurnEvent::CompactionStarted { turn_id } => turn_id,
            TurnEvent::CompactionCompleted { turn_id, .. } => turn_id,
            TurnEvent::SystemMessage { turn_id, .. } => turn_id,
            TurnEvent::IntegrationEvent { turn_id, .. } => turn_id,
            TurnEvent::PlanUpdated { turn_id, .. } => turn_id,
            TurnEvent::StatusChanged { turn_id, .. } => turn_id,
            TurnEvent::Telemetry { turn_id, .. } => turn_id,
        }
    }
}

} // verus!
