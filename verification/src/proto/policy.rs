//! Typed interactive policy protocol.
use vstd::prelude::*;
use crate::text::{blank, is_blank};

verus! {

pub const METHOD_PERMISSION_REQUEST: &'static str = "policy.permission.request";
pub const METHOD_PERMISSION_REPLY: &'static str = "policy.permission.reply";
pub const METHOD_QUESTION_REQUEST: &'static str = "policy.question.request";
pub const METHOD_QUESTION_REPLY: &'static str = "policy.question.reply";
pub const METHOD_DIFF_REQUEST: &'static str = "policy.diff.request";
pub const METHOD_DIFF_DECISION: &'static str = "policy.diff.decision";
pub const METHOD_PLAN_REQUEST: &'static str = "policy.plan.request";
pub const METHOD_PLAN_REPLY: &'static str = "policy.plan.reply";
pub const METHOD_AUTONOMY_SET: &'static str = "policy.autonomy.set";
pub const METHOD_STEERING_ACTION: &'static str = "policy.steering.action";
pub const METHOD_PROMPT_TAKEOVER: &'static str = "policy.prompt.takeover";
pub const METHOD_AIRTIGHT_REQUEST: &'static str = "policy.airtight.request";
pub const METHOD_AIRTIGHT_REPLY: &'static str = "policy.airtight.reply";

/// Names the first required field that was blank.
#[derive(Debug, Clone, PartialEq, Eq)]
pub struct ValidationError(pub &'static str);

impl ValidationError {
    /// The message a `Display` of this error shows: the field's name.
    pub fn message(&self) -> (s: &'static str)
        ensures
            s == self.0,
    {
        self.0
    }
}

fn required(value: &str, name: &'static str) -> (r: Result<(), ValidationError>)
    ensures
        r == (if blank(value@) { Err(ValidationError(name)) } else { Ok(()) }),
{
    if is_blank(value) {
        Err(ValidationError(name))
    } else {
        Ok(())
    }
}

pub trait Validate {
    fn validate(&self) -> Result<(), ValidationError>;
}

#[derive(Debug, Clone, PartialEq, Eq)]
pub struct PromptTakeover {
    pub request_id: String,
    pub idempotency_key: String,
}

#[derive(Debug, Clone, PartialEq, Eq)]
pub struct AirtightPromptRequest {
    pub request_id: String,
    pub session_id: String,
    pub plan_id: String,
    pub revision: u64,
    pub step: usize,
    pub initiating_client_id: String,
}

#[derive(Debug, Clone, PartialEq, Eq)]
pub struct AirtightPromptReply {
    pub request_id: String,
    pub idempotency_key: String,
    pub granted: bool,
    pub actor: PromptActor,
}

#[derive(Debug, Clone, Copy, PartialEq, Eq)]
pub enum PermissionScope {
    Once,
    Session,
    Global,
    AlwaysAllow,
    AlwaysReject,
}

#[derive(Debug, Clone, Copy, PartialEq, Eq)]
pub enum PermissionChoice {
    Allow,
    Reject,
}

#[derive(Debug, Clone, Copy, PartialEq, Eq)]
pub enum PromptActor {
    Human,
    SteeringAgent,
    SuperAgent,
}

/// `arguments` is the tool's JSON arguments in serialized form.
#[derive(Debug, Clone, PartialEq, Eq)]
pub struct PermissionRequest {
    pub request_id: String,
    pub session_id: String,
    pub turn_id: String,
    pub tool: String,
    pub arguments: String,
    pub initiating_client_id: String,
}

#[derive(Debug, Clone, PartialEq, Eq)]
pub struct PermissionReply {
    pub request_id: String,
    pub idempotency_key: String,
    pub choice: PermissionChoice,
    pub scope: PermissionScope,
    pub actor: PromptActor,
}

#[derive(Debug, Clone, PartialEq, Eq)]
pub struct QuestionRequest {
    pub request_id: String,
    pub session_id: String,
    pub turn_id: String,
    pub question: String,
    pub options: Vec<String>,
    pub initiating_client_id: String,
}

#[derive(Debug, Clone, PartialEq, Eq)]
pub struct QuestionReply {
    pub request_id: String,
    pub idempotency_key: String,
    pub answer: String,
    pub actor: PromptActor,
}

#[derive(Debug, Clone, PartialEq, Eq)]
pub struct DiffRequest {
    pub request_id: String,
    pub session_id: String,
    pub turn_id: String,
    pub files: Vec<DiffFile>,
    pub initiating_client_id: String,
}

#[derive(Debug, Clone, PartialEq, Eq)]
pub struct DiffFile {
    pub path: String,
    pub hunks: Vec<DiffHunk>,
    pub binary: bool,
}

#[derive(Debug, Clone, PartialEq, Eq)]
pub struct DiffHunk {
    pub id: String,
    pub patch: String,
}

#[derive(Debug, Clone, PartialEq, Eq)]
pub struct DiffDecision {
    pub request_id: String,
    pub idempotency_key: String,
    pub decisions: Vec<HunkDecision>,
    pub actor: PromptActor,
}

/// Typed acknowledgement for a diff prompt.
#[derive(Debug, Clone, PartialEq, Eq)]
pub struct DiffReply {
    pub request_id: String,
    pub idempotency_key: String,
    pub accepted: bool,
    pub decisions: Vec<HunkDecision>,
    pub actor: PromptActor,
}

#[derive(Debug, Clone, PartialEq, Eq)]
pub struct HunkDecision {
    pub file: String,
    pub hunk: Option<String>,
    pub accept: bool,
}

#[derive(Debug, Clone, PartialEq, Eq)]
pub struct PlanRequest {
    pub request_id: String,
    pub session_id: String,
    pub revision: u64,
    pub action: PlanAction,
    pub actor: PromptActor,
}

#[derive(Debug, Clone, PartialEq, Eq)]
pub enum PlanAction {
    Read,
    Revise { payload: String },
    SetCurrent { step: usize },
    MarkItem { step: usize, item: usize, checked: bool },
    RequestAirtight { step: usize },
    GrantAirtight { step: usize },
    RevokeAirtight { step: usize },
    Render,
}

#[derive(Debug, Clone, PartialEq, Eq)]
pub struct PlanReply {
    pub request_id: String,
    pub idempotency_key: String,
    pub accepted: bool,
    pub revision: u64,
    pub actor: PromptActor,
}

#[derive(Debug, Clone, Copy, PartialEq, Eq)]
pub enum AutonomyMode {
    Manual,
    Normal,
    Super,
}

#[derive(Debug, Clone, PartialEq, Eq)]
pub struct AutonomySet {
    pub session_id: String,
    pub idempotency_key: String,
    pub mode: AutonomyMode,
    pub risk_accepted: bool,
}

#[derive(Debug, Clone, PartialEq, Eq)]
pub struct SteeringAction {
    pub session_id: String,
    pub idempotency_key: String,
    pub run_id: String,
    pub action: SteeringActionKind,
    pub actor: PromptActor,
}

#[derive(Debug, Clone, PartialEq, Eq)]
pub enum SteeringActionKind {
    Answer { request_id: String, answer: String },
    GrantAirtight { plan_id: String, revision: u64, step: usize },
    CompleteGoal { report: String },
}

impl Validate for PromptTakeover {
    fn validate(&self) -> (r: Result<(), ValidationError>)
        ensures
            r == (if blank(self.request_id@) { Err(ValidationError("request_id")) } else if blank(self.idempotency_key@) { Err(ValidationError("idempotency_key")) } else { Ok(()) }),
    {
        required(self.request_id.as_str(), "request_id")?;
        required(self.idempotency_key.as_str(), "idempotency_key")
    }
}

impl Validate for PermissionReply {
    fn validate(&self) -> (r: Result<(), ValidationError>)
        ensures
            r == (if blank(self.request_id@) { Err(ValidationError("request_id")) } else if blank(self.idempotency_key@) { Err(ValidationError("idempotency_key")) } else { Ok(()) }),
    {
        required(self.request_id.as_str(), "request_id")?;
        required(self.idempotency_key.as_str(), "idempotency_key")
    }
}

impl Validate for QuestionReply {
    fn validate(&self) -> (r: Result<(), ValidationError>)
        ensures
            r == (if blank(self.request_id@) { Err(ValidationError("request_id")) } else if blank(self.idempotency_key@) { Err(ValidationError("idempotency_key")) } else { Ok(()) }),
    {
        required(self.request_id.as_str(), "request_id")?;
        required(self.idempotency_key.as_str(), "idempotency_key")
    }
}

impl Validate for DiffDecision {
    fn validate(&self) -> (r: Result<(), ValidationError>)
        ensures
            r == (if blank(self.request_id@) { Err(ValidationError("request_id")) } else if blank(self.idempotency_key@) { Err(ValidationError("idempotency_key")) } else { Ok(()) }),
    {
        required(self.request_id.as_str(), "request_id")?;
        required(self.idempotency_key.as_str(), "idempotency_key")
    }
}

impl Validate for DiffReply {
    fn validate(&self) -> (r: Result<(), ValidationError>)
        ensures
            r == (if blank(self.request_id@) { Err(ValidationError("request_id")) } else if blank(self.idempotency_key@) { Err(ValidationError("idempotency_key")) } else { Ok(()) }),
    {
        required(self.request_id.as_str(), "request_id")?;
        required(self.idempotency_key.as_str(), "idempotency_key")
    }
}

impl Validate for PlanReply {
    fn validate(&self) -> (r: Result<(), ValidationError>)
        ensures
            r == (if blank(self.request_id@) { Err(ValidationError("request_id")) } else if blank(self.idempotency_key@) { Err(ValidationError("idempotency_key")) } else { Ok(()) }),
    {
        required(self.request_id.as_str(), "request_id")?;
        required(self.idempotency_key.as_str(), "idempotency_key")
    }
}

impl Validate for AirtightPromptReply {
    fn validate(&self) -> (r: Result<(), ValidationError>)
        ensures
            r == (if blank(self.request_id@) { Err(ValidationError("request_id")) } else if blank(self.idempotency_key@) { Err(ValidationError("idempotency_key")) } else { Ok(()) }),
    {
        required(self.request_id.as_str(), "request_id")?;
        required(self.idempotency_key.as_str(), "idempotency_key")
    }
}

impl Validate for PermissionRequest {
    fn validate(&self) -> (r: Result<(), ValidationError>)
        ensures
            r == (if blank(self.request_id@) { Err(ValidationError("request_id")) } else if blank(self.session_id@) { Err(ValidationError("session_id")) } else if blank(self.turn_id@) { Err(ValidationError("turn_id")) } else if blank(self.tool@) { Err(ValidationError("tool")) } else if blank(self.initiating_client_id@) { Err(ValidationError("initiating_client_id")) } else { Ok(()) }),
    {
        required(self.request_id.as_str(), "request_id")?;
        required(self.session_id.as_str(), "session_id")?;
        required(self.turn_id.as_str(), "turn_id")?;
        required(self.tool.as_str(), "tool")?;
        required(self.initiating_client_id.as_str(), "initiating_client_id")
    }
}

impl Validate for QuestionRequest {
    fn validate(&self) -> (r: Result<(), ValidationError>)
        ensures
            r == (if blank(self.request_id@) { Err(ValidationError("request_id")) } else if blank(self.session_id@) { Err(ValidationError("session_id")) } else if blank(self.turn_id@) { Err(ValidationError("turn_id")) } else if blank(self.question@) { Err(ValidationError("question")) } else if blank(self.initiating_client_id@) { Err(ValidationError("initiating_client_id")) } else { Ok(()) }),
    {
        required(self.request_id.as_str(), "request_id")?;
        required(self.session_id.as_str(), "session_id")?;
        required(self.turn_id.as_str(), "turn_id")?;
        required(self.question.as_str(), "question")?;
        required(self.initiating_client_id.as_str(), "initiating_client_id")
    }
}

impl Validate for AirtightPromptRequest {
    fn validate(&self) -> (r: Result<(), ValidationError>)
        ensures
            r == (if blank(self.request_id@) { Err(ValidationError("request_id")) } else if blank(self.session_id@) { Err(ValidationError("session_id")) } else if blank(self.plan_id@) { Err(ValidationError("plan_id")) } else if blank(self.initiating_client_id@) { Err(ValidationError("initiating_client_id")) } else { Ok(()) }),
    {
        required(self.request_id.as_str(), "request_id")?;
        required(self.session_id.as_str(), "session_id")?;
        required(self.plan_id.as_str(), "plan_id")?;
        required(self.initiating_client_id.as_str(), "initiating_client_id")
    }
}

} // verus!
