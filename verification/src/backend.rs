//! Values and decisions of the daemon adapter: turn requests, the daemon's
//! lifecycle and ownership decisions, interactive replies, cancellation and
//! replay requests, and the snapshot of server facts.
use crate::picker::PickerAction;
use crate::preferences::{toggled, with_recent, GuiPreferences, PrefsView};
use crate::proto::turn::{
    Capability, ClientResponse, IdempotencyKey, ProtocolNegotiateParams, ProtocolVersion,
    RequestAction, TurnCancelParams, TurnReplayParams, TurnResponseParams, TurnResponseResult,
    TurnStartParams,
};
use crate::text::{append_decimal, blank, decimal, is_blank, owned};
use vstd::prelude::*;
use vstd::string::*;

verus! {

#[derive(Debug, Clone, Copy, PartialEq, Eq, Structural)]
pub enum DaemonAction {
    /// Dismiss this warning only; keep ownership for this process.
    Okay,
    /// The caller is closing the GUI; ownership cleanup happens on drop.
    Quit,
    /// Release ownership of the child without changing future preferences.
    Disown,
    /// Persist disowned startup behaviour and release this child, if owned.
    AlwaysDisown,
    /// Persist hiding this warning, keeping the current ownership policy.
    NeverShowAgain,
    /// Retry connection and protocol negotiation without stopping a daemon.
    Retry,
    /// Stop and restart only the daemon owned by this backend.
    Restart,
}

#[derive(Debug, Clone, Copy, PartialEq, Eq, Structural)]
pub enum DaemonStatus {
    Absent,
    Spawning,
    Connecting,
    Negotiating,
    Incompatible,
    Degraded,
    Ready,
    Failed,
}

/// What the composer hands over for a turn: the prompt, the session it
/// continues, the project it runs in, and the chosen model and agent.
#[derive(Debug, Clone, PartialEq, Eq)]
pub struct TurnRequest {
    pub prompt: String,
    pub session_id: Option<String>,
    pub project_id: String,
    pub model: Option<String>,
    pub agent: Option<String>,
}

pub open spec fn opt_seq(o: Option<String>) -> Option<Seq<char>> {
    match o {
        Some(s) => Some(s@),
        None => None,
    }
}

/// Why a turn cannot start.
#[derive(Debug, Clone, PartialEq, Eq)]
pub enum TurnRequestError {
    /// No project is selected.
    MissingProject,
}

pub open spec fn missing_project_message() -> Seq<char> {
    "cannot start turn: select an active project first"@
}

impl TurnRequestError {
    /// The error's text.
    pub fn to_string(&self) -> (r: String)
        ensures
            r@ == missing_project_message(),
    {
        owned("cannot start turn: select an active project first")
    }
}

/// The idempotency key of a turn started at `nanos` past the Unix epoch:
/// `gui-` and the decimal count.
pub open spec fn turn_key(nanos: u128) -> Seq<char> {
    "gui-"@ + decimal(nanos as nat)
}

/// The turn parameters of a request, or why there are none: the request
/// needs a project; the model falls back to `default_model`.
pub open spec fn turn_params_ok(
    r: TurnRequest,
    cwd: Seq<char>,
    default_model: Seq<char>,
    key: Seq<char>,
    p: TurnStartParams,
) -> bool {
    &&& p.project_id@ == r.project_id@
    &&& p.model@ == match r.model {
        Some(m) => m@,
        None => default_model,
    }
    &&& p.prompt@ == r.prompt@
    &&& opt_seq(p.session_id) == opt_seq(r.session_id)
    &&& opt_seq(p.cwd) == Some(cwd)
    &&& opt_seq(p.agent) == opt_seq(r.agent)
    &&& p.task_tier is None
    &&& p.autonomous is None
    &&& p.action == Some(RequestAction::Submit)
    &&& p.idempotency_key.0@ == key
}

/// The system clock, in nanoseconds since the Unix epoch (0 for a clock set
/// before it).  Nothing is claimed of the value: it is the time of the call.
#[verifier::external_body]
fn clock_nanos() -> (n: u128) {
    std::time::SystemTime::now().duration_since(std::time::UNIX_EPOCH).map_or(0, |d| d.as_nanos())
}

impl TurnRequest {
    pub fn new(prompt: String, session_id: Option<String>) -> (r: Self)
        ensures
            r.prompt == prompt,
            r.session_id == session_id,
            r.project_id@ == Seq::<char>::empty(),
            r.model is None,
            r.agent is None,
    {
        TurnRequest { prompt, session_id, project_id: String::new(), model: None, agent: None }
    }

    /// Apply a picker choice: a chosen model or agent is kept; other picker
    /// actions do not concern the request.
    pub fn apply(&mut self, action: PickerAction)
        ensures
            match action {
                PickerAction::SelectModel(m) => *final(self) == TurnRequest {
                    model: Some(m),
                    ..*old(self)
                },
                PickerAction::SelectAgent(a) => *final(self) == TurnRequest {
                    agent: Some(a),
                    ..*old(self)
                },
                _ => *final(self) == *old(self),
            },
    {
        match action {
            PickerAction::SelectModel(model) => self.model = Some(model),
            PickerAction::SelectAgent(agent) => self.agent = Some(agent),
            PickerAction::ToggleFavorite(_) | PickerAction::RecordRecentModel(_)
            | PickerAction::OpenAgents | PickerAction::OpenModels | PickerAction::Dismiss => {},
        }
    }

    /// The turn parameters for a turn started at `nanos` past the Unix
    /// epoch.  A request without a project (blank id) is refused.
    pub fn into_params_at(self, cwd: String, default_model: String, nanos: u128) -> (r: Result<
        TurnStartParams,
        TurnRequestError,
    >)
        ensures
            match r {
                Ok(p) => !blank(self.project_id@) && turn_params_ok(
                    self,
                    cwd@,
                    default_model@,
                    turn_key(nanos),
                    p,
                ),
                Err(e) => blank(self.project_id@) && e == TurnRequestError::MissingProject,
            },
    {
        if is_blank(self.project_id.as_str()) {
            return Err(TurnRequestError::MissingProject);
        }
        let mut key = owned("gui-");
        append_decimal(&mut key, nanos);
        let model = match self.model {
            Some(m) => m,
            None => default_model,
        };
        Ok(
            TurnStartParams {
                project_id: self.project_id,
                model,
                prompt: self.prompt,
                session_id: self.session_id,
                cwd: Some(cwd),
                agent: self.agent,
                task_tier: None,
                autonomous: None,
                action: Some(RequestAction::Submit),
                idempotency_key: IdempotencyKey::new(key),
            },
        )
    }

    /// The turn parameters, keyed by the current time.
    pub fn into_params(self, cwd: String, default_model: String) -> (r: Result<
        TurnStartParams,
        TurnRequestError,
    >)
        ensures
            match r {
                Ok(p) => !blank(self.project_id@) && exists|nanos: u128|
                    turn_params_ok(self, cwd@, default_model@, #[trigger] turn_key(nanos), p),
                Err(e) => blank(self.project_id@) && e == TurnRequestError::MissingProject,
            },
    {
        let nanos = clock_nanos();
        self.into_params_at(cwd, default_model, nanos)
    }
}

impl Default for TurnRequest {
    fn default() -> (r: Self)
        ensures
            r.prompt@ == Seq::<char>::empty(),
            r.session_id is None,
            r.project_id@ == Seq::<char>::empty(),
            r.model is None,
            r.agent is None,
    {
        TurnRequest {
            prompt: String::new(),
            session_id: None,
            project_id: String::new(),
            model: None,
            agent: None,
        }
    }
}

/// Facts currently known by the backend, for the sidebar and view models.
/// Each is absent until the server reports it.
#[derive(Debug, Clone, PartialEq, Eq, Default)]
pub struct BackendSnapshot {
    pub model: Option<String>,
    pub agent: Option<String>,
    pub session: SessionSnapshot,
    pub cwd: Option<String>,
    pub plan: PlanSnapshot,
    pub lsp: ServiceSnapshot,
    pub usage: UsageSnapshot,
    pub mcp: ServiceSnapshot,
    pub task: TaskSnapshot,
    pub startup: StartupSnapshot,
}

#[derive(Debug, Clone, PartialEq, Eq, Default)]
pub struct SessionSnapshot {
    pub id: Option<String>,
    pub state: SessionState,
}

#[derive(Debug, Clone, Copy, PartialEq, Eq, Default)]
pub enum SessionState {
    #[default]
    Unavailable,
    Connected,
    Active,
}

#[derive(Debug, Clone, PartialEq, Eq, Default)]
pub struct PlanSnapshot {
    pub name: Option<String>,
    pub current_step: Option<String>,
    pub airtight: Option<bool>,
}

#[derive(Debug, Clone, PartialEq, Eq, Default)]
pub struct ServiceSnapshot {
    pub available: Option<bool>,
    pub detail: Option<String>,
}

#[derive(Debug, Clone, PartialEq, Eq, Default)]
pub struct UsageSnapshot {
    pub input_tokens: Option<u64>,
    pub output_tokens: Option<u64>,
    pub total_tokens: Option<u64>,
    pub context_tokens: Option<u64>,
}

#[derive(Debug, Clone, PartialEq, Eq, Default)]
pub struct TaskSnapshot {
    pub tier: Option<u8>,
    pub autonomous: Option<bool>,
}

#[derive(Debug, Clone, PartialEq, Eq, Default)]
pub enum StartupSnapshot {
    #[default]
    Loading,
    Ready,
    Unavailable,
    Error(String),
}

/// The daemon state a backend starts in: `Spawning` while a child it
/// started comes up, `Absent` otherwise.
pub fn initial_status(spawned_child: bool) -> (r: DaemonStatus)
    ensures
        r == (if spawned_child { DaemonStatus::Spawning } else { DaemonStatus::Absent }),
{
    if spawned_child {
        DaemonStatus::Spawning
    } else {
        DaemonStatus::Absent
    }
}

/// Whether the ownership warning is shown: only for a daemon this process
/// started, and only while the stored preferences (when they could be read)
/// have not turned it off.
pub fn shows_daemon_warning(auto_started: bool, stored_warning: Option<bool>) -> (r: bool)
    ensures
        r == (auto_started && match stored_warning {
            Some(w) => w,
            None => true,
        }),
{
    auto_started && match stored_warning {
        Some(w) => w,
        None => true,
    }
}

/// What protocol negotiation reported of the daemon.
#[derive(Debug, Clone, Copy, PartialEq, Eq, Structural)]
pub enum Compatibility {
    Compatible,
    Degraded,
    Incompatible,
}

/// What the adapter observed while starting a turn.
#[derive(Debug, Clone, Copy, PartialEq, Eq, Structural)]
pub enum LifecycleEvent {
    /// No session is open; a connection is being made.
    Connecting,
    /// The connection is made; negotiation starts.
    Connected,
    /// Negotiation answered with this compatibility.
    Negotiated(Compatibility),
    /// The daemon refused the negotiation request.
    NegotiationRefused,
    /// The turn failed for another reason (connection, timeout, stream).
    Failed,
}

/// The daemon state after `event`: negotiation decides between `Ready`,
/// `Degraded` and `Incompatible`; a later failure never hides an
/// incompatibility.
pub open spec fn status_after(status: DaemonStatus, event: LifecycleEvent) -> DaemonStatus {
    match event {
        LifecycleEvent::Connecting => DaemonStatus::Connecting,
        LifecycleEvent::Connected => DaemonStatus::Negotiating,
        LifecycleEvent::Negotiated(Compatibility::Compatible) => DaemonStatus::Ready,
        LifecycleEvent::Negotiated(Compatibility::Degraded) => DaemonStatus::Degraded,
        LifecycleEvent::Negotiated(Compatibility::Incompatible) => DaemonStatus::Incompatible,
        LifecycleEvent::NegotiationRefused => DaemonStatus::Incompatible,
        LifecycleEvent::Failed => if status == DaemonStatus::Incompatible {
            DaemonStatus::Incompatible
        } else {
            DaemonStatus::Failed
        },
    }
}

/// Whether the open session survives `event`: it is dropped when the daemon
/// is incompatible or the turn failed.
pub open spec fn keeps_session(event: LifecycleEvent) -> bool {
    match event {
        LifecycleEvent::Negotiated(Compatibility::Incompatible) => false,
        LifecycleEvent::NegotiationRefused => false,
        LifecycleEvent::Failed => false,
        _ => true,
    }
}

/// The step of the turn lifecycle for `event`: the next daemon state and
/// whether the session is kept.
pub fn on_lifecycle_event(status: DaemonStatus, event: LifecycleEvent) -> (r: (DaemonStatus, bool))
    ensures
        r.0 == status_after(status, event),
        r.1 == keeps_session(event),
{
    match event {
        LifecycleEvent::Connecting => (DaemonStatus::Connecting, true),
        LifecycleEvent::Connected => (DaemonStatus::Negotiating, true),
        LifecycleEvent::Negotiated(Compatibility::Compatible) => (DaemonStatus::Ready, true),
        LifecycleEvent::Negotiated(Compatibility::Degraded) => (DaemonStatus::Degraded, true),
        LifecycleEvent::Negotiated(Compatibility::Incompatible) => (DaemonStatus::Incompatible, false),
        LifecycleEvent::NegotiationRefused => (DaemonStatus::Incompatible, false),
        LifecycleEvent::Failed => {
            let next = match status {
                DaemonStatus::Incompatible => DaemonStatus::Incompatible,
                _ => DaemonStatus::Failed,
            };
            (next, false)
        },
    }
}

/// The capabilities the GUI asks for, in the order it asks.
pub open spec fn requested_capabilities() -> Seq<Capability> {
    seq![
        Capability::TurnStreaming,
        Capability::TurnCancellation,
        Capability::Idempotency,
        Capability::EventReplay,
    ]
}

/// The negotiation request: protocol 1.0 with the requested capabilities.
pub fn negotiation_params() -> (r: ProtocolNegotiateParams)
    ensures
        r.version.major == 1,
        r.version.minor == 0,
        r.capabilities@ == requested_capabilities(),
{
    let capabilities = vec![
        Capability::TurnStreaming,
        Capability::TurnCancellation,
        Capability::Idempotency,
        Capability::EventReplay,
    ];
    ProtocolNegotiateParams { version: ProtocolVersion { major: 1, minor: 0 }, capabilities }
}

/// A turn needs a selected project: a missing or blank id is refused
/// before anything is sent.
pub fn check_turn_project(project_id: &Option<String>) -> (r: Result<(), TurnRequestError>)
    ensures
        r is Err <==> match project_id {
            Some(p) => blank(p@),
            None => true,
        },
        r matches Err(e) ==> e == TurnRequestError::MissingProject,
{
    match project_id {
        Some(p) => if is_blank(p.as_str()) {
            Err(TurnRequestError::MissingProject)
        } else {
            Ok(())
        },
        None => Err(TurnRequestError::MissingProject),
    }
}

/// What a daemon decision does besides the stored preferences: whether the
/// owned child is released or stopped, whether the session is reset, and
/// the state the daemon is then reported in.
#[derive(Debug, Clone, Copy, PartialEq, Eq, Structural)]
pub struct DaemonEffect {
    pub release_child: bool,
    pub stop_child: bool,
    pub reset_session: bool,
    pub status: Option<DaemonStatus>,
}

pub open spec fn spec_daemon_effect(action: DaemonAction) -> DaemonEffect {
    DaemonEffect {
        release_child: action == DaemonAction::Disown || action == DaemonAction::AlwaysDisown,
        stop_child: action == DaemonAction::Restart,
        reset_session: action == DaemonAction::Retry || action == DaemonAction::Restart,
        status: if action == DaemonAction::Retry {
            Some(DaemonStatus::Connecting)
        } else if action == DaemonAction::Restart {
            Some(DaemonStatus::Absent)
        } else {
            None
        },
    }
}

pub fn daemon_effect(action: DaemonAction) -> (r: DaemonEffect)
    ensures
        r == spec_daemon_effect(action),
{
    match action {
        DaemonAction::Disown | DaemonAction::AlwaysDisown => DaemonEffect {
            release_child: true,
            stop_child: false,
            reset_session: false,
            status: None,
        },
        DaemonAction::Retry => DaemonEffect {
            release_child: false,
            stop_child: false,
            reset_session: true,
            status: Some(DaemonStatus::Connecting),
        },
        DaemonAction::Restart => DaemonEffect {
            release_child: false,
            stop_child: true,
            reset_session: true,
            status: Some(DaemonStatus::Absent),
        },
        DaemonAction::Okay | DaemonAction::Quit | DaemonAction::NeverShowAgain => DaemonEffect {
            release_child: false,
            stop_child: false,
            reset_session: false,
            status: None,
        },
    }
}

/// The stored preferences after a daemon decision: `NeverShowAgain` turns
/// the warning off, `AlwaysDisown` turns ownership off, others keep them.
pub fn apply_daemon_preference(preferences: &mut GuiPreferences, action: DaemonAction)
    ensures
        final(preferences)@ == (if action == DaemonAction::NeverShowAgain {
            PrefsView { daemon_warning: false, ..old(preferences)@ }
        } else if action == DaemonAction::AlwaysDisown {
            PrefsView { daemon_owned: false, ..old(preferences)@ }
        } else {
            old(preferences)@
        }),
{
    match action {
        DaemonAction::NeverShowAgain => preferences.daemon_warning = false,
        DaemonAction::AlwaysDisown => preferences.daemon_owned = false,
        _ => {},
    }
}

/// Why a picker choice cannot be stored.
#[derive(Debug, Clone, Copy, PartialEq, Eq, Structural)]
pub enum PickerChoiceError {
    /// Opening, switching or dismissing a picker stores nothing.
    NotPersistent,
}

/// Store a picker choice: a chosen model becomes the backend's model and is
/// recorded; an agent, a favorite or a recent model goes to the
/// preferences; picker navigation is refused and changes nothing.
pub fn apply_picker_choice(
    model: &mut String,
    preferences: &mut GuiPreferences,
    action: PickerAction,
) -> (r: Result<(), PickerChoiceError>)
    ensures
        match action {
            PickerAction::SelectModel(m) => r is Ok && final(model)@ == m@ && final(preferences)@
                == (PrefsView {
                selected_model: Some(m@),
                recent_models: with_recent(old(preferences)@.recent_models, m@),
                ..old(preferences)@
            }),
            PickerAction::SelectAgent(a) => r is Ok && *final(model) == *old(model)
                && final(preferences)@ == (PrefsView {
                selected_agent: Some(a@),
                ..old(preferences)@
            }),
            PickerAction::ToggleFavorite(m) => r is Ok && *final(model) == *old(model)
                && final(preferences)@ == (PrefsView {
                favorites: toggled(old(preferences)@.favorites, m@),
                ..old(preferences)@
            }),
            PickerAction::RecordRecentModel(m) => r is Ok && *final(model) == *old(model)
                && final(preferences)@ == (PrefsView {
                recent_models: with_recent(old(preferences)@.recent_models, m@),
                ..old(preferences)@
            }),
            _ => r == Err::<(), PickerChoiceError>(PickerChoiceError::NotPersistent)
                && *final(model) == *old(model) && final(preferences)@ == old(preferences)@,
        },
{
    match action {
        PickerAction::SelectModel(m) => {
            *model = m.clone();
            preferences.select_model(m);
            Ok(())
        },
        PickerAction::SelectAgent(a) => {
            preferences.select_agent(a);
            Ok(())
        },
        PickerAction::ToggleFavorite(m) => {
            preferences.toggle_favorite(m);
            Ok(())
        },
        PickerAction::RecordRecentModel(m) => {
            preferences.record_recent_model(m);
            Ok(())
        },
        PickerAction::OpenAgents | PickerAction::OpenModels | PickerAction::Dismiss => Err(
            PickerChoiceError::NotPersistent,
        ),
    }
}

/// A snapshot whose server facts are all unknown.
pub open spec fn unknown_plan() -> PlanSnapshot {
    PlanSnapshot { name: None, current_step: None, airtight: None }
}

pub open spec fn unknown_service() -> ServiceSnapshot {
    ServiceSnapshot { available: None, detail: None }
}

pub open spec fn unknown_usage() -> UsageSnapshot {
    UsageSnapshot {
        input_tokens: None,
        output_tokens: None,
        total_tokens: None,
        context_tokens: None,
    }
}

/// The facts the backend knows without asking the server: its model and
/// working directory, the session of the running turn, and whether a
/// session is connected.  Everything else stays unknown.
pub fn operational_snapshot(
    model: String,
    cwd: String,
    active_session: Option<String>,
    connected: bool,
) -> (r: BackendSnapshot)
    ensures
        r.model == Some(model),
        r.agent is None,
        r.session.id == active_session,
        r.session.state == (if active_session is Some {
            SessionState::Active
        } else if connected {
            SessionState::Connected
        } else {
            SessionState::Unavailable
        }),
        r.cwd == Some(cwd),
        r.plan == unknown_plan(),
        r.lsp == unknown_service(),
        r.usage == unknown_usage(),
        r.mcp == unknown_service(),
        r.task == (TaskSnapshot { tier: None, autonomous: None }),
        r.startup == (if connected { StartupSnapshot::Ready } else { StartupSnapshot::Unavailable }),
{
    let state = if active_session.is_some() {
        SessionState::Active
    } else if connected {
        SessionState::Connected
    } else {
        SessionState::Unavailable
    };
    BackendSnapshot {
        model: Some(model),
        agent: None,
        session: SessionSnapshot { id: active_session, state },
        cwd: Some(cwd),
        plan: PlanSnapshot { name: None, current_step: None, airtight: None },
        lsp: ServiceSnapshot { available: None, detail: None },
        usage: UsageSnapshot {
            input_tokens: None,
            output_tokens: None,
            total_tokens: None,
            context_tokens: None,
        },
        mcp: ServiceSnapshot { available: None, detail: None },
        task: TaskSnapshot { tier: None, autonomous: None },
        startup: if connected {
            StartupSnapshot::Ready
        } else {
            StartupSnapshot::Unavailable
        },
    }
}

/// The kind and request id an interactive answer refers to.
pub open spec fn response_target(r: ClientResponse) -> (Seq<char>, Seq<char>) {
    match r {
        ClientResponse::Permission { request_id, .. } => ("permission"@, request_id@),
        ClientResponse::Question { question_id, .. } => ("question"@, question_id@),
        ClientResponse::DiffHunk { request_id, .. } => ("diff"@, request_id@),
    }
}

/// The idempotency key of an interactive answer: one key per request, so
/// that a retried answer is recognised.
pub open spec fn response_key(r: ClientResponse) -> Seq<char> {
    "gui-response-"@ + response_target(r).0 + "-"@ + response_target(r).1
}

pub open spec fn no_active_turn_message() -> Seq<char> {
    "no active turn for interactive response"@
}

pub open spec fn rejected_response_message() -> Seq<char> {
    "daemon rejected interactive response"@
}

/// The request that carries an interactive answer for the running turn
/// (its session and turn), or why there is none.
pub fn response_params(response: ClientResponse, active: Option<(String, String)>) -> (r: Result<
    TurnResponseParams,
    String,
>)
    ensures
        match active {
            Some((session, turn)) => r matches Ok(p) && p.session_id == session && p.turn_id
                == turn && p.idempotency_key.0@ == response_key(response) && p.response
                == response,
            None => r matches Err(m) && m@ == no_active_turn_message(),
        },
{
    let (session_id, turn_id) = match active {
        Some(pair) => pair,
        None => return Err(owned("no active turn for interactive response")),
    };
    let mut key = owned("gui-response-");
    match &response {
        ClientResponse::Permission { request_id, .. } => {
            key.append("permission-");
            key.append(request_id.as_str());
        },
        ClientResponse::Question { question_id, .. } => {
            key.append("question-");
            key.append(question_id.as_str());
        },
        ClientResponse::DiffHunk { request_id, .. } => {
            key.append("diff-");
            key.append(request_id.as_str());
        },
    }
    proof {
        reveal_strlit("permission-");
        reveal_strlit("question-");
        reveal_strlit("diff-");
        reveal_strlit("permission");
        reveal_strlit("question");
        reveal_strlit("diff");
        reveal_strlit("-");
    }
    assert(key@ =~= response_key(response));
    Ok(TurnResponseParams { session_id, turn_id, idempotency_key: IdempotencyKey::new(key), response })
}

/// What the daemon's answer to an interactive reply means: accepted, or
/// rejected; a transport error is passed on.
pub fn response_outcome(reply: Result<TurnResponseResult, String>) -> (r: Result<(), String>)
    ensures
        match reply {
            Ok(ack) => if ack.accepted {
                r is Ok
            } else {
                r matches Err(m) && m@ == rejected_response_message()
            },
            Err(e) => r == Err::<(), String>(e),
        },
{
    match reply {
        Ok(ack) => if ack.accepted {
            Ok(())
        } else {
            Err(owned("daemon rejected interactive response"))
        },
        Err(e) => Err(e),
    }
}

/// The idempotency key of a cancellation sent at `nanos` past the epoch.
pub open spec fn cancel_key(nanos: u128) -> Seq<char> {
    "gui-cancel-"@ + decimal(nanos as nat)
}

/// The cancellation of the running turn, keyed by the time it was asked for.
pub fn cancel_params_at(session_id: String, turn_id: String, nanos: u128) -> (r: TurnCancelParams)
    ensures
        r.session_id == session_id,
        r.turn_id == turn_id,
        r.idempotency_key.0@ == cancel_key(nanos),
{
    let mut key = owned("gui-cancel-");
    append_decimal(&mut key, nanos);
    TurnCancelParams { session_id, turn_id, idempotency_key: IdempotencyKey::new(key) }
}

/// The cancellation of the running turn, keyed by the current time.
pub fn cancel_params(session_id: String, turn_id: String) -> (r: TurnCancelParams)
    ensures
        r.session_id == session_id,
        r.turn_id == turn_id,
        exists|nanos: u128| r.idempotency_key.0@ == #[trigger] cancel_key(nanos),
{
    cancel_params_at(session_id, turn_id, clock_nanos())
}

/// Replay asks only for event replay.
pub fn replay_negotiation_params() -> (r: ProtocolNegotiateParams)
    ensures
        r.version.major == 1,
        r.version.minor == 0,
        r.capabilities@ == seq![Capability::EventReplay],
{
    ProtocolNegotiateParams {
        version: ProtocolVersion { major: 1, minor: 0 },
        capabilities: vec![Capability::EventReplay],
    }
}

/// The replay of a session after a sequence number, at most five hundred
/// events at a time.
pub fn replay_params(session_id: String, after_sequence: u64) -> (r: TurnReplayParams)
    ensures
        r.session_id == session_id,
        r.after_sequence == after_sequence,
        r.limit == Some(500u32),
{
    TurnReplayParams { session_id, after_sequence, limit: Some(500) }
}

pub open spec fn no_session_project_message() -> Seq<char> {
    "cannot access session: select an active project first"@
}

/// Session requests need a selected project: a blank id is refused.
pub fn check_session_project(project_id: &str) -> (r: Result<(), String>)
    ensures
        r is Err <==> blank(project_id@),
        r matches Err(m) ==> m@ == no_session_project_message(),
{
    if is_blank(project_id) {
        Err(owned("cannot access session: select an active project first"))
    } else {
        Ok(())
    }
}

/// Once the daemon is found incompatible it stays so through any later
/// failure; only a new negotiation or connection changes it.
pub proof fn law_incompatibility_survives_failures(events: Seq<LifecycleEvent>)
    requires
        forall|i: int| 0 <= i < events.len() ==> #[trigger] events[i] == LifecycleEvent::Failed,
    ensures
        status_after_all(DaemonStatus::Incompatible, events) == DaemonStatus::Incompatible,
    decreases events.len(),
{
    if events.len() > 0 {
        assert forall|i: int| 0 <= i < events.drop_last().len() implies #[trigger] events.drop_last()[i]
            == LifecycleEvent::Failed by {
            assert(events.drop_last()[i] == events[i]);
        }
        law_incompatibility_survives_failures(events.drop_last());
    }
}

/// The daemon state after a run of events.
pub open spec fn status_after_all(status: DaemonStatus, events: Seq<LifecycleEvent>) -> DaemonStatus
    decreases events.len(),
{
    if events.len() == 0 {
        status
    } else {
        status_after(status_after_all(status, events.drop_last()), events.last())
    }
}

} // verus!
