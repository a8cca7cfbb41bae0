//! Lossless, typography-first projection of the typed conversation journal.
//!
//! A feed item is presentation metadata only.  The protocol event, ids and
//! sequence stay attached to it, so controls can dispatch typed responses
//! without recovering meaning from labels or rendered text.
use crate::chat::{EventKind, Role, TypedEvent};
use crate::proto::turn::{same_event, ToolStatusValue};
use crate::text::{append_decimal, append_signed, decimal, owned, push_char, signed_decimal};
use vstd::prelude::*;
use vstd::string::*;

verus! {

pub const DEFAULT_COLLAPSE_AT: usize = 2000;

#[derive(Debug, Clone, Copy, PartialEq, Eq, Structural)]
pub enum FeedCategory {
    Human,
    Assistant,
    Reasoning,
    Tool,
    Permission,
    Question,
    Diff,
    Plan,
    System,
    Integration,
    Compaction,
    Error,
    Cancel,
    Lifecycle,
    Other,
}

#[derive(Debug, Clone, Copy, PartialEq, Eq, Structural)]
pub enum FeedAction {
    ToggleTool,
    RespondPermission,
    AnswerQuestion,
    ReviewDiff,
}

/// Which typed responses an item offers, with the ids they dispatch with.
#[derive(Debug, Clone, PartialEq, Eq)]
pub struct ActionReachability {
    pub tool_toggle: bool,
    pub tool_toggle_id: Option<String>,
    pub permission: bool,
    pub permission_id: Option<String>,
    pub question: bool,
    pub question_id: Option<String>,
    pub diff: bool,
    pub diff_request_id: Option<String>,
}

pub struct ActionsView {
    pub tool_toggle: bool,
    pub tool_toggle_id: Option<Seq<char>>,
    pub permission: bool,
    pub permission_id: Option<Seq<char>>,
    pub question: bool,
    pub question_id: Option<Seq<char>>,
    pub diff: bool,
    pub diff_request_id: Option<Seq<char>>,
}

pub open spec fn opt_seq(o: Option<String>) -> Option<Seq<char>> {
    match o {
        Some(s) => Some(s@),
        None => None,
    }
}

impl View for ActionReachability {
    type V = ActionsView;

    open spec fn view(&self) -> ActionsView {
        ActionsView {
            tool_toggle: self.tool_toggle,
            tool_toggle_id: opt_seq(self.tool_toggle_id),
            permission: self.permission,
            permission_id: opt_seq(self.permission_id),
            question: self.question,
            question_id: opt_seq(self.question_id),
            diff: self.diff,
            diff_request_id: opt_seq(self.diff_request_id),
        }
    }
}

pub open spec fn no_actions() -> ActionsView {
    ActionsView {
        tool_toggle: false,
        tool_toggle_id: None,
        permission: false,
        permission_id: None,
        question: false,
        question_id: None,
        diff: false,
        diff_request_id: None,
    }
}

impl Default for ActionReachability {
    fn default() -> (a: Self)
        ensures
            a@ == no_actions(),
    {
        ActionReachability {
            tool_toggle: false,
            tool_toggle_id: None,
            permission: false,
            permission_id: None,
            question: false,
            question_id: None,
            diff: false,
            diff_request_id: None,
        }
    }
}

pub open spec fn if_enabled(enabled: bool, action: FeedAction) -> Seq<FeedAction> {
    if enabled {
        seq![action]
    } else {
        Seq::empty()
    }
}

/// The enabled actions, in a fixed order.
pub open spec fn enabled_actions(a: ActionsView) -> Seq<FeedAction> {
    if_enabled(a.tool_toggle, FeedAction::ToggleTool) + if_enabled(
        a.permission,
        FeedAction::RespondPermission,
    ) + if_enabled(a.question, FeedAction::AnswerQuestion) + if_enabled(
        a.diff,
        FeedAction::ReviewDiff,
    )
}

impl ActionReachability {
    pub fn actions(&self) -> (r: Vec<FeedAction>)
        ensures
            r@ == enabled_actions(self@),
    {
        let mut r: Vec<FeedAction> = Vec::new();
        if self.tool_toggle {
            r.push(FeedAction::ToggleTool);
        }
        if self.permission {
            r.push(FeedAction::RespondPermission);
        }
        if self.question {
            r.push(FeedAction::AnswerQuestion);
        }
        if self.diff {
            r.push(FeedAction::ReviewDiff);
        }
        assert(r@ =~= enabled_actions(self@));
        r
    }
}

#[derive(Debug, Clone, Copy, PartialEq, Eq, Structural)]
pub struct FeedState {
    pub following: bool,
    pub streaming: bool,
}

/// One projected journal entry.  The JSON form of `raw` is rendered by the
/// adapter that owns serialization.
#[derive(Debug, Clone, PartialEq)]
pub struct FeedItem {
    pub event_id: String,
    pub session_id: String,
    pub turn_id: String,
    pub sequence: u64,
    pub timestamp: i64,
    pub request_id: Option<String>,
    pub role: Role,
    pub category: FeedCategory,
    pub avatar: char,
    pub role_mark: &'static str,
    pub readable_width: bool,
    pub compact_metadata: bool,
    pub detail: String,
    pub preview: String,
    pub collapsed: bool,
    pub raw: crate::proto::turn::TurnEvent,
    pub actions: ActionReachability,
}

impl FeedItem {
    pub fn action_list(&self) -> (r: Vec<FeedAction>)
        ensures
            r@ == enabled_actions(self.actions@),
    {
        self.actions.actions()
    }

    /// The preview while collapsed, else the whole detail.
    pub fn visible_detail(&self) -> (r: &str)
        ensures
            r@ == if self.collapsed {
                self.preview@
            } else {
                self.detail@
            },
    {
        if self.collapsed {
            self.preview.as_str()
        } else {
            self.detail.as_str()
        }
    }
}

/// `sep` and the value when there is one.
pub open spec fn suffix(sep: Seq<char>, o: Option<String>) -> Seq<char> {
    match o {
        Some(v) => sep + v@,
        None => Seq::empty(),
    }
}

pub open spec fn or_text(o: Option<String>, fallback: Seq<char>) -> Seq<char> {
    match o {
        Some(v) => v@,
        None => fallback,
    }
}

/// `{:?}` of a tool status.
pub open spec fn status_name(s: ToolStatusValue) -> Seq<char> {
    match s {
        ToolStatusValue::Pending => "Pending"@,
        ToolStatusValue::Running => "Running"@,
        ToolStatusValue::Completed => "Completed"@,
        ToolStatusValue::Failed => "Failed"@,
        ToolStatusValue::Cancelled => "Cancelled"@,
    }
}

pub open spec fn nl() -> Seq<char> {
    seq!['\n']
}

/// The category, role and detail text that a kind of event is shown with,
/// and the responses it offers.
pub open spec fn classified(kind: EventKind) -> (FeedCategory, Role, Seq<char>, ActionsView) {
    let none = no_actions();
    match kind {
        EventKind::TextDelta { text } => (FeedCategory::Assistant, Role::Assistant, text@, none),
        EventKind::ReasoningDelta { text } => (
            FeedCategory::Reasoning,
            Role::Assistant,
            text@,
            none,
        ),
        EventKind::ToolStarted { call_id, tool, input } => (
            FeedCategory::Tool,
            Role::Tool,
            tool@ + suffix(nl(), input),
            ActionsView { tool_toggle: true, tool_toggle_id: Some(call_id@), ..none },
        ),
        EventKind::ToolOutput { inline, .. } => (FeedCategory::Tool, Role::Tool, inline@, none),
        EventKind::ToolError { error, .. } => (FeedCategory::Tool, Role::Tool, error@, none),
        EventKind::ToolStatus { status, metadata, .. } => (
            FeedCategory::Tool,
            Role::Tool,
            status_name(status) + suffix(nl(), metadata),
            none,
        ),
        EventKind::ToolCompleted { output, .. } => (
            FeedCategory::Tool,
            Role::Tool,
            or_text(output, Seq::empty()),
            none,
        ),
        EventKind::PermissionRequested { permission_id, description, .. } => (
            FeedCategory::Permission,
            Role::System,
            description@,
            ActionsView { permission: true, permission_id: Some(permission_id@), ..none },
        ),
        EventKind::QuestionAsked { question_id, question } => (
            FeedCategory::Question,
            Role::System,
            question@,
            ActionsView { question: true, question_id: Some(question_id@), ..none },
        ),
        EventKind::DiffRequested { request_id, path, diff } => (
            FeedCategory::Diff,
            Role::System,
            path@ + nl() + diff@,
            ActionsView { diff: true, diff_request_id: Some(request_id@), ..none },
        ),
        EventKind::PlanUpdated { plan } => (FeedCategory::Plan, Role::System, plan@, none),
        EventKind::SystemMessage { message } => (
            FeedCategory::System,
            Role::System,
            message@,
            none,
        ),
        EventKind::IntegrationEvent { integration, event, data } => (
            FeedCategory::Integration,
            Role::System,
            integration@ + ": "@ + event@ + suffix(nl(), data),
            none,
        ),
        EventKind::CompactionStarted => (
            FeedCategory::Compaction,
            Role::System,
            "Compaction started"@,
            none,
        ),
        EventKind::CompactionCompleted { summary } => (
            FeedCategory::Compaction,
            Role::System,
            or_text(summary, "Compaction completed"@),
            none,
        ),
        EventKind::Failed { message } => (FeedCategory::Error, Role::System, message@, none),
        EventKind::Cancelled => (FeedCategory::Cancel, Role::System, "Turn cancelled"@, none),
        EventKind::Started => (FeedCategory::Lifecycle, Role::System, "Turn started"@, none),
        EventKind::Completed { message_id } => (
            FeedCategory::Lifecycle,
            Role::System,
            "Turn completed"@ + match message_id {
                Some(id) => " (message "@ + signed_decimal(id as int) + ")"@,
                None => Seq::empty(),
            },
            none,
        ),
        EventKind::ArtifactCreated { artifact_id, media_type, size_bytes, storage_ref, .. } => (
            FeedCategory::Other,
            Role::System,
            artifact_id@ + " · "@ + media_type@ + " · "@ + decimal(size_bytes as nat)
                + " bytes · "@ + storage_ref@,
            none,
        ),
        EventKind::StatusChanged { status, message } => (
            FeedCategory::System,
            Role::System,
            status@ + suffix(": "@, message),
            none,
        ),
        EventKind::Telemetry { usage, context } => (
            FeedCategory::Other,
            Role::System,
            "usage="@ + or_text(usage, "unavailable"@) + " context="@ + or_text(
                context,
                "unavailable"@,
            ),
            none,
        ),
        EventKind::Other => (FeedCategory::Other, Role::System, "Unknown typed event"@, none),
    }
}

fn with_suffix(head: String, sep: &str, tail: &Option<String>) -> (r: String)
    ensures
        r@ == head@ + suffix(sep@, *tail),
{
    let mut out = head;
    match tail {
        Some(v) => {
            out.append(sep);
            out.append(v.as_str());
        },
        None => {
            assert(out@ =~= head@ + suffix(sep@, *tail));
        },
    }
    out
}

fn text_or(o: &Option<String>, fallback: &str) -> (r: String)
    ensures
        r@ == or_text(*o, fallback@),
{
    match o {
        Some(v) => owned(v.as_str()),
        None => owned(fallback),
    }
}

fn status_text(s: ToolStatusValue) -> (r: String)
    ensures
        r@ == status_name(s),
{
    match s {
        ToolStatusValue::Pending => owned("Pending"),
        ToolStatusValue::Running => owned("Running"),
        ToolStatusValue::Completed => owned("Completed"),
        ToolStatusValue::Failed => owned("Failed"),
        ToolStatusValue::Cancelled => owned("Cancelled"),
    }
}

fn newline() -> (r: &'static str)
    ensures
        r@ == nl(),
{
    let r = "\n";
    proof {
        reveal_strlit("\n");
    }
    assert(r@ =~= nl());
    r
}

/// The category, role, detail and responses of an event kind.
pub fn classify(kind: &EventKind) -> (r: (FeedCategory, Role, String, ActionReachability))
    ensures
        (r.0, r.1, r.2@, r.3@) == classified(*kind),
{
    let mut actions = ActionReachability::default();
    match kind {
        EventKind::TextDelta { text } => (
            FeedCategory::Assistant,
            Role::Assistant,
            owned(text.as_str()),
            actions,
        ),
        EventKind::ReasoningDelta { text } => (
            FeedCategory::Reasoning,
            Role::Assistant,
            owned(text.as_str()),
            actions,
        ),
        EventKind::ToolStarted { call_id, tool, input } => {
            actions.tool_toggle = true;
            actions.tool_toggle_id = Some(owned(call_id.as_str()));
            let detail = with_suffix(owned(tool.as_str()), newline(), input);
            (FeedCategory::Tool, Role::Tool, detail, actions)
        },
        EventKind::ToolOutput { inline, .. } => (
            FeedCategory::Tool,
            Role::Tool,
            owned(inline.as_str()),
            actions,
        ),
        EventKind::ToolError { error, .. } => (
            FeedCategory::Tool,
            Role::Tool,
            owned(error.as_str()),
            actions,
        ),
        EventKind::ToolStatus { status, metadata, .. } => {
            let detail = with_suffix(status_text(*status), newline(), metadata);
            (FeedCategory::Tool, Role::Tool, detail, actions)
        },
        EventKind::ToolCompleted { output, .. } => {
            let empty = String::new();
            (FeedCategory::Tool, Role::Tool, text_or(output, empty.as_str()), actions)
        },
        EventKind::PermissionRequested { permission_id, description, .. } => {
            actions.permission = true;
            actions.permission_id = Some(owned(permission_id.as_str()));
            (FeedCategory::Permission, Role::System, owned(description.as_str()), actions)
        },
        EventKind::QuestionAsked { question_id, question } => {
            actions.question = true;
            actions.question_id = Some(owned(question_id.as_str()));
            (FeedCategory::Question, Role::System, owned(question.as_str()), actions)
        },
        EventKind::DiffRequested { request_id, path, diff } => {
            actions.diff = true;
            actions.diff_request_id = Some(owned(request_id.as_str()));
            let mut detail = owned(path.as_str());
            detail.append(newline());
            detail.append(diff.as_str());
            (FeedCategory::Diff, Role::System, detail, actions)
        },
        EventKind::PlanUpdated { plan } => (
            FeedCategory::Plan,
            Role::System,
            owned(plan.as_str()),
            actions,
        ),
        EventKind::SystemMessage { message } => (
            FeedCategory::System,
            Role::System,
            owned(message.as_str()),
            actions,
        ),
        EventKind::IntegrationEvent { integration, event, data } => {
            let mut head = owned(integration.as_str());
            head.append(": ");
            head.append(event.as_str());
            let detail = with_suffix(head, newline(), data);
            (FeedCategory::Integration, Role::System, detail, actions)
        },
        EventKind::CompactionStarted => (
            FeedCategory::Compaction,
            Role::System,
            owned("Compaction started"),
            actions,
        ),
        EventKind::CompactionCompleted { summary } => (
            FeedCategory::Compaction,
            Role::System,
            text_or(summary, "Compaction completed"),
            actions,
        ),
        EventKind::Failed { message } => (
            FeedCategory::Error,
            Role::System,
            owned(message.as_str()),
            actions,
        ),
        EventKind::Cancelled => (
            FeedCategory::Cancel,
            Role::System,
            owned("Turn cancelled"),
            actions,
        ),
        EventKind::Started => (
            FeedCategory::Lifecycle,
            Role::System,
            owned("Turn started"),
            actions,
        ),
        EventKind::Completed { message_id } => {
            let mut detail = owned("Turn completed");
            match message_id {
                Some(id) => {
                    detail.append(" (message ");
                    append_signed(&mut detail, *id);
                    detail.append(")");
                },
                None => {},
            }
            (FeedCategory::Lifecycle, Role::System, detail, actions)
        },
        EventKind::ArtifactCreated { artifact_id, media_type, size_bytes, storage_ref, .. } => {
            let mut detail = owned(artifact_id.as_str());
            detail.append(" · ");
            detail.append(media_type.as_str());
            detail.append(" · ");
            append_decimal(&mut detail, *size_bytes as u128);
            detail.append(" bytes · ");
            detail.append(storage_ref.as_str());
            (FeedCategory::Other, Role::System, detail, actions)
        },
        EventKind::StatusChanged { status, message } => {
            let detail = with_suffix(owned(status.as_str()), ": ", message);
            (FeedCategory::System, Role::System, detail, actions)
        },
        EventKind::Telemetry { usage, context } => {
            let mut detail = owned("usage=");
            detail.append(text_or(usage, "unavailable").as_str());
            detail.append(" context=");
            detail.append(text_or(context, "unavailable").as_str());
            (FeedCategory::Other, Role::System, detail, actions)
        },
        EventKind::Other => (
            FeedCategory::Other,
            Role::System,
            owned("Unknown typed event"),
            actions,
        ),
    }
}

pub open spec fn is_compact(c: FeedCategory) -> bool {
    c == FeedCategory::Tool || c == FeedCategory::Lifecycle || c == FeedCategory::Compaction || c
        == FeedCategory::Integration
}

pub open spec fn avatar_of(r: Role) -> char {
    match r {
        Role::User => '●',
        Role::Assistant => '✦',
        Role::Tool => '⚙',
        Role::System => 'ⓘ',
    }
}

pub open spec fn role_mark_of(r: Role) -> Seq<char> {
    match r {
        Role::User => "human"@,
        Role::Assistant => "assistant"@,
        Role::Tool => "tool"@,
        Role::System => "system"@,
    }
}

/// `item` presents `event`: its identity carried over, its detail
/// classified, and a preview of at most `limit` characters that stands in
/// for the detail when that is longer.
pub open spec fn projected(event: TypedEvent, limit: usize, item: FeedItem) -> bool {
    let c = classified(event.kind);
    let detail = c.2;
    &&& item.event_id@ == event.event_id@
    &&& item.session_id@ == event.session_id@
    &&& item.turn_id@ == event.turn_id@
    &&& item.sequence == event.sequence
    &&& item.timestamp == event.occurred_at
    &&& opt_seq(item.request_id) == opt_seq(event.request_id)
    &&& item.category == c.0
    &&& item.role == c.1
    &&& item.avatar == avatar_of(c.1)
    &&& item.role_mark@ == role_mark_of(c.1)
    &&& item.compact_metadata == is_compact(c.0)
    &&& item.readable_width == (!is_compact(c.0) && c.0 != FeedCategory::Other)
    &&& item.detail@ == detail
    &&& item.preview@ == detail.take(
        if limit < detail.len() {
            limit as int
        } else {
            detail.len() as int
        },
    )
    &&& item.collapsed == (detail.len() > limit)
    &&& item.actions@ == c.3
    &&& same_event(event.raw, item.raw)
}

fn copy_opt(o: &Option<String>) -> (r: Option<String>)
    ensures
        opt_seq(r) == opt_seq(*o),
{
    match o {
        Some(v) => Some(owned(v.as_str())),
        None => None,
    }
}

pub fn project(event: &TypedEvent, collapse_at: usize) -> (item: FeedItem)
    ensures
        projected(*event, collapse_at, item),
{
    let (category, role, detail, actions) = classify(&event.kind);
    let n = detail.as_str().unicode_len();
    let k = if collapse_at < n {
        collapse_at
    } else {
        n
    };
    let preview = owned(detail.as_str().substring_char(0, k));
    let collapsed = n > collapse_at;
    let compact_metadata = matches!(
        category,
        FeedCategory::Tool | FeedCategory::Lifecycle | FeedCategory::Compaction
            | FeedCategory::Integration
    );
    let readable_width = !compact_metadata && !matches!(category, FeedCategory::Other);
    let avatar = match role {
        Role::User => '●',
        Role::Assistant => '✦',
        Role::Tool => '⚙',
        Role::System => 'ⓘ',
    };
    let role_mark = match role {
        Role::User => "human",
        Role::Assistant => "assistant",
        Role::Tool => "tool",
        Role::System => "system",
    };
    FeedItem {
        event_id: owned(event.event_id.as_str()),
        session_id: owned(event.session_id.as_str()),
        turn_id: owned(event.turn_id.as_str()),
        sequence: event.sequence,
        timestamp: event.occurred_at,
        request_id: copy_opt(&event.request_id),
        role,
        category,
        avatar,
        role_mark,
        readable_width,
        compact_metadata,
        detail,
        preview,
        collapsed,
        raw: event.raw.clone(),
        actions,
    }
}

/// Whether a turn is still streaming after an event of this kind.
pub open spec fn streaming_after(s: bool, kind: EventKind) -> bool {
    match kind {
        EventKind::Started => true,
        EventKind::TextDelta { .. } => true,
        EventKind::ReasoningDelta { .. } => true,
        EventKind::ToolStarted { .. } => true,
        EventKind::ToolStatus { .. } => true,
        EventKind::ToolOutput { .. } => true,
        EventKind::Completed { .. } => false,
        EventKind::Cancelled => false,
        EventKind::Failed { .. } => false,
        _ => s,
    }
}

/// Whether the journal ends inside a streaming turn.
pub open spec fn streaming_over(events: Seq<TypedEvent>) -> bool
    decreases events.len(),
{
    if events.len() == 0 {
        false
    } else {
        streaming_after(streaming_over(events.drop_last()), events.last().kind)
    }
}

fn update_streaming(streaming: &mut bool, kind: &EventKind)
    ensures
        *final(streaming) == streaming_after(*old(streaming), *kind),
{
    match kind {
        EventKind::Started | EventKind::TextDelta { .. } | EventKind::ReasoningDelta { .. }
        | EventKind::ToolStarted { .. } | EventKind::ToolStatus { .. } | EventKind::ToolOutput {
            ..
        } => *streaming = true,
        EventKind::Completed { .. } | EventKind::Cancelled | EventKind::Failed { .. } => {
            *streaming = false
        },
        _ => {},
    }
}

#[derive(Debug, Clone, PartialEq)]
pub struct FeedProjection {
    pub items: Vec<FeedItem>,
    pub state: FeedState,
}

impl FeedProjection {
    pub fn from_events(events: &[TypedEvent]) -> (p: Self)
        ensures
            p.items@.len() == events@.len(),
            forall|i: int|
                0 <= i < events@.len() ==> projected(
                    #[trigger] events@[i],
                    DEFAULT_COLLAPSE_AT,
                    p.items@[i],
                ),
            p.state == (FeedState { following: true, streaming: streaming_over(events@) }),
    {
        Self::with_collapse_at(events, DEFAULT_COLLAPSE_AT)
    }

    /// Project every event in order; the feed follows the newest item and
    /// streams when the journal ends inside a turn.
    pub fn with_collapse_at(events: &[TypedEvent], limit: usize) -> (p: Self)
        ensures
            p.items@.len() == events@.len(),
            forall|i: int|
                0 <= i < events@.len() ==> projected(#[trigger] events@[i], limit, p.items@[i]),
            p.state == (FeedState { following: true, streaming: streaming_over(events@) }),
    {
        let mut streaming = false;
        let mut items: Vec<FeedItem> = Vec::new();
        let mut i: usize = 0;
        assert(events@.take(0) =~= Seq::<TypedEvent>::empty());
        while i < events.len()
            invariant
                i <= events@.len(),
                items@.len() == i,
                forall|j: int| 0 <= j < i ==> projected(#[trigger] events@[j], limit, items@[j]),
                streaming == streaming_over(events@.take(i as int)),
            decreases events@.len() - i,
        {
            update_streaming(&mut streaming, &events[i].kind);
            assert(events@.take(i + 1).drop_last() =~= events@.take(i as int));
            items.push(project(&events[i], limit));
            i = i + 1;
        }
        assert(events@.take(events@.len() as int) =~= events@);
        FeedProjection { items, state: FeedState { following: true, streaming } }
    }

    pub fn set_following(&mut self, following: bool)
        ensures
            final(self).items@ == old(self).items@,
            final(self).state == (FeedState { following, ..old(self).state }),
    {
        self.state.following = following;
    }
}

/// Every journal entry keeps its identity through the projection: ids,
/// sequence and time are those of the event, never recovered from text.
pub proof fn law_projection_keeps_identity(event: TypedEvent, limit: usize, item: FeedItem)
    requires
        projected(event, limit, item),
    ensures
        item.event_id@ == event.event_id@,
        item.session_id@ == event.session_id@,
        item.turn_id@ == event.turn_id@,
        item.sequence == event.sequence,
        opt_seq(item.request_id) == opt_seq(event.request_id),
{
}

/// The preview is lossless: it is a prefix of the detail, and the whole
/// detail when that is not longer than the limit.
pub proof fn law_preview_is_prefix(event: TypedEvent, limit: usize, item: FeedItem)
    requires
        projected(event, limit, item),
    ensures
        item.preview@.len() <= item.detail@.len(),
        item.preview@ == item.detail@.take(item.preview@.len() as int),
        !item.collapsed ==> item.preview@ == item.detail@,
        item.collapsed ==> item.preview@.len() == limit,
{
    assert(item.detail@.take(item.detail@.len() as int) =~= item.detail@);
}

/// The feed shows what a tool reported: a tool error is a Tool item with no
/// action whose detail is its error text (whatever the call id), and a
/// tool output one whose detail is its inline text.
pub proof fn law_tool_reports_show_their_text(event: TypedEvent, limit: usize, item: FeedItem)
    requires
        projected(event, limit, item),
        event.kind is ToolError || event.kind is ToolOutput,
    ensures
        item.category == FeedCategory::Tool,
        item.role == Role::Tool,
        item.actions@ == no_actions(),
        event.kind matches EventKind::ToolError { error, .. } ==> item.detail@ == error@,
        event.kind matches EventKind::ToolOutput { inline, .. } ==> item.detail@ == inline@,
{
}

/// A tool error's detail does not depend on its call id: two errors with
/// the same text read the same, and errors with different texts differ.
pub proof fn law_tool_error_detail_is_the_error(
    call_a: String,
    call_b: String,
    error_a: String,
    error_b: String,
)
    ensures
        classified(EventKind::ToolError { call_id: call_a, error: error_a }).2 == error_a@,
        error_a@ == error_b@ ==> classified(EventKind::ToolError { call_id: call_a, error: error_a }).2
            == classified(EventKind::ToolError { call_id: call_b, error: error_b }).2,
        error_a@ != error_b@ ==> classified(EventKind::ToolError { call_id: call_a, error: error_a }).2
            != classified(EventKind::ToolError { call_id: call_b, error: error_b }).2,
{
}

/// Events that carry a text of their own show exactly that text: streamed
/// and reasoning text, a permission's description, a question and a plan.
pub proof fn law_event_text_is_the_detail(kind: EventKind)
    ensures
        kind matches EventKind::TextDelta { text } ==> classified(kind).2 == text@,
        kind matches EventKind::ReasoningDelta { text } ==> classified(kind).2 == text@,
        kind matches EventKind::PermissionRequested { description, .. } ==> classified(kind).2
            == description@,
        kind matches EventKind::QuestionAsked { question, .. } ==> classified(kind).2 == question@,
        kind matches EventKind::PlanUpdated { plan } ==> classified(kind).2 == plan@,
{
}

/// A terminal event ends streaming, whatever came before.
pub proof fn law_terminal_events_end_streaming(events: Seq<TypedEvent>)
    requires
        events.len() > 0,
        events.last().kind is Completed || events.last().kind is Cancelled
            || events.last().kind is Failed,
    ensures
        !streaming_over(events),
{
}

/// An event kind shown under category `c`.
pub open spec fn category_witness(c: FeedCategory) -> EventKind {
    let t: String = arbitrary();
    match c {
        FeedCategory::Assistant => EventKind::TextDelta { text: t },
        FeedCategory::Reasoning => EventKind::ReasoningDelta { text: t },
        FeedCategory::Tool => EventKind::ToolError { call_id: t, error: t },
        FeedCategory::Permission => EventKind::PermissionRequested {
            permission_id: t,
            tool: t,
            description: t,
        },
        FeedCategory::Question => EventKind::QuestionAsked { question_id: t, question: t },
        FeedCategory::Diff => EventKind::DiffRequested { request_id: t, path: t, diff: t },
        FeedCategory::Plan => EventKind::PlanUpdated { plan: t },
        FeedCategory::System => EventKind::SystemMessage { message: t },
        FeedCategory::Integration => EventKind::IntegrationEvent {
            integration: t,
            event: t,
            data: None,
        },
        FeedCategory::Compaction => EventKind::CompactionStarted,
        FeedCategory::Error => EventKind::Failed { message: t },
        FeedCategory::Cancel => EventKind::Cancelled,
        FeedCategory::Lifecycle => EventKind::Started,
        _ => EventKind::Other,
    }
}

/// Each category but `Human` (reserved for what the user types) is reached
/// by some kind of event.
pub proof fn law_every_category_is_reachable(c: FeedCategory)
    requires
        c != FeedCategory::Human,
    ensures
        classified(category_witness(c)).0 == c,
{
}

} // verus!
