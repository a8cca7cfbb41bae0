//! Window-free decisions of the conversation view: the transcript and
//! status captions, the send rules, the model and agent catalogs, command
//! completion, toggles, and the request ids of policy items.
use crate::chat::{Card, ChatState, ChatStatus, EventKind, PermissionChoice, Role, TypedEvent};
use crate::backend::DaemonStatus;
use crate::picker::{command_action, parse_command, spec_parse_command, AgentOption, PickerAction};
use crate::preferences::GuiPreferences;
use crate::proto::auth::{AuthState, OPENAI_CODEX_PROVIDER};
use crate::proto::turn::{ToolStatusValue, TurnPermissionChoice};
use crate::feed::{FeedCategory, FeedItem};
use crate::text::{
    append_decimal, append_signed, blank, contains, contains_seq, decimal, has_prefix, is_blank,
    is_whitespace, is_ws, owned, replace, replace_all, signed_decimal, starts_with, str_eq,
};
use vstd::prelude::*;
use vstd::string::*;

verus! {

pub fn next_sidebar_visibility(visible: bool) -> (r: bool)
    ensures
        r == !visible,
{
    !visible
}

pub fn next_follow_state(following: bool) -> (r: bool)
    ensures
        r == !following,
{
    !following
}

pub open spec fn opt_seq(o: Option<String>) -> Option<Seq<char>> {
    match o {
        Some(s) => Some(s@),
        None => None,
    }
}

pub open spec fn opt_str(o: Option<&str>) -> Option<Seq<char>> {
    match o {
        Some(s) => Some(s@),
        None => None,
    }
}

/// The request a policy item answers: the permission, question or diff id
/// it carries.
pub open spec fn policy_request_id(item: FeedItem) -> Option<Seq<char>> {
    match item.category {
        FeedCategory::Permission => opt_seq(item.actions.permission_id),
        FeedCategory::Question => opt_seq(item.actions.question_id),
        FeedCategory::Diff => opt_seq(item.actions.diff_request_id),
        _ => None,
    }
}

fn opt_as_str(o: &Option<String>) -> (r: Option<&str>)
    ensures
        opt_str(r) == opt_seq(*o),
{
    match o {
        Some(s) => Some(s.as_str()),
        None => None,
    }
}

pub fn feed_policy_request_id(item: &FeedItem) -> (r: Option<&str>)
    ensures
        opt_str(r) == policy_request_id(*item),
{
    match item.category {
        FeedCategory::Permission => opt_as_str(&item.actions.permission_id),
        FeedCategory::Question => opt_as_str(&item.actions.question_id),
        FeedCategory::Diff => opt_as_str(&item.actions.diff_request_id),
        _ => None,
    }
}

pub open spec fn role_label(role: Role) -> Seq<char> {
    match role {
        Role::User => "You"@,
        Role::Assistant => "tau"@,
        Role::System => "system"@,
        Role::Tool => "tool"@,
    }
}

/// The label and text a card is shown with.
pub open spec fn card_caption(card: Card) -> (Seq<char>, Seq<char>) {
    match card {
        Card::Message { role, text } => (role_label(role), text@),
        Card::Tool { name, input, output, expanded } => (
            "tool"@,
            if expanded {
                name@ + "\ninput: "@ + input@ + "\noutput: "@ + output@
            } else {
                name@ + " (click to inspect)"@
            },
        ),
        Card::Diff { path, patch, approved, .. } => (
            "diff"@,
            path@ + " ("@ + (if approved {
                "approved"@
            } else {
                "pending"@
            }) + ")\n"@ + patch@,
        ),
        Card::Permission { tool, description, .. } => ("permission"@, tool@ + ": "@ + description@),
        Card::Question { question, answer, .. } => (
            "question"@,
            question@ + "\n"@ + match answer {
                Some(a) => a@,
                None => "awaiting answer"@,
            },
        ),
    }
}

pub fn card_description(card: &Card) -> (r: (String, String))
    ensures
        (r.0@, r.1@) == card_caption(*card),
{
    match card {
        Card::Message { role, text } => {
            let label = match role {
                Role::User => owned("You"),
                Role::Assistant => owned("tau"),
                Role::System => owned("system"),
                Role::Tool => owned("tool"),
            };
            (label, owned(text.as_str()))
        },
        Card::Tool { name, input, output, expanded } => {
            let mut text = owned(name.as_str());
            if *expanded {
                text.append("\ninput: ");
                text.append(input.as_str());
                text.append("\noutput: ");
                text.append(output.as_str());
            } else {
                text.append(" (click to inspect)");
            }
            (owned("tool"), text)
        },
        Card::Diff { path, patch, approved, .. } => {
            let mut text = owned(path.as_str());
            text.append(" (");
            text.append(
                if *approved {
                    "approved"
                } else {
                    "pending"
                },
            );
            text.append(")\n");
            text.append(patch.as_str());
            (owned("diff"), text)
        },
        Card::Permission { tool, description, .. } => {
            let mut text = owned(tool.as_str());
            text.append(": ");
            text.append(description.as_str());
            (owned("permission"), text)
        },
        Card::Question { question, answer, .. } => {
            let mut text = owned(question.as_str());
            text.append("\n");
            match answer {
                Some(a) => text.append(a.as_str()),
                None => text.append("awaiting answer"),
            }
            (owned("question"), text)
        },
    }
}

/// `prefix` and the value, or nothing when there is no value.
pub open spec fn opt_suffix(prefix: Seq<char>, o: Option<String>) -> Seq<char> {
    match o {
        Some(v) => prefix + v@,
        None => Seq::empty(),
    }
}

pub open spec fn or_unavailable(o: Option<String>) -> Seq<char> {
    match o {
        Some(v) => v@,
        None => "unavailable"@,
    }
}

/// The name a tool status is shown with (its variant's name).
pub open spec fn tool_status_name(s: ToolStatusValue) -> Seq<char> {
    match s {
        ToolStatusValue::Pending => "Pending"@,
        ToolStatusValue::Running => "Running"@,
        ToolStatusValue::Completed => "Completed"@,
        ToolStatusValue::Failed => "Failed"@,
        ToolStatusValue::Cancelled => "Cancelled"@,
    }
}

/// The transcript entry of a typed event: its label and text.  Text deltas
/// have none; they are already part of the assistant's card.
pub open spec fn event_caption(kind: EventKind) -> Option<(Seq<char>, Seq<char>)> {
    match kind {
        EventKind::Started => Some(("lifecycle"@, "Turn started"@)),
        EventKind::TextDelta { .. } => None,
        EventKind::ReasoningDelta { text } => Some(("reasoning"@, text@)),
        EventKind::ToolOutput { inline, truncated, artifacts } => Some((
            "tool output"@,
            inline@ + (if truncated { " (truncated)"@ } else { Seq::empty() }) + (if artifacts.len()
                == 0 {
                Seq::empty()
            } else {
                " ["@ + decimal(artifacts.len() as nat) + " artifacts]"@
            }),
        )),
        EventKind::PermissionRequested { tool, description, .. } => Some(
            ("permission"@, tool@ + ": "@ + description@),
        ),
        EventKind::QuestionAsked { question, .. } => Some(("question"@, question@)),
        EventKind::DiffRequested { path, diff, .. } => Some(("diff"@, path@ + "\n"@ + diff@)),
        EventKind::ArtifactCreated { artifact_id, media_type, size_bytes, storage_ref, .. } => Some(
            (
                "artifact"@,
                artifact_id@ + " ("@ + media_type@ + ", "@ + decimal(size_bytes as nat)
                    + " bytes)\n"@ + storage_ref@,
            ),
        ),
        EventKind::Completed { message_id } => Some((
            "lifecycle"@,
            "Turn completed"@ + match message_id {
                Some(id) => " (message "@ + signed_decimal(id as int) + ")"@,
                None => Seq::empty(),
            },
        )),
        EventKind::Cancelled => Some(("lifecycle"@, "Turn cancelled"@)),
        EventKind::Failed { message } => Some(("error"@, message@)),
        EventKind::ToolStarted { call_id, tool, input } => Some((
            "tool started"@,
            tool@ + " ["@ + call_id@ + "]"@ + opt_suffix("\ninput: "@, input),
        )),
        EventKind::ToolStatus { call_id, status, metadata } => Some((
            "tool status"@,
            call_id@ + ": "@ + tool_status_name(status) + opt_suffix("\n"@, metadata),
        )),
        EventKind::ToolCompleted { call_id, output } => Some(
            ("tool completed"@, call_id@ + opt_suffix("\n"@, output)),
        ),
        EventKind::ToolError { call_id, error } => Some(("tool error"@, call_id@ + ": "@ + error@)),
        EventKind::CompactionStarted => Some(("compaction"@, "Compaction started"@)),
        EventKind::CompactionCompleted { summary } => Some((
            "compaction"@,
            match summary {
                Some(s) => s@,
                None => "Compaction completed"@,
            },
        )),
        EventKind::SystemMessage { message } => Some(("system"@, message@)),
        EventKind::IntegrationEvent { integration, event, data } => Some((
            "integration"@,
            integration@ + ": "@ + event@ + opt_suffix("\n"@, data),
        )),
        EventKind::PlanUpdated { plan } => Some(("plan"@, plan@)),
        EventKind::StatusChanged { status, message } => Some(
            ("status"@, status@ + opt_suffix(": "@, message)),
        ),
        EventKind::Telemetry { usage, context } => Some((
            "telemetry"@,
            "usage="@ + or_unavailable(usage) + " context="@ + or_unavailable(context),
        )),
        EventKind::Other => Some(("event"@, "Unknown typed event"@)),
    }
}

fn append_opt(out: &mut String, prefix: &str, o: &Option<String>)
    ensures
        final(out)@ == old(out)@ + opt_suffix(prefix@, *o),
{
    match o {
        Some(v) => {
            out.append(prefix);
            out.append(v.as_str());
        },
        None => {
            assert(old(out)@ + Seq::<char>::empty() =~= old(out)@);
        },
    }
}

fn append_or_unavailable(out: &mut String, o: &Option<String>)
    ensures
        final(out)@ == old(out)@ + or_unavailable(*o),
{
    match o {
        Some(v) => out.append(v.as_str()),
        None => out.append("unavailable"),
    }
}

fn status_name(s: &ToolStatusValue) -> (r: &'static str)
    ensures
        r@ == tool_status_name(*s),
{
    match s {
        ToolStatusValue::Pending => "Pending",
        ToolStatusValue::Running => "Running",
        ToolStatusValue::Completed => "Completed",
        ToolStatusValue::Failed => "Failed",
        ToolStatusValue::Cancelled => "Cancelled",
    }
}

fn entry(label: &str, text: String) -> (r: Option<(String, String)>)
    ensures
        r matches Some(e) && e.0@ == label@ && e.1@ == text@,
{
    Some((owned(label), text))
}

/// The transcript entry of a typed event.
pub fn event_description(kind: &EventKind) -> (r: Option<(String, String)>)
    ensures
        match r {
            Some(e) => event_caption(*kind) == Some((e.0@, e.1@)),
            None => event_caption(*kind) is None,
        },
{
    match kind {
        EventKind::Started => entry("lifecycle", owned("Turn started")),
        EventKind::TextDelta { .. } => None,
        EventKind::ReasoningDelta { text } => entry("reasoning", owned(text.as_str())),
        EventKind::ToolOutput { inline, truncated, artifacts } => {
            let mut text = owned(inline.as_str());
            let ghost a = text@;
            if *truncated {
                text.append(" (truncated)");
            } else {
                assert(text@ =~= a + Seq::<char>::empty());
            }
            let ghost b = text@;
            if artifacts.len() == 0 {
                assert(text@ =~= b + Seq::<char>::empty());
            } else {
                text.append(" [");
                append_decimal(&mut text, artifacts.len() as u128);
                text.append(" artifacts]");
                assert(text@ =~= b + (" ["@ + decimal(artifacts.len() as nat) + " artifacts]"@));
            }
            entry("tool output", text)
        },
        EventKind::PermissionRequested { tool, description, .. } => {
            let mut text = owned(tool.as_str());
            text.append(": ");
            text.append(description.as_str());
            entry("permission", text)
        },
        EventKind::QuestionAsked { question, .. } => entry("question", owned(question.as_str())),
        EventKind::DiffRequested { path, diff, .. } => {
            let mut text = owned(path.as_str());
            text.append("\n");
            text.append(diff.as_str());
            entry("diff", text)
        },
        EventKind::ArtifactCreated { artifact_id, media_type, size_bytes, storage_ref, .. } => {
            let mut text = owned(artifact_id.as_str());
            text.append(" (");
            text.append(media_type.as_str());
            text.append(", ");
            append_decimal(&mut text, *size_bytes as u128);
            text.append(" bytes)\n");
            text.append(storage_ref.as_str());
            entry("artifact", text)
        },
        EventKind::Completed { message_id } => {
            let mut text = owned("Turn completed");
            match message_id {
                Some(id) => {
                    text.append(" (message ");
                    append_signed(&mut text, *id);
                    text.append(")");
                    assert(text@ =~= "Turn completed"@ + (" (message "@ + signed_decimal(
                        *id as int,
                    ) + ")"@));
                },
                None => {
                    assert(text@ =~= "Turn completed"@ + Seq::<char>::empty());
                },
            }
            entry("lifecycle", text)
        },
        EventKind::Cancelled => entry("lifecycle", owned("Turn cancelled")),
        EventKind::Failed { message } => entry("error", owned(message.as_str())),
        EventKind::ToolStarted { call_id, tool, input } => {
            let mut text = owned(tool.as_str());
            text.append(" [");
            text.append(call_id.as_str());
            text.append("]");
            append_opt(&mut text, "\ninput: ", input);
            entry("tool started", text)
        },
        EventKind::ToolStatus { call_id, status, metadata } => {
            let mut text = owned(call_id.as_str());
            text.append(": ");
            text.append(status_name(status));
            append_opt(&mut text, "\n", metadata);
            entry("tool status", text)
        },
        EventKind::ToolCompleted { call_id, output } => {
            let mut text = owned(call_id.as_str());
            append_opt(&mut text, "\n", output);
            entry("tool completed", text)
        },
        EventKind::ToolError { call_id, error } => {
            let mut text = owned(call_id.as_str());
            text.append(": ");
            text.append(error.as_str());
            entry("tool error", text)
        },
        EventKind::CompactionStarted => entry("compaction", owned("Compaction started")),
        EventKind::CompactionCompleted { summary } => {
            let text = match summary {
                Some(s) => owned(s.as_str()),
                None => owned("Compaction completed"),
            };
            entry("compaction", text)
        },
        EventKind::SystemMessage { message } => entry("system", owned(message.as_str())),
        EventKind::IntegrationEvent { integration, event, data } => {
            let mut text = owned(integration.as_str());
            text.append(": ");
            text.append(event.as_str());
            append_opt(&mut text, "\n", data);
            entry("integration", text)
        },
        EventKind::PlanUpdated { plan } => entry("plan", owned(plan.as_str())),
        EventKind::StatusChanged { status, message } => {
            let mut text = owned(status.as_str());
            append_opt(&mut text, ": ", message);
            entry("status", text)
        },
        EventKind::Telemetry { usage, context } => {
            let mut text = owned("usage=");
            append_or_unavailable(&mut text, usage);
            text.append(" context=");
            append_or_unavailable(&mut text, context);
            entry("telemetry", text)
        },
        EventKind::Other => entry("event", owned("Unknown typed event")),
    }
}

/// The status line of a chat.
pub open spec fn status_caption(status: ChatStatus) -> Seq<char> {
    match status {
        ChatStatus::Ready => "Ready"@,
        ChatStatus::Streaming => "Thinking..."@,
        ChatStatus::Failed(e) => "Error: "@ + e@,
    }
}

pub fn status_text(status: &ChatStatus) -> (r: String)
    ensures
        r@ == status_caption(*status),
{
    match status {
        ChatStatus::Ready => owned("Ready"),
        ChatStatus::Streaming => owned("Thinking..."),
        ChatStatus::Failed(e) => {
            let mut text = owned("Error: ");
            text.append(e.as_str());
            text
        },
    }
}

pub open spec fn entry_views(v: Seq<(String, String)>) -> Seq<(Seq<char>, Seq<char>)> {
    v.map_values(|e: (String, String)| (e.0@, e.1@))
}

/// The captions of the typed events that have one, in order.
pub open spec fn event_captions(events: Seq<TypedEvent>) -> Seq<(Seq<char>, Seq<char>)>
    decreases events.len(),
{
    if events.len() == 0 {
        Seq::empty()
    } else {
        let rest = event_captions(events.drop_last());
        match event_caption(events.last().kind) {
            Some(c) => rest.push(c),
            None => rest,
        }
    }
}

/// The transcript: every card's caption, then the captions of the typed
/// events that have one.
pub open spec fn transcript(cards: Seq<Card>, events: Seq<TypedEvent>) -> Seq<(Seq<char>, Seq<char>)> {
    cards.map_values(|c: Card| card_caption(c)) + event_captions(events)
}

pub fn describe_transcript(cards: &[Card], events: &[TypedEvent]) -> (r: Vec<(String, String)>)
    ensures
        entry_views(r@) == transcript(cards@, events@),
{
    let mut out: Vec<(String, String)> = Vec::new();
    let mut i: usize = 0;
    while i < cards.len()
        invariant
            i <= cards.len(),
            entry_views(out@) == cards@.subrange(0, i as int).map_values(|c: Card| card_caption(c)),
        decreases cards.len() - i,
    {
        let ghost before = out@;
        let d = card_description(&cards[i]);
        out.push(d);
        assert(entry_views(out@) =~= entry_views(before).push((d.0@, d.1@)));
        assert(cards@.subrange(0, i + 1).map_values(|c: Card| card_caption(c)) =~= cards@.subrange(
            0,
            i as int,
        ).map_values(|c: Card| card_caption(c)).push(card_caption(cards@[i as int])));
        i = i + 1;
    }
    assert(cards@.subrange(0, cards.len() as int) =~= cards@);
    let ghost head = entry_views(out@);
    let mut j: usize = 0;
    while j < events.len()
        invariant
            j <= events.len(),
            head == cards@.map_values(|c: Card| card_caption(c)),
            entry_views(out@) == head + event_captions(events@.subrange(0, j as int)),
        decreases events.len() - j,
    {
        let ghost before = out@;
        assert(events@.subrange(0, j + 1).drop_last() =~= events@.subrange(0, j as int));
        match event_description(&events[j].kind) {
            Some(d) => {
                out.push(d);
                assert(entry_views(out@) =~= entry_views(before).push((d.0@, d.1@)));
            },
            None => {},
        }
        j = j + 1;
    }
    assert(events@.subrange(0, events.len() as int) =~= events@);
    out
}

/// How the daemon connection is presented above the transcript.
#[derive(Debug, Clone, PartialEq, Eq)]
pub enum RuntimeState {
    NotNegotiated,
    Negotiating,
    Ready,
    Failed(String),
}

/// The facts the sidebar shows beside a conversation, as the daemon last
/// reported them.
#[derive(Debug, Clone, PartialEq, Eq)]
pub struct SidebarFacts {
    pub agent: Option<String>,
    pub model: Option<String>,
    pub plan: Option<String>,
    pub current_step: Option<String>,
    pub airtight: Option<bool>,
    pub input_tokens: Option<u64>,
    pub output_tokens: Option<u64>,
    pub context_tokens: Option<u64>,
    pub cached_tokens: Option<u64>,
    pub context_percent: Option<u64>,
    pub total_tokens: Option<u64>,
    pub lsp: Option<String>,
    pub mcp: Option<String>,
    pub task_tier: Option<u8>,
    pub autonomous: Option<bool>,
    pub session_id: Option<String>,
    pub cwd: Option<String>,
    pub roots: Vec<String>,
}

impl Default for SidebarFacts {
    fn default() -> (f: Self)
        ensures
            f.agent is None && f.model is None && f.plan is None && f.current_step is None,
            f.airtight is None && f.input_tokens is None && f.output_tokens is None,
            f.context_tokens is None && f.cached_tokens is None && f.context_percent is None,
            f.total_tokens is None && f.lsp is None && f.mcp is None && f.task_tier is None,
            f.autonomous is None && f.session_id is None && f.cwd is None,
            f.roots@.len() == 0,
    {
        SidebarFacts {
            agent: None,
            model: None,
            plan: None,
            current_step: None,
            airtight: None,
            input_tokens: None,
            output_tokens: None,
            context_tokens: None,
            cached_tokens: None,
            context_percent: None,
            total_tokens: None,
            lsp: None,
            mcp: None,
            task_tier: None,
            autonomous: None,
            session_id: None,
            cwd: None,
            roots: Vec::new(),
        }
    }
}

/// Everything the conversation view presents, without a window.
#[derive(Debug, Clone, PartialEq, Eq)]
pub struct TauViewDescription {
    pub transcript: Vec<(String, String)>,
    pub status: String,
    pub loading: bool,
    pub sidebar: Vec<(String, String)>,
}

pub open spec fn unavailable() -> Seq<char> {
    "Unavailable"@
}

/// The value, or the fallback when there is none.
pub open spec fn text_or(o: Option<String>, fallback: Seq<char>) -> Seq<char> {
    match o {
        Some(v) => v@,
        None => fallback,
    }
}

/// `name · step (airtight)` when all three are known, the bare name when
/// only it is, else unavailable.
pub open spec fn plan_caption(f: SidebarFacts) -> Seq<char> {
    match (f.plan, f.current_step, f.airtight) {
        (Some(p), Some(step), Some(a)) => p@ + " · "@ + step@ + " ("@ + (if a {
            "airtight"@
        } else {
            "not airtight"@
        }) + ")"@,
        (Some(p), _, _) => p@,
        _ => unavailable(),
    }
}

pub open spec fn opt_decimal(prefix: Seq<char>, o: Option<u64>, suffix: Seq<char>) -> Seq<char> {
    match o {
        Some(v) => prefix + decimal(v as nat) + suffix,
        None => Seq::empty(),
    }
}

/// `in I · out O[ · cached C] · ctx X[ (P%)]` when the three counts are
/// known; otherwise the total (the daemon's, else the chat's) or
/// unavailable.
pub open spec fn tokens_caption(f: SidebarFacts, usage: Option<u64>) -> Seq<char> {
    match (f.input_tokens, f.output_tokens, f.context_tokens) {
        (Some(i), Some(o), Some(c)) => "in "@ + decimal(i as nat) + " · out "@ + decimal(o as nat)
            + opt_decimal(" · cached "@, f.cached_tokens, Seq::empty()) + " · ctx "@ + decimal(
            c as nat,
        ) + opt_decimal(" ("@, f.context_percent, "%)"@),
        _ => match (if f.total_tokens is Some {
            f.total_tokens
        } else {
            usage
        }) {
            Some(t) => decimal(t as nat) + " total"@,
            None => unavailable(),
        },
    }
}

/// The texts joined with a separator between neighbours.
pub open spec fn joined(v: Seq<Seq<char>>, sep: Seq<char>) -> Seq<char>
    decreases v.len(),
{
    if v.len() == 0 {
        Seq::empty()
    } else if v.len() == 1 {
        v[0]
    } else {
        joined(v.drop_last(), sep) + sep + v.last()
    }
}

/// The sidebar rows, top to bottom.
pub open spec fn sidebar_rows(
    f: SidebarFacts,
    usage: Option<u64>,
    session: Option<Seq<char>>,
    agent: Seq<char>,
    model: Seq<char>,
    cwd: Seq<char>,
) -> Seq<(Seq<char>, Seq<char>)> {
    seq![
        ("AGENT"@, text_or(f.agent, agent)),
        ("MODEL"@, text_or(f.model, model)),
        ("PLAN"@, plan_caption(f)),
        ("LSP"@, text_or(f.lsp, unavailable())),
        ("TOKENS"@, tokens_caption(f, usage)),
        ("MCP"@, text_or(f.mcp, unavailable())),
        ("TASK"@, match f.task_tier {
            Some(t) => "Tier "@ + decimal(t as nat),
            None => unavailable(),
        }),
        ("AUTONOMY"@, match f.autonomous {
            Some(true) => "Enabled"@,
            Some(false) => "Disabled"@,
            None => unavailable(),
        }),
        ("SESSION"@, match f.session_id {
            Some(s) => s@,
            None => match session {
                Some(s) => s,
                None => unavailable(),
            },
        }),
        ("DIRECTORY"@, match f.cwd {
            Some(d) => d@,
            None => if cwd.len() == 0 {
                unavailable()
            } else {
                cwd
            },
        }),
        ("ROOTS"@, if f.roots@.len() == 0 {
            unavailable()
        } else {
            joined(texts(f.roots@), "\n"@)
        }),
    ]
}

fn text_or_else(o: &Option<String>, fallback: &str) -> (r: String)
    ensures
        r@ == text_or(*o, fallback@),
{
    match o {
        Some(v) => v.clone(),
        None => owned(fallback),
    }
}

fn push_opt_decimal(out: &mut String, prefix: &str, o: Option<u64>, suffix: &str)
    ensures
        final(out)@ == old(out)@ + opt_decimal(prefix@, o, suffix@),
{
    match o {
        Some(v) => {
            out.append(prefix);
            append_decimal(out, v as u128);
            out.append(suffix);
        },
        None => {
            assert(out@ =~= old(out)@ + opt_decimal(prefix@, o, suffix@));
        },
    }
}

fn plan_text(f: &SidebarFacts) -> (r: String)
    ensures
        r@ == plan_caption(*f),
{
    match (&f.plan, &f.current_step, f.airtight) {
        (Some(p), Some(step), Some(a)) => {
            let mut out = p.clone();
            out.append(" · ");
            out.append(step.as_str());
            out.append(" (");
            out.append(if a { "airtight" } else { "not airtight" });
            out.append(")");
            out
        },
        (Some(p), _, _) => p.clone(),
        _ => owned("Unavailable"),
    }
}

fn tokens_text(f: &SidebarFacts, usage: Option<u64>) -> (r: String)
    ensures
        r@ == tokens_caption(*f, usage),
{
    match (f.input_tokens, f.output_tokens, f.context_tokens) {
        (Some(i), Some(o), Some(c)) => {
            let mut out = owned("in ");
            append_decimal(&mut out, i as u128);
            out.append(" · out ");
            append_decimal(&mut out, o as u128);
            proof {
                reveal_strlit("");
            }
            push_opt_decimal(&mut out, " · cached ", f.cached_tokens, "");
            out.append(" · ctx ");
            append_decimal(&mut out, c as u128);
            push_opt_decimal(&mut out, " (", f.context_percent, "%)");
            assert(out@ =~= tokens_caption(*f, usage));
            out
        },
        _ => {
            let total = if f.total_tokens.is_some() {
                f.total_tokens
            } else {
                usage
            };
            match total {
                Some(t) => {
                    let mut out = String::new();
                    append_decimal(&mut out, t as u128);
                    out.append(" total");
                    assert(out@ =~= tokens_caption(*f, usage));
                    out
                },
                None => owned("Unavailable"),
            }
        },
    }
}

fn join_lines(v: &Vec<String>) -> (r: String)
    ensures
        r@ == joined(texts(v@), "\n"@),
{
    let mut out = String::new();
    let mut i: usize = 0;
    while i < v.len()
        invariant
            i <= v@.len(),
            out@ == joined(texts(v@.take(i as int)), "\n"@),
        decreases v@.len() - i,
    {
        proof {
            assert(texts(v@.take(i + 1)).drop_last() =~= texts(v@.take(i as int)));
            assert(texts(v@.take(i + 1)).last() == v@[i as int]@);
        }
        if i > 0 {
            out.append("\n");
        }
        out.append(v[i].as_str());
        i = i + 1;
        proof {
            if i == 1 {
                assert(out@ =~= joined(texts(v@.take(i as int)), "\n"@));
            }
        }
    }
    assert(v@.take(v@.len() as int) =~= v@);
    out
}

fn row(label: &str, value: String) -> (r: (String, String))
    ensures
        r.0@ == label@,
        r.1@ == value@,
{
    (owned(label), value)
}

/// The sidebar rows for the daemon's facts, the chat's usage and session,
/// and the view's own agent, model and working directory.
pub fn describe_sidebar(
    f: &SidebarFacts,
    usage: Option<u64>,
    session: Option<&str>,
    agent: &str,
    model: &str,
    cwd: &str,
) -> (r: Vec<(String, String)>)
    ensures
        entry_views(r@) == sidebar_rows(*f, usage, opt_str(session), agent@, model@, cwd@),
{
    let mut rows: Vec<(String, String)> = Vec::new();
    rows.push(row("AGENT", text_or_else(&f.agent, agent)));
    rows.push(row("MODEL", text_or_else(&f.model, model)));
    rows.push(row("PLAN", plan_text(f)));
    rows.push(row("LSP", text_or_else(&f.lsp, "Unavailable")));
    rows.push(row("TOKENS", tokens_text(f, usage)));
    rows.push(row("MCP", text_or_else(&f.mcp, "Unavailable")));
    let task = match f.task_tier {
        Some(t) => {
            let mut out = owned("Tier ");
            append_decimal(&mut out, t as u128);
            out
        },
        None => owned("Unavailable"),
    };
    rows.push(row("TASK", task));
    let autonomy = match f.autonomous {
        Some(true) => owned("Enabled"),
        Some(false) => owned("Disabled"),
        None => owned("Unavailable"),
    };
    rows.push(row("AUTONOMY", autonomy));
    let session_text = match &f.session_id {
        Some(s) => s.clone(),
        None => match session {
            Some(s) => owned(s),
            None => owned("Unavailable"),
        },
    };
    rows.push(row("SESSION", session_text));
    let directory = match &f.cwd {
        Some(d) => d.clone(),
        None => if cwd.unicode_len() == 0 {
            owned("Unavailable")
        } else {
            owned(cwd)
        },
    };
    rows.push(row("DIRECTORY", directory));
    let roots = if f.roots.len() == 0 {
        owned("Unavailable")
    } else {
        join_lines(&f.roots)
    };
    rows.push(row("ROOTS", roots));
    assert(entry_views(rows@) =~= sidebar_rows(*f, usage, opt_str(session), agent@, model@, cwd@));
    rows
}

/// Build what the view presents: the transcript of cards and typed events,
/// the status line, whether anything is loading, and the sidebar rows.
pub fn describe_chat(
    chat: &ChatState,
    events: &[TypedEvent],
    sidebar: &SidebarFacts,
    loading: bool,
    agent: &str,
    model: &str,
    cwd: &str,
) -> (d: TauViewDescription)
    ensures
        entry_views(d.transcript@) == transcript(chat.card_list(), events@),
        d.status@ == status_caption(chat.status_value()),
        d.loading == (loading || chat.status_value() is Streaming),
        entry_views(d.sidebar@) == sidebar_rows(
            *sidebar,
            chat@.usage,
            chat@.session_id,
            agent@,
            model@,
            cwd@,
        ),
{
    let status = chat.status();
    let streaming = match status {
        ChatStatus::Streaming => true,
        _ => false,
    };
    TauViewDescription {
        transcript: describe_transcript(chat.cards(), events),
        status: status_text(status),
        loading: loading || streaming,
        sidebar: describe_sidebar(sidebar, chat.usage(), chat.session_id(), agent, model, cwd),
    }
}

/// The connection state after a streamed event was applied: the chat's
/// failure, or ready.
pub fn runtime_after_event(status: &ChatStatus) -> (r: RuntimeState)
    ensures
        match status {
            ChatStatus::Failed(e) => r matches RuntimeState::Failed(m) && m@ == e@,
            _ => r == RuntimeState::Ready,
        },
{
    match status {
        ChatStatus::Failed(e) => RuntimeState::Failed(owned(e.as_str())),
        _ => RuntimeState::Ready,
    }
}

/// A picker action by its texts.
pub enum ActionView {
    SelectModel(Seq<char>),
    SelectAgent(Seq<char>),
    ToggleFavorite(Seq<char>),
    RecordRecentModel(Seq<char>),
    OpenAgents,
    OpenModels,
    Dismiss,
}

pub open spec fn action_view(a: PickerAction) -> ActionView {
    match a {
        PickerAction::SelectModel(m) => ActionView::SelectModel(m@),
        PickerAction::SelectAgent(a) => ActionView::SelectAgent(a@),
        PickerAction::ToggleFavorite(m) => ActionView::ToggleFavorite(m@),
        PickerAction::RecordRecentModel(m) => ActionView::RecordRecentModel(m@),
        PickerAction::OpenAgents => ActionView::OpenAgents,
        PickerAction::OpenModels => ActionView::OpenModels,
        PickerAction::Dismiss => ActionView::Dismiss,
    }
}

/// The picker action a parsed command line asks for: a named model or agent
/// is chosen, a bare command opens its picker.
pub open spec fn command_picker_action(c: (Seq<char>, Option<Seq<char>>)) -> ActionView {
    match c.1 {
        Some(arg) => if c.0 == "/model"@ {
            ActionView::SelectModel(arg)
        } else {
            ActionView::SelectAgent(arg)
        },
        None => if c.0 == "/model"@ {
            ActionView::OpenModels
        } else {
            ActionView::OpenAgents
        },
    }
}

/// What pressing send does with the composer's text.
#[derive(Debug, Clone, PartialEq, Eq)]
pub enum SendDecision {
    /// Nothing: a turn is streaming or the text is blank.
    Ignore,
    /// Refused with this message; `open_account` asks for the account sheet.
    Refuse { message: String, open_account: bool },
    /// The text is a picker command.
    Command(PickerAction),
    /// The text goes to the daemon as a turn.
    Submit,
}

pub enum SendView {
    Ignore,
    Refuse(Seq<char>, bool),
    Command(ActionView),
    Submit,
}

pub open spec fn send_view(d: SendDecision) -> SendView {
    match d {
        SendDecision::Ignore => SendView::Ignore,
        SendDecision::Refuse { message, open_account } => SendView::Refuse(message@, open_account),
        SendDecision::Command(a) => SendView::Command(action_view(a)),
        SendDecision::Submit => SendView::Submit,
    }
}

pub open spec fn codex_prefix() -> Seq<char> {
    "openai-codex/"@
}

/// A model of the Codex provider needs a signed-in account.
pub open spec fn is_codex_model(model: Seq<char>) -> bool {
    has_prefix(model, codex_prefix())
}

pub open spec fn no_project_message() -> Seq<char> {
    "select a project before sending"@
}

pub open spec fn repair_message() -> Seq<char> {
    "Tau cannot send until the daemon connection is repaired. Restart an external daemon, then choose Retry."@
}

pub open spec fn account_message() -> Seq<char> {
    "Connect a ChatGPT Plus or Pro account before using the Codex model."@
}

pub open spec fn daemon_unusable(daemon: DaemonStatus) -> bool {
    daemon == DaemonStatus::Incompatible || daemon == DaemonStatus::Failed
}

/// The send rules, in order: nothing while streaming or for blank text;
/// a project must be selected; a broken daemon connection blocks; a Codex
/// model needs a signed-in account; a command line drives the pickers;
/// anything else is a turn.
pub open spec fn send_outcome(
    streaming: bool,
    prompt: Seq<char>,
    project_selected: bool,
    daemon: DaemonStatus,
    model: Seq<char>,
    signed_in: bool,
) -> SendView {
    if streaming || blank(prompt) {
        SendView::Ignore
    } else if !project_selected {
        SendView::Refuse(no_project_message(), false)
    } else if daemon_unusable(daemon) {
        SendView::Refuse(repair_message(), false)
    } else if is_codex_model(model) && !signed_in {
        SendView::Refuse(account_message(), true)
    } else {
        match spec_parse_command(prompt) {
            Some(c) => SendView::Command(command_picker_action(c)),
            None => SendView::Submit,
        }
    }
}

fn codex_model(model: &str) -> (r: bool)
    ensures
        r == is_codex_model(model@),
{
    let mut prefix = owned(OPENAI_CODEX_PROVIDER);
    prefix.append("/");
    proof {
        reveal_strlit("openai-codex");
        reveal_strlit("/");
        reveal_strlit("openai-codex/");
    }
    assert(prefix@ =~= codex_prefix());
    starts_with(model, prefix.as_str())
}

pub fn send_decision(
    streaming: bool,
    prompt: &str,
    project_selected: bool,
    daemon: DaemonStatus,
    model: &str,
    auth: &AuthState,
) -> (r: SendDecision)
    ensures
        send_view(r) == send_outcome(
            streaming,
            prompt@,
            project_selected,
            daemon,
            model@,
            *auth is SignedIn,
        ),
{
    if streaming || is_blank(prompt) {
        return SendDecision::Ignore;
    }
    if !project_selected {
        return SendDecision::Refuse {
            message: owned("select a project before sending"),
            open_account: false,
        };
    }
    if matches!(daemon, DaemonStatus::Incompatible | DaemonStatus::Failed) {
        return SendDecision::Refuse {
            message: owned(
                "Tau cannot send until the daemon connection is repaired. Restart an external daemon, then choose Retry.",
            ),
            open_account: false,
        };
    }
    let signed_in = matches!(auth, AuthState::SignedIn { .. });
    if codex_model(model) && !signed_in {
        return SendDecision::Refuse {
            message: owned("Connect a ChatGPT Plus or Pro account before using the Codex model."),
            open_account: true,
        };
    }
    proof {
        reveal_strlit("/agent");
        reveal_strlit("/agents");
        reveal_strlit("/model");
        assert("/agent"@[1] != "/model"@[1]);
        assert("/agents"@.len() != "/model"@.len());
    }
    match parse_command(prompt) {
        Some(command) => match command_action(command) {
            Some(action) => SendDecision::Command(action),
            None => SendDecision::Submit,
        },
        None => SendDecision::Submit,
    }
}

/// Whether the send control is disabled: while streaming, with a broken
/// daemon connection, or for a Codex model without an account.
pub fn send_blocked(streaming: bool, daemon: DaemonStatus, model: &str, auth: &AuthState) -> (r: bool)
    ensures
        r == (streaming || daemon_unusable(daemon) || (is_codex_model(model@)
            && !(*auth is SignedIn))),
{
    streaming || matches!(daemon, DaemonStatus::Incompatible | DaemonStatus::Failed) || (
    codex_model(model) && !matches!(auth, AuthState::SignedIn { .. }))
}

/// Where a new chat is created: the selected project and its root, or why
/// there is none.
pub fn new_chat_target(project_id: &Option<String>, root: &Option<String>) -> (r: Result<
    (String, String),
    String,
>)
    ensures
        match (project_id, root) {
            (Some(p), Some(q)) => r matches Ok(t) && t.0@ == p@ && t.1@ == q@,
            (None, _) => r matches Err(m) && m@ == "select a project before creating a chat"@,
            (Some(_), None) => r matches Err(m) && m@
                == "select a project root before creating a chat"@,
        },
{
    match (project_id, root) {
        (Some(p), Some(q)) => Ok((owned(p.as_str()), owned(q.as_str()))),
        (None, _) => Err(owned("select a project before creating a chat")),
        (Some(_), None) => Err(owned("select a project root before creating a chat")),
    }
}

pub open spec fn retired_model() -> Seq<char> {
    "gpt-5.4"@
}

pub open spec fn successor_model() -> Seq<char> {
    "gpt-5.6-sol"@
}

/// A remembered model id, with the retired model's name replaced by its
/// successor's.
pub open spec fn migrated(m: Seq<char>) -> Seq<char> {
    if contains_seq(m, retired_model()) {
        replace_all(m, retired_model(), successor_model())
    } else {
        m
    }
}

/// The Codex models that are always offered.
pub open spec fn codex_models() -> Seq<Seq<char>> {
    seq!["openai-codex/gpt-5.6-sol"@, "openai-codex/gpt-5.6"@]
}

/// `m` joins the catalog unless it is already listed.
pub open spec fn catalog_with(models: Seq<Seq<char>>, m: Seq<char>) -> Seq<Seq<char>> {
    if models.contains(m) {
        models
    } else {
        models.push(m)
    }
}

/// The catalog with each of `extra` added in turn.
pub open spec fn catalog_with_all(models: Seq<Seq<char>>, extra: Seq<Seq<char>>) -> Seq<Seq<char>>
    decreases extra.len(),
{
    if extra.len() == 0 {
        models
    } else {
        catalog_with(catalog_with_all(models, extra.drop_last()), extra.last())
    }
}

pub open spec fn texts(v: Seq<String>) -> Seq<Seq<char>> {
    v.map_values(|s: String| s@)
}

/// The models the preferences remember: favorites, recents, then the
/// selected one, each migrated.
pub open spec fn remembered_models(p: crate::preferences::PrefsView) -> Seq<Seq<char>> {
    (p.favorites + p.recent_models + match p.selected_model {
        Some(m) => seq![m],
        None => Seq::empty(),
    }).map_values(|m: Seq<char>| migrated(m))
}

/// The model catalog: the backend's model, the Codex models, then the
/// remembered ones, each once, in that order.
pub open spec fn model_catalog(backend_model: Seq<char>, p: crate::preferences::PrefsView) -> Seq<
    Seq<char>,
> {
    catalog_with_all(catalog_with_all(seq![backend_model], codex_models()), remembered_models(p))
}

fn migrate(m: &str) -> (r: String)
    ensures
        r@ == migrated(m@),
{
    proof {
        reveal_strlit("gpt-5.4");
        reveal_strlit("gpt-5.6-sol");
    }
    if contains(m, "gpt-5.4") {
        replace(m, "gpt-5.4", "gpt-5.6-sol")
    } else {
        owned(m)
    }
}

fn listed(models: &Vec<String>, m: &str) -> (b: bool)
    ensures
        b == texts(models@).contains(m@),
{
    let mut i: usize = 0;
    while i < models.len()
        invariant
            i <= models@.len(),
            forall|j: int| 0 <= j < i ==> models@[j]@ != m@,
        decreases models@.len() - i,
    {
        if str_eq(models[i].as_str(), m) {
            assert(texts(models@)[i as int] == m@);
            return true;
        }
        i = i + 1;
    }
    assert forall|j: int| 0 <= j < texts(models@).len() implies texts(models@)[j] != m@ by {
        assert(texts(models@)[j] == models@[j]@);
    }
    false
}

fn add_model(models: &mut Vec<String>, m: String)
    ensures
        texts(final(models)@) == catalog_with(texts(old(models)@), m@),
{
    if !listed(models, m.as_str()) {
        let ghost before = texts(models@);
        models.push(m);
        assert(texts(models@) =~= before.push(m@));
    }
}

fn add_models(models: &mut Vec<String>, extra: &Vec<String>)
    ensures
        texts(final(models)@) == catalog_with_all(texts(old(models)@), texts(extra@)),
{
    let ghost base = texts(models@);
    let mut i: usize = 0;
    assert(texts(extra@).subrange(0, 0) =~= Seq::<Seq<char>>::empty());
    while i < extra.len()
        invariant
            i <= extra@.len(),
            texts(models@) == catalog_with_all(base, texts(extra@).subrange(0, i as int)),
        decreases extra@.len() - i,
    {
        add_model(models, owned(extra[i].as_str()));
        assert(texts(extra@).subrange(0, i + 1).drop_last() =~= texts(extra@).subrange(0, i as int));
        i = i + 1;
    }
    assert(texts(extra@).subrange(0, extra@.len() as int) =~= texts(extra@));
}

fn migrated_all(values: &Vec<String>, out: &mut Vec<String>)
    ensures
        texts(final(out)@) == texts(old(out)@) + texts(values@).map_values(|m: Seq<char>| migrated(m)),
{
    let ghost start = texts(out@);
    let mut i: usize = 0;
    while i < values.len()
        invariant
            i <= values@.len(),
            texts(out@) == start + texts(values@).subrange(0, i as int).map_values(
                |m: Seq<char>| migrated(m),
            ),
        decreases values@.len() - i,
    {
        let ghost before = texts(out@);
        let m = migrate(values[i].as_str());
        out.push(m);
        assert(texts(out@) =~= before.push(migrated(values@[i as int]@)));
        assert(texts(values@).subrange(0, i + 1).map_values(|m: Seq<char>| migrated(m))
            =~= texts(values@).subrange(0, i as int).map_values(|m: Seq<char>| migrated(m)).push(
            migrated(values@[i as int]@),
        ));
        i = i + 1;
    }
    assert(texts(values@).subrange(0, values@.len() as int) =~= texts(values@));
}

/// The first position of `m` in the catalog, if listed.
pub open spec fn first_position(models: Seq<Seq<char>>, m: Seq<char>, i: int) -> bool {
    0 <= i < models.len() && models[i] == m && forall|j: int| 0 <= j < i ==> models[j] != m
}

/// The model catalog the view offers and the position of the preferred
/// model in it (the first entry when the preferences choose none or an
/// unlisted one).
pub fn models_for(backend_model: &str, preferences: &GuiPreferences) -> (r: (Vec<String>, usize))
    ensures
        texts(r.0@) == model_catalog(backend_model@, preferences@),
        r.0@.len() > 0,
        match preferences@.selected_model {
            Some(m) => if model_catalog(backend_model@, preferences@).contains(migrated(m)) {
                first_position(texts(r.0@), migrated(m), r.1 as int)
            } else {
                r.1 == 0
            },
            None => r.1 == 0,
        },
{
    let mut models: Vec<String> = Vec::new();
    models.push(owned(backend_model));
    assert(texts(models@) =~= seq![backend_model@]);
    let mut codex: Vec<String> = Vec::new();
    let mut first = owned(OPENAI_CODEX_PROVIDER);
    first.append("/gpt-5.6-sol");
    let mut second = owned(OPENAI_CODEX_PROVIDER);
    second.append("/gpt-5.6");
    proof {
        reveal_strlit("openai-codex");
        reveal_strlit("/gpt-5.6-sol");
        reveal_strlit("/gpt-5.6");
        reveal_strlit("openai-codex/gpt-5.6-sol");
        reveal_strlit("openai-codex/gpt-5.6");
    }
    assert(first@ =~= "openai-codex/gpt-5.6-sol"@);
    assert(second@ =~= "openai-codex/gpt-5.6"@);
    codex.push(first);
    codex.push(second);
    assert(texts(codex@) =~= codex_models());
    add_models(&mut models, &codex);
    let mut remembered: Vec<String> = Vec::new();
    migrated_all(&preferences.favorites, &mut remembered);
    migrated_all(&preferences.recent_models, &mut remembered);
    let mut chosen: Vec<String> = Vec::new();
    match &preferences.selected_model {
        Some(m) => chosen.push(owned(m.as_str())),
        None => {},
    }
    migrated_all(&chosen, &mut remembered);
    let ghost sel: Seq<Seq<char>> = match preferences@.selected_model {
        Some(m) => seq![m],
        None => Seq::empty(),
    };
    assert(texts(chosen@) =~= sel);
    assert(texts(remembered@) =~= remembered_models(preferences@));
    add_models(&mut models, &remembered);
    let index = match &preferences.selected_model {
        Some(m) => {
            let wanted = migrate(m.as_str());
            let mut i: usize = 0;
            let mut found: usize = 0;
            let mut hit = false;
            while i < models.len()
                invariant
                    i <= models@.len(),
                    !hit ==> found == 0 && forall|j: int| 0 <= j < i ==> models@[j]@ != wanted@,
                    hit ==> first_position(texts(models@), wanted@, found as int),
                decreases models@.len() - i,
            {
                if !hit && str_eq(models[i].as_str(), wanted.as_str()) {
                    found = i;
                    hit = true;
                }
                i = i + 1;
            }
            if !hit {
                assert forall|j: int| 0 <= j < texts(models@).len() implies texts(models@)[j]
                    != wanted@ by {
                    assert(texts(models@)[j] == models@[j]@);
                }
                assert(!texts(models@).contains(wanted@));
            } else {
                assert(texts(models@)[found as int] == wanted@);
                assert(texts(models@).contains(wanted@));
            }
            found
        },
        None => 0,
    };
    proof {
        lemma_catalog_nonempty(seq![backend_model@], codex_models());
        lemma_catalog_nonempty(
            catalog_with_all(seq![backend_model@], codex_models()),
            remembered_models(preferences@),
        );
    }
    (models, index)
}

proof fn lemma_catalog_nonempty(models: Seq<Seq<char>>, extra: Seq<Seq<char>>)
    requires
        models.len() > 0,
    ensures
        catalog_with_all(models, extra).len() > 0,
    decreases extra.len(),
{
    if extra.len() > 0 {
        lemma_catalog_nonempty(models, extra.drop_last());
    }
}

/// The agents the view offers: the configured ones, and the remembered
/// agent when it is named and not configured (then in the tab cycle).
pub fn agents_for(configured: Vec<AgentOption>, selected: &Option<String>) -> (r: (
    String,
    Vec<AgentOption>,
))
    ensures
        r.0@ == match selected {
            Some(a) => a@,
            None => Seq::<char>::empty(),
        },
        if r.0@.len() > 0 && forall|i: int|
            0 <= i < configured@.len() ==> (#[trigger] configured@[i]).name@ != r.0@ {
            r.1@.len() == configured@.len() + 1 && r.1@.subrange(0, configured@.len() as int)
                == configured@ && r.1@.last().name@ == r.0@ && r.1@.last().in_tab_cycle
        } else {
            r.1@ == configured@
        },
{
    let agent = match selected {
        Some(a) => owned(a.as_str()),
        None => String::new(),
    };
    let mut agents = configured;
    if agent.unicode_len() == 0 {
        return (agent, agents);
    }
    let mut i: usize = 0;
    while i < agents.len()
        invariant
            i <= agents@.len(),
            agents@ == configured@,
            agent@ == match selected {
                Some(a) => a@,
                None => Seq::<char>::empty(),
            },
            forall|j: int| 0 <= j < i ==> (#[trigger] agents@[j]).name@ != agent@,
        decreases agents@.len() - i,
    {
        if str_eq(agents[i].name.as_str(), agent.as_str()) {
            return (agent, agents);
        }
        i = i + 1;
    }
    agents.push(AgentOption { name: owned(agent.as_str()), in_tab_cycle: true });
    assert(agents@.subrange(0, configured@.len() as int) =~= configured@);
    (agent, agents)
}

/// Adding models to a catalog keeps what it listed, in place, lists every
/// added model, and lists nothing twice: a remembered favorite or recent
/// model can never hide or duplicate another.
pub proof fn law_catalog_keeps_every_model_once(models: Seq<Seq<char>>, extra: Seq<Seq<char>>)
    requires
        models.no_duplicates(),
    ensures
        catalog_with_all(models, extra).no_duplicates(),
        catalog_with_all(models, extra).len() >= models.len(),
        catalog_with_all(models, extra).subrange(0, models.len() as int) == models,
        forall|i: int| 0 <= i < extra.len() ==> catalog_with_all(models, extra).contains(
            #[trigger] extra[i],
        ),
    decreases extra.len(),
{
    if extra.len() > 0 {
        let before = catalog_with_all(models, extra.drop_last());
        law_catalog_keeps_every_model_once(models, extra.drop_last());
        let after = catalog_with_all(models, extra);
        assert(after == catalog_with(before, extra.last()));
        if !before.contains(extra.last()) {
            assert(after.subrange(0, models.len() as int) =~= before.subrange(0, models.len() as int));
            assert forall|a: int, b: int| 0 <= a < b < after.len() implies after[a] != after[b] by {
                if b == after.len() - 1 {
                    assert(after[a] == before[a]);
                }
            }
            assert(after[after.len() - 1] == extra.last());
        }
        assert forall|i: int| 0 <= i < extra.len() implies after.contains(#[trigger] extra[i]) by {
            if i < extra.len() - 1 {
                assert(extra.drop_last()[i] == extra[i]);
                assert(before.contains(extra[i]));
                let k = choose|k: int| 0 <= k < before.len() && before[k] == extra[i];
                assert(after[k] == before[k]);
            } else {
                if before.contains(extra.last()) {
                } else {
                    assert(after[after.len() - 1] == extra.last());
                }
            }
        }
    }
}

/// The position of the last whitespace character of `s`, or -1.
pub open spec fn last_ws(s: Seq<char>) -> int
    decreases s.len(),
{
    if s.len() == 0 {
        -1
    } else if is_ws(s.last()) {
        s.len() - 1
    } else {
        last_ws(s.drop_last())
    }
}

/// The composer text after a suggestion is accepted: a command is completed
/// with a space after it; otherwise the suggestion replaces the word being
/// typed, or follows the text when it ends in whitespace.
pub open spec fn completed_command(item: Seq<char>, query: Seq<char>) -> Seq<char> {
    if item.len() > 0 && item[0] == '/' {
        item + " "@
    } else if query.len() == 0 || !is_ws(query.last()) {
        query.subrange(0, last_ws(query) + 1) + item
    } else {
        query + item
    }
}

pub fn command_completion(item: &str, query: &str) -> (r: String)
    ensures
        r@ == completed_command(item@, query@),
{
    if item.unicode_len() > 0 && item.get_char(0) == '/' {
        let mut r = owned(item);
        r.append(" ");
        return r;
    }
    let n = query.unicode_len();
    if n > 0 && is_whitespace(query.get_char(n - 1)) {
        let mut r = owned(query);
        r.append(item);
        return r;
    }
    let mut k: usize = n;
    assert(query@.subrange(0, n as int) =~= query@);
    while k > 0 && !is_whitespace(query.get_char(k - 1))
        invariant
            k <= n,
            n == query@.len(),
            last_ws(query@) == last_ws(query@.subrange(0, k as int)),
        decreases k,
    {
        assert(query@.subrange(0, k as int).drop_last() =~= query@.subrange(0, k - 1));
        k = k - 1;
    }
    proof {
        if k > 0 {
            assert(query@.subrange(0, k as int).last() == query@[k - 1]);
        }
    }
    let mut r = owned(query.substring_char(0, k));
    r.append(item);
    r
}

/// The daemon's permission choice for the view's.
pub fn turn_permission_choice(choice: PermissionChoice) -> (r: TurnPermissionChoice)
    ensures
        r == match choice {
            PermissionChoice::AllowOnce => TurnPermissionChoice::AllowOnce,
            PermissionChoice::AllowAlways => TurnPermissionChoice::AllowAlways,
            PermissionChoice::Reject => TurnPermissionChoice::Reject,
            PermissionChoice::Inspect => TurnPermissionChoice::Inspect,
            PermissionChoice::Cancel => TurnPermissionChoice::Cancel,
        },
{
    match choice {
        PermissionChoice::AllowOnce => TurnPermissionChoice::AllowOnce,
        PermissionChoice::AllowAlways => TurnPermissionChoice::AllowAlways,
        PermissionChoice::Reject => TurnPermissionChoice::Reject,
        PermissionChoice::Inspect => TurnPermissionChoice::Inspect,
        PermissionChoice::Cancel => TurnPermissionChoice::Cancel,
    }
}

} // verus!
