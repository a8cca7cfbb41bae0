//! The typed chat model behind the conversation view: cards, the streaming
//! status, and a reducer over typed actions and durable session events.
use crate::proto::completion::{CompletionDelta, CompletionStreamResult};
use crate::proto::turn::{
    spec_event_turn_id, ArtifactReference, SequencedEvent, ToolStatusValue, TurnEvent,
};
use crate::text::{blank, has_prefix, is_blank, owned, starts_with, str_eq, trim, trimmed};
use vstd::prelude::*;
use vstd::string::*;
use vstd::hash_set::StringHashSet;

verus! {

#[derive(Debug, Clone, Copy, PartialEq, Eq, Structural)]
pub enum Role {
    User,
    Assistant,
    Tool,
    System,
}

#[derive(Debug, Clone, PartialEq, Eq)]
pub enum Card {
    Message { role: Role, text: String },
    Tool { name: String, input: String, output: String, expanded: bool },
    Diff { session_id: String, turn_id: String, path: String, patch: String, approved: bool },
    Permission {
        session_id: String,
        turn_id: String,
        request_id: String,
        tool: String,
        description: String,
    },
    Question {
        session_id: String,
        turn_id: String,
        question_id: String,
        question: String,
        answer: Option<String>,
    },
}

/// A card as values.
pub enum CardView {
    Message { role: Role, text: Seq<char> },
    Tool { name: Seq<char>, input: Seq<char>, output: Seq<char>, expanded: bool },
    Diff {
        session_id: Seq<char>,
        turn_id: Seq<char>,
        path: Seq<char>,
        patch: Seq<char>,
        approved: bool,
    },
    Permission {
        session_id: Seq<char>,
        turn_id: Seq<char>,
        request_id: Seq<char>,
        tool: Seq<char>,
        description: Seq<char>,
    },
    Question {
        session_id: Seq<char>,
        turn_id: Seq<char>,
        question_id: Seq<char>,
        question: Seq<char>,
        answer: Option<Seq<char>>,
    },
}

pub open spec fn opt_seq(o: Option<String>) -> Option<Seq<char>> {
    match o {
        Some(s) => Some(s@),
        None => None,
    }
}

impl View for Card {
    type V = CardView;

    open spec fn view(&self) -> CardView {
        match self {
            Card::Message { role, text } => CardView::Message { role: *role, text: text@ },
            Card::Tool { name, input, output, expanded } => CardView::Tool {
                name: name@,
                input: input@,
                output: output@,
                expanded: *expanded,
            },
            Card::Diff { session_id, turn_id, path, patch, approved } => CardView::Diff {
                session_id: session_id@,
                turn_id: turn_id@,
                path: path@,
                patch: patch@,
                approved: *approved,
            },
            Card::Permission { session_id, turn_id, request_id, tool, description } =>
                CardView::Permission {
                session_id: session_id@,
                turn_id: turn_id@,
                request_id: request_id@,
                tool: tool@,
                description: description@,
            },
            Card::Question { session_id, turn_id, question_id, question, answer } =>
                CardView::Question {
                session_id: session_id@,
                turn_id: turn_id@,
                question_id: question_id@,
                question: question@,
                answer: opt_seq(*answer),
            },
        }
    }
}

#[derive(Debug, Clone, PartialEq, Eq)]
pub enum ChatStatus {
    Ready,
    Streaming,
    Failed(String),
}

pub enum StatusView {
    Ready,
    Streaming,
    Failed(Seq<char>),
}

impl View for ChatStatus {
    type V = StatusView;

    open spec fn view(&self) -> StatusView {
        match self {
            ChatStatus::Ready => StatusView::Ready,
            ChatStatus::Streaming => StatusView::Streaming,
            ChatStatus::Failed(e) => StatusView::Failed(e@),
        }
    }
}

#[derive(Debug, Clone, Copy, PartialEq, Eq, Structural)]
pub enum PermissionChoice {
    AllowOnce,
    AllowAlways,
    Reject,
    Inspect,
    Cancel,
}

/// An item of a completion stream: a partial text, or the final result.
#[derive(Debug, Clone, PartialEq, Eq)]
pub enum CompletionEvent {
    Delta(CompletionDelta),
    Complete(CompletionStreamResult),
}

pub struct ChatState {
    pub cards: Vec<Card>,
    pub session_id: Option<String>,
    pub usage: Option<u64>,
    pub status: ChatStatus,
    pub active_assistant: Option<usize>,
    /// Last accepted durable event, used to make reconnect/replay idempotent.
    pub last_sequence: u64,
    active_turn_id: Option<String>,
    seen_event_ids: StringHashSet,
}

/// What a chat holds, as values.
pub struct ChatView {
    pub cards: Seq<CardView>,
    pub session_id: Option<Seq<char>>,
    pub usage: Option<u64>,
    pub status: StatusView,
    pub active_assistant: Option<usize>,
    pub last_sequence: u64,
    pub active_turn_id: Option<Seq<char>>,
    pub seen: Set<Seq<char>>,
}

pub open spec fn card_views(v: Seq<Card>) -> Seq<CardView> {
    v.map_values(|c: Card| c@)
}

impl View for ChatState {
    type V = ChatView;

    closed spec fn view(&self) -> ChatView {
        ChatView {
            cards: card_views(self.cards@),
            session_id: opt_seq(self.session_id),
            usage: self.usage,
            status: self.status@,
            active_assistant: self.active_assistant,
            last_sequence: self.last_sequence,
            active_turn_id: opt_seq(self.active_turn_id),
            seen: self.seen_event_ids@,
        }
    }
}

#[derive(Debug, Clone)]
pub enum ChatAction {
    Submit(String),
    Completion(CompletionEvent),
    /// Durable event from the typed session backend.
    SessionEvent(SequencedEvent),
    Error(String),
    ToggleTool(usize),
    ApproveDiff(usize, bool),
    Permission(usize, PermissionChoice),
    AnswerQuestion(usize, String),
}

pub open spec fn empty_chat() -> ChatView {
    ChatView {
        cards: Seq::empty(),
        session_id: None,
        usage: None,
        status: StatusView::Ready,
        active_assistant: None,
        last_sequence: 0,
        active_turn_id: None,
        seen: Set::empty(),
    }
}

pub open spec fn message(role: Role, text: Seq<char>) -> CardView {
    CardView::Message { role: role, text: text }
}

/// A message from `session` belongs here unless the chat is bound to
/// another session.
pub open spec fn same_session(v: ChatView, session: Seq<char>) -> bool {
    match v.session_id {
        Some(id) => id == session,
        None => true,
    }
}

/// The active assistant card, when it is a message, with `f` applied to its
/// text.
pub open spec fn with_assistant_text(
    v: ChatView,
    index: usize,
    text: spec_fn(Seq<char>) -> Seq<char>,
) -> Seq<CardView> {
    match v.cards[index as int] {
        CardView::Message { role, text: t } => v.cards.update(
            index as int,
            message(role, text(t)),
        ),
        _ => v.cards,
    }
}

pub open spec fn tool_marker() -> Seq<char> {
    seq!['\n', '[', 't', 'o', 'o', 'l', ' ']
}

pub open spec fn delta_applied(v: ChatView, delta: CompletionDelta) -> (ChatView, bool) {
    if !same_session(v, delta.session_id@) {
        (v, false)
    } else {
        let v1 = ChatView {
            session_id: match v.session_id {
                Some(id) => Some(id),
                None => Some(delta.session_id@),
            },
            ..v
        };
        match v1.active_assistant {
            None => (v1, false),
            Some(index) => if has_prefix(delta.text@, tool_marker()) {
                let cards = v1.cards.update(
                    index as int,
                    CardView::Tool {
                        name: trim(delta.text@),
                        input: Seq::empty(),
                        output: Seq::empty(),
                        expanded: false,
                    },
                ).push(message(Role::Assistant, Seq::empty()));
                (
                    ChatView {
                        cards: cards,
                        active_assistant: Some((cards.len() - 1) as usize),
                        ..v1
                    },
                    true,
                )
            } else {
                (
                    ChatView {
                        cards: with_assistant_text(v1, index, |t: Seq<char>| t + delta.text@),
                        ..v1
                    },
                    true,
                )
            },
        }
    }
}

pub open spec fn finished(v: ChatView, result: CompletionStreamResult) -> (ChatView, bool) {
    if !same_session(v, result.session_id@) {
        (v, false)
    } else {
        match v.active_assistant {
            None => (v, false),
            Some(index) => (
                ChatView {
                    cards: with_assistant_text(v, index, |t: Seq<char>| result.text@),
                    session_id: Some(result.session_id@),
                    usage: Some(result.usage.total_tokens),
                    status: StatusView::Ready,
                    active_assistant: None,
                    ..v
                },
                true,
            ),
        }
    }
}

pub open spec fn error_prefix() -> Seq<char> {
    seq!['E', 'r', 'r', 'o', 'r', ':', ' ']
}

pub open spec fn failed(v: ChatView, error: Seq<char>) -> (ChatView, bool) {
    match v.active_assistant {
        None => (v, false),
        Some(index) => (
            ChatView {
                cards: with_assistant_text(v, index, |t: Seq<char>| error_prefix() + error),
                status: StatusView::Failed(error),
                active_assistant: None,
                ..v
            },
            true,
        ),
    }
}

/// A permission answer that settles the request, and so removes its card.
pub open spec fn settles(choice: PermissionChoice) -> bool {
    choice == PermissionChoice::AllowOnce || choice == PermissionChoice::AllowAlways || choice
        == PermissionChoice::Reject
}

pub open spec fn tool_name() -> Seq<char> {
    seq!['t', 'o', 'o', 'l']
}

/// The card a durable event adds, if any.
pub open spec fn event_card(event: TurnEvent, session: Seq<char>, turn: Seq<char>) -> Option<
    CardView,
> {
    match event {
        TurnEvent::ToolOutput { output, .. } => Some(
            CardView::Tool {
                name: tool_name(),
                input: Seq::empty(),
                output: output.inline@,
                expanded: false,
            },
        ),
        TurnEvent::PermissionRequested { request_id, tool, description, .. } => Some(
            CardView::Permission {
                session_id: session,
                turn_id: turn,
                request_id: request_id@,
                tool: tool@,
                description: description@,
            },
        ),
        TurnEvent::QuestionAsked { question_id, question, .. } => Some(
            CardView::Question {
                session_id: session,
                turn_id: turn,
                question_id: question_id@,
                question: question@,
                answer: None,
            },
        ),
        TurnEvent::DiffRequested { path, diff, .. } => Some(
            CardView::Diff {
                session_id: session,
                turn_id: turn,
                path: path@,
                patch: diff@,
                approved: false,
            },
        ),
        _ => None,
    }
}

/// A durable event applied to the chat.  Events of another session, at or
/// before the last accepted sequence, already seen, or of another turn than
/// the active one are refused; a refused event of another turn is still
/// remembered as seen.  Text joins the active assistant message; tool
/// output, permission, question and diff requests add cards; the end of a
/// turn releases it; its start is reported.  Other events are recorded but
/// change no card.
pub open spec fn event_applied(v: ChatView, event: SequencedEvent) -> (ChatView, bool) {
    let session = event.session_id@;
    let turn = spec_event_turn_id(event.event);
    if !same_session(v, session) || event.sequence <= v.last_sequence || v.seen.contains(
        event.event_id@,
    ) {
        (v, false)
    } else {
        let v0 = ChatView { seen: v.seen.insert(event.event_id@), ..v };
        if v0.active_turn_id is Some && v0.active_turn_id != Some(turn) {
            (v0, false)
        } else {
            let v1 = ChatView {
                session_id: Some(session),
                last_sequence: event.sequence,
                active_turn_id: Some(turn),
                ..v0
            };
            match event.event {
                TurnEvent::TextDelta { text, .. } => match v1.active_assistant {
                    None => (v1, false),
                    Some(index) => match v1.cards[index as int] {
                        CardView::Message { role, text: t } => (
                            ChatView {
                                cards: v1.cards.update(index as int, message(role, t + text@)),
                                ..v1
                            },
                            true,
                        ),
                        _ => (v1, false),
                    },
                },
                TurnEvent::TurnStarted { .. } => (v1, true),
                TurnEvent::TurnCompleted { .. } => (
                    ChatView {
                        active_assistant: None,
                        active_turn_id: None,
                        status: StatusView::Ready,
                        ..v1
                    },
                    true,
                ),
                TurnEvent::TurnCancelled { .. } => (
                    ChatView {
                        active_assistant: None,
                        active_turn_id: None,
                        status: StatusView::Ready,
                        ..v1
                    },
                    true,
                ),
                TurnEvent::TurnFailed { message, .. } => (
                    ChatView {
                        active_assistant: None,
                        active_turn_id: None,
                        status: StatusView::Failed(message@),
                        ..v1
                    },
                    true,
                ),
                _ => match event_card(event.event, session, turn) {
                    Some(card) => (ChatView { cards: v1.cards.push(card), ..v1 }, true),
                    None => (v1, false),
                },
            }
        }
    }
}

/// What one action does to the chat, and whether it was taken.
pub open spec fn reduced(v: ChatView, action: ChatAction) -> (ChatView, bool) {
    match action {
        ChatAction::SessionEvent(event) => event_applied(v, event),
        ChatAction::Submit(text) => if !blank(text@) && v.active_assistant is None {
            let cards = v.cards.push(message(Role::User, text@)).push(
                message(Role::Assistant, Seq::empty()),
            );
            (
                ChatView {
                    cards: cards,
                    active_assistant: Some((v.cards.len() + 1) as usize),
                    status: StatusView::Streaming,
                    ..v
                },
                true,
            )
        } else {
            (v, false)
        },
        ChatAction::Completion(CompletionEvent::Delta(delta)) => delta_applied(v, delta),
        ChatAction::Completion(CompletionEvent::Complete(result)) => finished(v, result),
        ChatAction::Error(error) => failed(v, error@),
        ChatAction::ToggleTool(index) => if index < v.cards.len() {
            match v.cards[index as int] {
                CardView::Tool { name, input, output, expanded } => (
                    ChatView {
                        cards: v.cards.update(
                            index as int,
                            CardView::Tool {
                                name: name,
                                input: input,
                                output: output,
                                expanded: !expanded,
                            },
                        ),
                        ..v
                    },
                    true,
                ),
                _ => (v, false),
            }
        } else {
            (v, false)
        },
        ChatAction::ApproveDiff(index, approved) => if index < v.cards.len() {
            match v.cards[index as int] {
                CardView::Diff { session_id, turn_id, path, patch, .. } => (
                    ChatView {
                        cards: if approved {
                            v.cards.update(
                                index as int,
                                CardView::Diff {
                                    session_id: session_id,
                                    turn_id: turn_id,
                                    path: path,
                                    patch: patch,
                                    approved: true,
                                },
                            )
                        } else {
                            v.cards.remove(index as int)
                        },
                        ..v
                    },
                    true,
                ),
                _ => (v, false),
            }
        } else {
            (v, false)
        },
        ChatAction::Permission(index, choice) => if index < v.cards.len()
            && v.cards[index as int] is Permission {
            (
                ChatView {
                    cards: if settles(choice) {
                        v.cards.remove(index as int)
                    } else {
                        v.cards
                    },
                    ..v
                },
                true,
            )
        } else {
            (v, false)
        },
        ChatAction::AnswerQuestion(index, answer) => if index < v.cards.len() {
            match v.cards[index as int] {
                CardView::Question { session_id, turn_id, question_id, question, .. } => (
                    ChatView {
                        cards: v.cards.update(
                            index as int,
                            CardView::Question {
                                session_id: session_id,
                                turn_id: turn_id,
                                question_id: question_id,
                                question: question,
                                answer: Some(answer@),
                            },
                        ),
                        ..v
                    },
                    true,
                ),
                _ => (v, false),
            }
        } else {
            (v, false)
        },
    }
}

/// The actions that write the active assistant card, when it points past
/// the cards (cards were removed under it), index out of bounds, which
/// panics.
pub open spec fn reduce_panics(v: ChatView, action: ChatAction) -> bool {
    let dangling = match v.active_assistant {
        Some(i) => i >= v.cards.len(),
        None => false,
    };
    dangling && match action {
        ChatAction::Completion(CompletionEvent::Delta(delta)) => same_session(
            v,
            delta.session_id@,
        ),
        ChatAction::Completion(CompletionEvent::Complete(result)) => same_session(
            v,
            result.session_id@,
        ),
        ChatAction::Error(_) => true,
        ChatAction::SessionEvent(event) => {
            let turn = spec_event_turn_id(event.event);
            &&& event.event is TextDelta
            &&& same_session(v, event.session_id@)
            &&& event.sequence > v.last_sequence
            &&& !v.seen.contains(event.event_id@)
            &&& (v.active_turn_id is None || v.active_turn_id == Some(turn))
        },
        _ => false,
    }
}

/// `"Error: {error}"`.
fn error_text(error: &str) -> (r: String)
    ensures
        r@ == error_prefix() + error@,
{
    let prefix = "Error: ";
    proof {
        reveal_strlit("Error: ");
    }
    assert(prefix@ =~= error_prefix());
    let mut r = owned(prefix);
    r.append(error);
    r
}

impl Default for ChatState {
    fn default() -> (c: Self)
        ensures
            c@ == empty_chat(),
    {
        let c = ChatState {
            cards: Vec::new(),
            session_id: None,
            usage: None,
            status: ChatStatus::Ready,
            active_assistant: None,
            last_sequence: 0,
            active_turn_id: None,
            seen_event_ids: StringHashSet::new(),
        };
        assert(c@.cards =~= Seq::<CardView>::empty());
        assert(c@.seen =~= Set::<Seq<char>>::empty());
        c
    }
}

impl ChatState {
    /// The transcript cards as values.
    pub closed spec fn card_list(&self) -> Seq<Card> {
        self.cards@
    }

    /// The status as a value.
    pub closed spec fn status_value(&self) -> ChatStatus {
        self.status
    }

    /// The transcript cards, oldest first.
    pub fn cards(&self) -> (r: &[Card])
        ensures
            r@ == self.card_list(),
            card_views(r@) == self@.cards,
    {
        self.cards.as_slice()
    }

    pub fn session_id(&self) -> (r: Option<&str>)
        ensures
            match r {
                Some(t) => self@.session_id == Some(t@),
                None => self@.session_id.is_none(),
            },
    {
        match &self.session_id {
            Some(t) => Some(t.as_str()),
            None => None,
        }
    }

    pub fn usage(&self) -> (r: Option<u64>)
        ensures
            r == self@.usage,
    {
        self.usage
    }

    pub fn status(&self) -> (r: &ChatStatus)
        ensures
            *r == self.status_value(),
            r@ == self@.status,
    {
        &self.status
    }

    /// The index of the assistant card being streamed into, if any.
    pub fn active_assistant(&self) -> (r: Option<usize>)
        ensures
            r == self@.active_assistant,
    {
        self.active_assistant
    }

    pub fn last_sequence(&self) -> (r: u64)
        ensures
            r == self@.last_sequence,
    {
        self.last_sequence
    }
}

impl ChatState {
    /// Replace the text of the active assistant card, when it is a message.
    fn set_assistant_text(&mut self, index: usize, text: String)
        requires
            index < old(self).cards@.len(),
        ensures
            final(self)@ == (ChatView {
                cards: with_assistant_text(old(self)@, index, |t: Seq<char>| text@),
                ..old(self)@
            }),
    {
        let mut card = Card::Message { role: Role::User, text: String::new() };
        self.cards.set_and_swap(index, &mut card);
        let ghost before = old(self).cards@;
        match card {
            Card::Message { role, text: _ } => {
                self.cards.set(index, Card::Message { role, text });
                assert(card_views(self.cards@) =~= card_views(before).update(
                    index as int,
                    message(role, text@),
                ));
            },
            other => {
                self.cards.set(index, other);
                assert(self.cards@ =~= before);
            },
        }
    }

    /// Append to the text of the active assistant card, when it is a
    /// message.
    fn append_assistant_text(&mut self, index: usize, more: &str)
        requires
            index < old(self).cards@.len(),
        ensures
            final(self)@ == (ChatView {
                cards: with_assistant_text(old(self)@, index, |t: Seq<char>| t + more@),
                ..old(self)@
            }),
    {
        let mut card = Card::Message { role: Role::User, text: String::new() };
        self.cards.set_and_swap(index, &mut card);
        let ghost before = old(self).cards@;
        match card {
            Card::Message { role, mut text } => {
                let ghost t0 = text@;
                text.append(more);
                self.cards.set(index, Card::Message { role, text });
                assert(card_views(self.cards@) =~= card_views(before).update(
                    index as int,
                    message(role, t0 + more@),
                ));
            },
            other => {
                self.cards.set(index, other);
                assert(self.cards@ =~= before);
            },
        }
    }

    /// Remember a durable event id.
    fn remember(&mut self, id: String)
        ensures
            final(self)@ == (ChatView { seen: old(self)@.seen.insert(id@), ..old(self)@ }),
    {
        self.seen_event_ids.insert(id);
    }
}

fn bound_to(session_id: &Option<String>, session: &str) -> (b: bool)
    ensures
        b == match opt_seq(*session_id) {
            Some(id) => id == session@,
            None => true,
        },
{
    match session_id {
        Some(id) => str_eq(id.as_str(), session),
        None => true,
    }
}

impl ChatState {
    fn apply_session_event(&mut self, event: SequencedEvent) -> (r: bool)
        requires
            !reduce_panics(old(self)@, ChatAction::SessionEvent(event)),
        ensures
            (final(self)@, r) == event_applied(old(self)@, event),
    {
        if !bound_to(&self.session_id, event.session_id.as_str()) {
            return false;
        }
        if event.sequence <= self.last_sequence || self.seen_event_ids.contains(event.event_id.as_str()) {
            return false;
        }
        self.remember(event.event_id.clone());
        let session_id = event.session_id.clone();
        let turn_id = owned(event.event.turn_id().as_str());
        let other_turn = match &self.active_turn_id {
            Some(active) => !str_eq(active.as_str(), turn_id.as_str()),
            None => false,
        };
        if other_turn {
            return false;
        }
        self.session_id = Some(session_id.clone());
        self.last_sequence = event.sequence;
        self.active_turn_id = Some(turn_id.clone());
        let ghost v1 = self@;
        match event.event {
            TurnEvent::TextDelta { text, .. } => match self.active_assistant {
                None => false,
                Some(index) => {
                    if matches!(self.cards[index], Card::Message { .. }) {
                        self.append_assistant_text(index, text.as_str());
                        true
                    } else {
                        false
                    }
                },
            },
            TurnEvent::ToolOutput { output, .. } => {
                let name = "tool";
                proof {
                    reveal_strlit("tool");
                }
                assert(name@ =~= tool_name());
                let ghost before = card_views(self.cards@);
                self.cards.push(
                    Card::Tool {
                        name: owned(name),
                        input: String::new(),
                        output: output.inline,
                        expanded: false,
                    },
                );
                assert(card_views(self.cards@) =~= before.push(
                    CardView::Tool {
                        name: tool_name(),
                        input: Seq::empty(),
                        output: output.inline@,
                        expanded: false,
                    },
                ));
                true
            },
            TurnEvent::PermissionRequested { request_id, tool, description, .. } => {
                let ghost before = card_views(self.cards@);
                let card = Card::Permission {
                    session_id,
                    turn_id,
                    request_id,
                    tool,
                    description,
                };
                let ghost cv = card@;
                self.cards.push(card);
                assert(card_views(self.cards@) =~= before.push(cv));
                true
            },
            TurnEvent::QuestionAsked { question_id, question, .. } => {
                let ghost before = card_views(self.cards@);
                let card = Card::Question {
                    session_id,
                    turn_id,
                    question_id,
                    question,
                    answer: None,
                };
                let ghost cv = card@;
                self.cards.push(card);
                assert(card_views(self.cards@) =~= before.push(cv));
                true
            },
            TurnEvent::DiffRequested { path, diff, .. } => {
                let ghost before = card_views(self.cards@);
                let card = Card::Diff { session_id, turn_id, path, patch: diff, approved: false };
                let ghost cv = card@;
                self.cards.push(card);
                assert(card_views(self.cards@) =~= before.push(cv));
                true
            },
            TurnEvent::TurnStarted { .. } => true,
            TurnEvent::TurnCompleted { .. } => {
                self.active_assistant = None;
                self.active_turn_id = None;
                self.status = ChatStatus::Ready;
                true
            },
            TurnEvent::TurnCancelled { .. } => {
                self.active_assistant = None;
                self.active_turn_id = None;
                self.status = ChatStatus::Ready;
                true
            },
            TurnEvent::TurnFailed { message, .. } => {
                self.active_assistant = None;
                self.active_turn_id = None;
                self.status = ChatStatus::Failed(message);
                true
            },
            _ => false,
        }
    }

    fn finish(&mut self, result: CompletionStreamResult) -> (r: bool)
        requires
            !reduce_panics(
                old(self)@,
                ChatAction::Completion(CompletionEvent::Complete(result)),
            ),
        ensures
            (final(self)@, r) == finished(old(self)@, result),
    {
        if !bound_to(&self.session_id, result.session_id.as_str()) {
            return false;
        }
        match self.active_assistant {
            None => false,
            Some(index) => {
                self.active_assistant = None;
                self.set_assistant_text(index, result.text);
                self.session_id = Some(result.session_id);
                self.usage = Some(result.usage.total_tokens);
                self.status = ChatStatus::Ready;
                true
            },
        }
    }

    fn apply_delta(&mut self, delta: CompletionDelta) -> (r: bool)
        requires
            !reduce_panics(old(self)@, ChatAction::Completion(CompletionEvent::Delta(delta))),
        ensures
            (final(self)@, r) == delta_applied(old(self)@, delta),
    {
        if !bound_to(&self.session_id, delta.session_id.as_str()) {
            return false;
        }
        if self.session_id.is_none() {
            self.session_id = Some(delta.session_id.clone());
        }
        match self.active_assistant {
            None => false,
            Some(index) => {
                let marker = "\n[tool ";
                proof {
                    reveal_strlit("\n[tool ");
                }
                assert(marker@ =~= tool_marker());
                if starts_with(delta.text.as_str(), marker) {
                    let name = owned(trimmed(delta.text.as_str()));
                    let ghost before = self.cards@;
                    self.cards.set(
                        index,
                        Card::Tool {
                            name,
                            input: String::new(),
                            output: String::new(),
                            expanded: false,
                        },
                    );
                    self.cards.push(Card::Message { role: Role::Assistant, text: String::new() });
                    self.active_assistant = Some(self.cards.len() - 1);
                    assert(card_views(self.cards@) =~= card_views(before).update(
                        index as int,
                        CardView::Tool {
                            name: trim(delta.text@),
                            input: Seq::empty(),
                            output: Seq::empty(),
                            expanded: false,
                        },
                    ).push(message(Role::Assistant, Seq::empty())));
                } else {
                    self.append_assistant_text(index, delta.text.as_str());
                }
                true
            },
        }
    }

    /// Apply one action; says whether it was taken.
    pub fn reduce(&mut self, action: ChatAction) -> (r: bool)
        requires
            !reduce_panics(old(self)@, action),
        ensures
            (final(self)@, r) == reduced(old(self)@, action),
    {
        match action {
            ChatAction::SessionEvent(event) => self.apply_session_event(event),
            ChatAction::Submit(text) => {
                if !is_blank(text.as_str()) && self.active_assistant.is_none() {
                    let ghost before = card_views(self.cards@);
                    let ghost tv = text@;
                    self.cards.push(Card::Message { role: Role::User, text });
                    let index = self.cards.len();
                    self.cards.push(Card::Message { role: Role::Assistant, text: String::new() });
                    self.active_assistant = Some(index);
                    self.status = ChatStatus::Streaming;
                    assert(card_views(self.cards@) =~= before.push(message(Role::User, tv)).push(
                        message(Role::Assistant, Seq::empty()),
                    ));
                    true
                } else {
                    false
                }
            },
            ChatAction::Completion(CompletionEvent::Delta(delta)) => self.apply_delta(delta),
            ChatAction::Completion(CompletionEvent::Complete(result)) => self.finish(result),
            ChatAction::Error(error) => match self.active_assistant {
                None => false,
                Some(index) => {
                    self.active_assistant = None;
                    let text = error_text(error.as_str());
                    self.set_assistant_text(index, text);
                    self.status = ChatStatus::Failed(error);
                    true
                },
            },
            ChatAction::ToggleTool(index) => {
                if index >= self.cards.len() {
                    return false;
                }
                let ghost before = self.cards@;
                let mut card = Card::Message { role: Role::User, text: String::new() };
                self.cards.set_and_swap(index, &mut card);
                match card {
                    Card::Tool { name, input, output, expanded } => {
                        self.cards.set(index, Card::Tool { name, input, output, expanded: !expanded });
                        assert(card_views(self.cards@) =~= card_views(before).update(
                            index as int,
                            CardView::Tool {
                                name: name@,
                                input: input@,
                                output: output@,
                                expanded: !expanded,
                            },
                        ));
                        true
                    },
                    other => {
                        self.cards.set(index, other);
                        assert(self.cards@ =~= before);
                        false
                    },
                }
            },
            ChatAction::ApproveDiff(index, approved) => {
                if index >= self.cards.len() || !matches!(self.cards[index], Card::Diff { .. }) {
                    return false;
                }
                let ghost before = self.cards@;
                if approved {
                    let mut card = Card::Message { role: Role::User, text: String::new() };
                    self.cards.set_and_swap(index, &mut card);
                    match card {
                        Card::Diff { session_id, turn_id, path, patch, approved: _ } => {
                            self.cards.set(
                                index,
                                Card::Diff { session_id, turn_id, path, patch, approved: true },
                            );
                            assert(card_views(self.cards@) =~= card_views(before).update(
                                index as int,
                                CardView::Diff {
                                    session_id: session_id@,
                                    turn_id: turn_id@,
                                    path: path@,
                                    patch: patch@,
                                    approved: true,
                                },
                            ));
                        },
                        other => {
                            self.cards.set(index, other);
                        },
                    }
                } else {
                    self.cards.remove(index);
                    assert(card_views(self.cards@) =~= card_views(before).remove(index as int));
                }
                true
            },
            ChatAction::Permission(index, choice) => {
                if index >= self.cards.len() || !matches!(
                    self.cards[index],
                    Card::Permission { .. }
                ) {
                    return false;
                }
                if matches!(
                    choice,
                    PermissionChoice::AllowOnce | PermissionChoice::AllowAlways
                        | PermissionChoice::Reject
                ) {
                    let ghost before = self.cards@;
                    self.cards.remove(index);
                    assert(card_views(self.cards@) =~= card_views(before).remove(index as int));
                }
                true
            },
            ChatAction::AnswerQuestion(index, answer) => {
                if index >= self.cards.len() {
                    return false;
                }
                let ghost before = self.cards@;
                let mut card = Card::Message { role: Role::User, text: String::new() };
                self.cards.set_and_swap(index, &mut card);
                match card {
                    Card::Question { session_id, turn_id, question_id, question, answer: _ } => {
                        let ghost av = answer@;
                        self.cards.set(
                            index,
                            Card::Question {
                                session_id,
                                turn_id,
                                question_id,
                                question,
                                answer: Some(answer),
                            },
                        );
                        assert(card_views(self.cards@) =~= card_views(before).update(
                            index as int,
                            CardView::Question {
                                session_id: session_id@,
                                turn_id: turn_id@,
                                question_id: question_id@,
                                question: question@,
                                answer: Some(av),
                            },
                        ));
                        true
                    },
                    other => {
                        self.cards.set(index, other);
                        assert(self.cards@ =~= before);
                        false
                    },
                }
            },
        }
    }
}

/// Replaying a durable event is harmless: applying the same event a second
/// time is refused and changes nothing.
pub proof fn law_event_replay_is_idempotent(v: ChatView, event: SequencedEvent)
    ensures
        event_applied(event_applied(v, event).0, event) == (event_applied(v, event).0, false),
{
    let w = event_applied(v, event).0;
    if same_session(v, event.session_id@) && event.sequence > v.last_sequence && !v.seen.contains(
        event.event_id@,
    ) {
        assert(w.seen.contains(event.event_id@));
    }
}

/// Events of another session, at or before the last accepted sequence, or
/// already seen leave the chat as it is.
pub proof fn law_stale_events_are_ignored(v: ChatView, event: SequencedEvent)
    requires
        !same_session(v, event.session_id@) || event.sequence <= v.last_sequence
            || v.seen.contains(event.event_id@),
    ensures
        event_applied(v, event) == (v, false),
{
}

/// A turn end (completed or cancelled) for the chat's session, newer than
/// anything accepted, not seen before and for the running turn (or with no
/// turn running) is accepted.  An accepted turn end releases the turn: no
/// assistant card and no turn stay active, the chat is Ready, the cards
/// stay as they were, and the next non-blank prompt is taken.
pub proof fn law_turn_end_releases(v: ChatView, event: SequencedEvent, text: String)
    requires
        event.event is TurnCancelled || event.event is TurnCompleted,
        !blank(text@),
    ensures
        same_session(v, event.session_id@) && event.sequence > v.last_sequence && !v.seen.contains(
            event.event_id@,
        ) && (v.active_turn_id is None || v.active_turn_id == Some(spec_event_turn_id(event.event)))
            ==> event_applied(v, event).1,
        event_applied(v, event).1 ==> {
            let w = event_applied(v, event).0;
            &&& w.active_assistant is None
            &&& w.active_turn_id is None
            &&& w.status == StatusView::Ready
            &&& w.cards == v.cards
            &&& w.last_sequence == event.sequence
            &&& reduced(w, ChatAction::Submit(text)).1
        },
{
}

/// An accepted turn failure releases the turn the same way and shows the
/// daemon's message as the chat's failure.
pub proof fn law_turn_failure_releases(v: ChatView, event: SequencedEvent, message: Seq<char>)
    requires
        event.event matches TurnEvent::TurnFailed { message: m, .. } && m@ == message,
        event_applied(v, event).1,
    ensures
        ({
            let w = event_applied(v, event).0;
            &&& w.active_assistant is None
            &&& w.active_turn_id is None
            &&& w.status == StatusView::Failed(message)
            &&& w.cards == v.cards
        }),
{
}

/// The accepted sequence never goes back, whatever the action.
pub proof fn law_sequence_is_monotone(v: ChatView, action: ChatAction)
    ensures
        reduced(v, action).0.last_sequence >= v.last_sequence,
{
}

/// While an assistant reply is active, a new prompt is refused and nothing
/// changes; a blank prompt is refused too.
pub proof fn law_one_turn_at_a_time(v: ChatView, text: String)
    requires
        v.active_assistant is Some || blank(text@),
    ensures
        reduced(v, ChatAction::Submit(text)) == (v, false),
{
}

/// A submitted prompt adds the user's message and an empty assistant reply,
/// which becomes the active one, and the chat streams.
pub proof fn law_submit_starts_turn(v: ChatView, text: String)
    requires
        v.active_assistant is None,
        !blank(text@),
    ensures
        reduced(v, ChatAction::Submit(text)).1,
        reduced(v, ChatAction::Submit(text)).0.cards == v.cards.push(message(Role::User, text@)).push(
            message(Role::Assistant, Seq::empty()),
        ),
        reduced(v, ChatAction::Submit(text)).0.active_assistant == Some((v.cards.len() + 1) as usize),
        reduced(v, ChatAction::Submit(text)).0.status == StatusView::Streaming,
{
}

/// Rejecting a diff is terminal: its card leaves the chat.
pub proof fn law_rejected_diff_leaves(v: ChatView, index: usize)
    requires
        index < v.cards.len(),
        v.cards[index as int] is Diff,
    ensures
        reduced(v, ChatAction::ApproveDiff(index, false)) == (ChatView {
            cards: v.cards.remove(index as int),
            ..v
        }, true),
{
}

/// An answered permission request leaves the chat; inspecting or cancelling
/// keeps its card.
pub proof fn law_permission_settlement(v: ChatView, index: usize, choice: PermissionChoice)
    requires
        index < v.cards.len(),
        v.cards[index as int] is Permission,
    ensures
        reduced(v, ChatAction::Permission(index, choice)).1,
        reduced(v, ChatAction::Permission(index, choice)).0.cards == if settles(choice) {
            v.cards.remove(index as int)
        } else {
            v.cards
        },
{
}

/// What a durable event says, in the terms the feed presents.  Arbitrary
/// JSON payloads (`input`, `metadata`, `data`, `plan`, `usage`, `context`)
/// carry their serialized text.
#[derive(Debug, Clone, PartialEq, Eq)]
pub enum EventKind {
    Started,
    TextDelta { text: String },
    ReasoningDelta { text: String },
    ToolStarted { call_id: String, tool: String, input: Option<String> },
    ToolStatus { call_id: String, status: ToolStatusValue, metadata: Option<String> },
    ToolOutput { inline: String, truncated: bool, artifacts: Vec<ArtifactReference> },
    ToolCompleted { call_id: String, output: Option<String> },
    ToolError { call_id: String, error: String },
    PermissionRequested { permission_id: String, tool: String, description: String },
    QuestionAsked { question_id: String, question: String },
    DiffRequested { request_id: String, path: String, diff: String },
    PlanUpdated { plan: String },
    SystemMessage { message: String },
    IntegrationEvent { integration: String, event: String, data: Option<String> },
    CompactionStarted,
    CompactionCompleted { summary: Option<String> },
    Failed { message: String },
    Cancelled,
    Completed { message_id: Option<i64> },
    ArtifactCreated {
        artifact_id: String,
        media_type: String,
        size_bytes: u64,
        content_hash: String,
        storage_ref: String,
    },
    StatusChanged { status: String, message: Option<String> },
    Telemetry { usage: Option<String>, context: Option<String> },
    Other,
}

/// A durable event of the conversation journal with its identity, as the
/// feed receives it.
#[derive(Debug, Clone, PartialEq, Eq)]
pub struct TypedEvent {
    pub event_id: String,
    pub session_id: String,
    pub sequence: u64,
    pub occurred_at: i64,
    pub request_id: Option<String>,
    pub turn_id: String,
    pub kind: EventKind,
    pub raw: TurnEvent,
}

} // verus!
