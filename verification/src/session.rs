//! The course of a session: what the overlay asks of the world around it, and how it goes on with
//! what comes back.

use crate::action::{ActionPlan, PaneInput};
use crate::openrouter::{OpenRouterMessage, QueryError};
use crate::overlay::{AiChatOverlay, Instruction, Key, KeyOutcome};
use crate::reply::{AssistantAction, AssistantReply};
use crate::{action, openrouter, overlay, reply, text, transcript};
use vstd::prelude::*;

verus! {

/// What comes back from the world around the overlay.
#[derive(Debug, PartialEq, Eq)]
pub enum Event {
    /// A key was pressed.
    Key { key: Key, ctrl: bool },
    /// Text was pasted.
    Paste(String),
    /// Some other input arrived.
    Ignored,
    /// No input arrived for a while.
    Tick,
    /// What the pane shows.
    Snapshot(String),
    /// What became of a request.
    Reply(Result<AssistantReply, QueryError>),
    /// The pane is there.
    PaneReady,
    /// Whether an action is allowed.
    Answer(bool),
    /// The pane took its input.
    Sent,
}

/// What the overlay asks for.
#[derive(Debug, PartialEq, Eq)]
pub enum Request {
    /// Wait for input.
    Poll,
    /// Take a snapshot of the pane.
    Capture,
    /// Send these messages to the model.
    Query(Vec<OpenRouterMessage>),
    /// Make sure that the pane is still there.
    ResolvePane,
    /// Ask a person, in these words.
    Confirm(String),
    /// Send this to the pane.
    Send(Vec<PaneInput>),
    /// Close the overlay.
    Close,
    /// Give up with this error.
    Fail(String),
}

/// What is to be done next: draw the screen, as often as `draws` says, then meet the request.
#[derive(Debug, PartialEq, Eq)]
pub struct Output {
    pub draws: usize,
    pub request: Request,
}

/// An event came that nothing was asked for; nothing has changed.
#[derive(Clone, Copy, Debug, PartialEq, Eq)]
pub struct UnexpectedEvent;

/// What the session is waiting for.
#[derive(Debug)]
enum Phase {
    /// Input.
    Idle,
    /// A snapshot for an instruction.
    Capturing(Instruction),
    /// A snapshot for automation.
    Checking,
    /// The model's reply.
    Querying { snapshot: String, automated: bool },
    /// The pane, before the first of these actions.
    Resolving { actions: Vec<AssistantAction>, snapshot: String, automated: bool },
    /// A person's word on an action.
    Confirming {
        action: AssistantAction,
        rest: Vec<AssistantAction>,
        snapshot: String,
        automated: bool,
    },
    /// The pane, which takes the input of an action.
    Sending {
        action: AssistantAction,
        rest: Vec<AssistantAction>,
        snapshot: String,
        automated: bool,
    },
    /// Nothing any more.
    Closed,
}

/// A session of the overlay.
#[derive(Debug)]
pub struct Session {
    overlay: AiChatOverlay,
    phase: Phase,
}

/// The meaning of an [`Event`].
pub ghost enum EventView {
    Key { key: Key, ctrl: bool },
    Paste(Seq<char>),
    Ignored,
    Tick,
    Snapshot(Seq<char>),
    Reply(Result<reply::ReplyView, Seq<char>>),
    PaneReady,
    Answer(bool),
    Sent,
}

impl View for Event {
    type V = EventView;

    open spec fn view(&self) -> EventView {
        match self {
            Event::Key { key, ctrl } => EventView::Key { key: *key, ctrl: *ctrl },
            Event::Paste(s) => EventView::Paste(s@),
            Event::Ignored => EventView::Ignored,
            Event::Tick => EventView::Tick,
            Event::Snapshot(s) => EventView::Snapshot(s@),
            Event::Reply(Ok(r)) => EventView::Reply(Ok(r@)),
            Event::Reply(Err(e)) => EventView::Reply(Err(e.words())),
            Event::PaneReady => EventView::PaneReady,
            Event::Answer(allowed) => EventView::Answer(*allowed),
            Event::Sent => EventView::Sent,
        }
    }
}

/// The meaning of a [`Request`].
pub ghost enum RequestView {
    Poll,
    Capture,
    Query(Seq<openrouter::MessageView>),
    ResolvePane,
    Confirm(Seq<char>),
    Send(Seq<action::PaneInputView>),
    Close,
    Fail(Seq<char>),
}

impl View for Request {
    type V = RequestView;

    open spec fn view(&self) -> RequestView {
        match self {
            Request::Poll => RequestView::Poll,
            Request::Capture => RequestView::Capture,
            Request::Query(messages) => RequestView::Query(openrouter::message_views(messages@)),
            Request::ResolvePane => RequestView::ResolvePane,
            Request::Confirm(words) => RequestView::Confirm(words@),
            Request::Send(inputs) => RequestView::Send(action::input_views(inputs@)),
            Request::Close => RequestView::Close,
            Request::Fail(words) => RequestView::Fail(words@),
        }
    }
}

/// The meaning of an [`Output`].
pub ghost struct OutputView {
    pub draws: int,
    pub request: RequestView,
}

impl View for Output {
    type V = OutputView;

    open spec fn view(&self) -> OutputView {
        OutputView { draws: self.draws as int, request: self.request@ }
    }
}

/// What a session is waiting for.
pub ghost enum PhaseView {
    Idle,
    Capturing(overlay::InstructionView),
    Checking,
    Querying { snapshot: Seq<char>, automated: bool },
    Resolving { actions: Seq<reply::ActionView>, snapshot: Seq<char>, automated: bool },
    Confirming {
        action: reply::ActionView,
        rest: Seq<reply::ActionView>,
        snapshot: Seq<char>,
        automated: bool,
    },
    Sending {
        action: reply::ActionView,
        rest: Seq<reply::ActionView>,
        snapshot: Seq<char>,
        automated: bool,
    },
    Closed,
}

impl View for Phase {
    type V = PhaseView;

    closed spec fn view(&self) -> PhaseView {
        match self {
            Phase::Idle => PhaseView::Idle,
            Phase::Capturing(instruction) => PhaseView::Capturing(instruction@),
            Phase::Checking => PhaseView::Checking,
            Phase::Querying { snapshot, automated } => PhaseView::Querying {
                snapshot: snapshot@,
                automated: *automated,
            },
            Phase::Resolving { actions, snapshot, automated } => PhaseView::Resolving {
                actions: reply::action_views(actions@),
                snapshot: snapshot@,
                automated: *automated,
            },
            Phase::Confirming { action, rest, snapshot, automated } => PhaseView::Confirming {
                action: action@,
                rest: reply::action_views(rest@),
                snapshot: snapshot@,
                automated: *automated,
            },
            Phase::Sending { action, rest, snapshot, automated } => PhaseView::Sending {
                action: action@,
                rest: reply::action_views(rest@),
                snapshot: snapshot@,
                automated: *automated,
            },
            Phase::Closed => PhaseView::Closed,
        }
    }
}

/// The meaning of a [`Session`].
pub ghost struct SessionView {
    pub overlay: overlay::OverlayView,
    pub phase: PhaseView,
}

impl View for Session {
    type V = SessionView;

    closed spec fn view(&self) -> SessionView {
        SessionView { overlay: self.overlay@, phase: self.phase@ }
    }
}

/// The output that asks for something without drawing the screen.
pub open spec fn ask(request: RequestView) -> OutputView {
    OutputView { draws: 0, request }
}

/// The output that draws the screen once and then asks for something.
pub open spec fn draw_and_ask(request: RequestView) -> OutputView {
    OutputView { draws: 1, request }
}

/// The output that ends a reply: the reply draws the screen, and so does the key press that led to
/// it, unless automation asked for it.
pub open spec fn end_of_reply(automated: bool) -> OutputView {
    OutputView {
        draws: if automated {
            1
        } else {
            2
        },
        request: RequestView::Poll,
    }
}

impl SessionView {
    /// What holds of every session: its overlay is well formed, there is an action to deal with
    /// where the pane is waited for, and only risky actions wait for a person's word.
    pub open spec fn well_formed(self) -> bool {
        &&& self.overlay.well_formed()
        &&& match self.phase {
            PhaseView::Resolving { actions, .. } => actions.len() > 0,
            PhaseView::Confirming { action, snapshot, .. } => !action::is_void(action)
                && action::action_reason(action, snapshot) is Some,
            PhaseView::Sending { action, .. } => !action::is_void(action),
            _ => true,
        }
    }

    /// In another phase.
    pub open spec fn in_phase(self, phase: PhaseView) -> SessionView {
        SessionView { phase, ..self }
    }

    /// With another overlay.
    pub open spec fn with_overlay(self, overlay: overlay::OverlayView) -> SessionView {
        SessionView { overlay, ..self }
    }

    /// Goes on with the remaining actions of a reply: each needs the pane; after the last one the
    /// reply is finished.
    pub open spec fn go_on(
        self,
        rest: Seq<reply::ActionView>,
        snapshot: Seq<char>,
        automated: bool,
    ) -> (SessionView, OutputView) {
        if rest.len() == 0 {
            (
                self.with_overlay(self.overlay.finished()).in_phase(PhaseView::Idle),
                end_of_reply(automated),
            )
        } else {
            (
                self.in_phase(PhaseView::Resolving { actions: rest, snapshot, automated }),
                ask(RequestView::ResolvePane),
            )
        }
    }

    /// Goes about an action once the pane is there.
    pub open spec fn take_up(
        self,
        action: reply::ActionView,
        rest: Seq<reply::ActionView>,
        snapshot: Seq<char>,
        automated: bool,
    ) -> (SessionView, OutputView) {
        if action::is_void(action) {
            self.go_on(rest, snapshot, automated)
        } else {
            match action::action_reason(action, snapshot) {
                Some(reason) => (
                    self.in_phase(PhaseView::Confirming { action, rest, snapshot, automated }),
                    ask(RequestView::Confirm(action::confirmation(action, reason))),
                ),
                None => self.send(action, rest, snapshot, automated),
            }
        }
    }

    /// Sends an action to the pane.
    pub open spec fn send(
        self,
        action: reply::ActionView,
        rest: Seq<reply::ActionView>,
        snapshot: Seq<char>,
        automated: bool,
    ) -> (SessionView, OutputView) {
        (
            self.in_phase(PhaseView::Sending { action, rest, snapshot, automated }),
            ask(RequestView::Send(action::inputs_of(action))),
        )
    }

    /// After the pane took the input of an action.
    pub open spec fn conclude(
        self,
        action: reply::ActionView,
        rest: Seq<reply::ActionView>,
        snapshot: Seq<char>,
        automated: bool,
    ) -> (SessionView, OutputView) {
        match action::failure_of(action) {
            Some(words) => (self.in_phase(PhaseView::Closed), ask(RequestView::Fail(words))),
            None => self.with_overlay(self.overlay.done(action)).go_on(rest, snapshot, automated),
        }
    }

    /// After the model's reply came.
    pub open spec fn replied(
        self,
        r: reply::ReplyView,
        snapshot: Seq<char>,
        automated: bool,
    ) -> (SessionView, OutputView) {
        if automated && text::trim(r.message).len() == 0 && r.actions.len() == 0 {
            (
                self.with_overlay(self.overlay.quiet()).in_phase(PhaseView::Idle),
                ask(RequestView::Poll),
            )
        } else {
            self.with_overlay(self.overlay.answered(r.message, automated)).go_on(
                r.actions,
                snapshot,
                automated,
            )
        }
    }

    /// After a request failed. Only an instruction of the user makes the screen be drawn again.
    pub open spec fn failed(self, words: Seq<char>, automated: bool) -> (SessionView, OutputView) {
        if automated {
            (
                self.with_overlay(self.overlay.check_failed(words)).in_phase(PhaseView::Idle),
                ask(RequestView::Poll),
            )
        } else {
            (
                self.with_overlay(self.overlay.request_failed(words)).in_phase(PhaseView::Idle),
                draw_and_ask(RequestView::Poll),
            )
        }
    }

    /// After a key press.
    pub open spec fn key_pressed(self, key: Key, ctrl: bool) -> (SessionView, OutputView) {
        let (after, outcome) = self.overlay.key_pressed(key, ctrl);
        match outcome {
            overlay::KeyOutcomeView::Close => (
                self.in_phase(PhaseView::Closed),
                ask(RequestView::Close),
            ),
            overlay::KeyOutcomeView::Redraw => (
                self.with_overlay(after),
                draw_and_ask(RequestView::Poll),
            ),
            overlay::KeyOutcomeView::Instruct(instruction) => (
                self.with_overlay(after).in_phase(PhaseView::Capturing(instruction)),
                ask(RequestView::Capture),
            ),
        }
    }

    /// How the session goes on after an event; `None` for an event that it does not wait for.
    pub open spec fn next(self, event: EventView) -> Option<(SessionView, OutputView)> {
        match (self.phase, event) {
            (PhaseView::Idle, EventView::Key { key, ctrl }) => Some(self.key_pressed(key, ctrl)),
            (PhaseView::Idle, EventView::Paste(s)) => Some(
                (
                    self.with_overlay(self.overlay.inserted(s)),
                    draw_and_ask(RequestView::Poll),
                ),
            ),
            (PhaseView::Idle, EventView::Ignored) => Some((self, ask(RequestView::Poll))),
            (PhaseView::Idle, EventView::Tick) => Some(
                if self.overlay.directive is Some {
                    (self.in_phase(PhaseView::Checking), ask(RequestView::Capture))
                } else {
                    (self, ask(RequestView::Poll))
                },
            ),
            (PhaseView::Capturing(instruction), EventView::Snapshot(snapshot)) => Some(
                (
                    self.with_overlay(
                        self.overlay.thinking(snapshot, instruction.from_watch_command),
                    ).in_phase(PhaseView::Querying { snapshot, automated: false }),
                    draw_and_ask(
                        RequestView::Query(
                            openrouter::request_views(
                                self.overlay.pane_title,
                                instruction.text,
                                snapshot,
                                false,
                            ),
                        ),
                    ),
                ),
            ),
            (PhaseView::Checking, EventView::Snapshot(snapshot)) => Some(
                if self.overlay.is_news(snapshot) {
                    (
                        self.with_overlay(self.overlay.watching(snapshot)).in_phase(
                            PhaseView::Querying { snapshot, automated: true },
                        ),
                        draw_and_ask(
                            RequestView::Query(
                                openrouter::request_views(
                                    self.overlay.pane_title,
                                    self.overlay.directive->0,
                                    snapshot,
                                    true,
                                ),
                            ),
                        ),
                    )
                } else {
                    (self.in_phase(PhaseView::Idle), ask(RequestView::Poll))
                },
            ),
            (PhaseView::Querying { snapshot, automated }, EventView::Reply(Ok(r))) => Some(
                self.replied(r, snapshot, automated),
            ),
            (PhaseView::Querying { automated, .. }, EventView::Reply(Err(words))) => Some(
                self.failed(words, automated),
            ),
            (PhaseView::Resolving { actions, snapshot, automated }, EventView::PaneReady) => Some(
                self.take_up(actions[0], actions.drop_first(), snapshot, automated),
            ),
            (
                PhaseView::Confirming { action, rest, snapshot, automated },
                EventView::Answer(allowed),
            ) => Some(
                if allowed {
                    self.send(action, rest, snapshot, automated)
                } else {
                    self.with_overlay(self.overlay.blocked(action)).go_on(
                        rest,
                        snapshot,
                        automated,
                    )
                },
            ),
            (PhaseView::Sending { action, rest, snapshot, automated }, EventView::Sent) => Some(
                self.conclude(action, rest, snapshot, automated),
            ),
            _ => None,
        }
    }

    /// The session after an event that it waits for.
    pub open spec fn after(self, event: EventView) -> SessionView {
        (self.next(event)->0).0
    }

    /// What is to be done after an event that the session waits for.
    pub open spec fn output(self, event: EventView) -> OutputView {
        (self.next(event)->0).1
    }
}

impl Output {
    fn ask(request: Request) -> (r: Output)
        ensures
            r@ == ask(request@),
    {
        Output { draws: 0, request }
    }

    fn draw_and_ask(request: Request) -> (r: Output)
        ensures
            r@ == draw_and_ask(request@),
    {
        Output { draws: 1, request }
    }

    fn end_of_reply(automated: bool) -> (r: Output)
        ensures
            r@ == end_of_reply(automated),
    {
        let draws: usize = if automated {
            1
        } else {
            2
        };
        Output { draws, request: Request::Poll }
    }
}

impl Session {
    /// A session for the pane `pane_id`.
    pub fn new(pane_id: usize, pane_title: String) -> (r: Self)
        ensures
            r@ == (SessionView {
                overlay: overlay::opened(pane_id as int, pane_title@),
                phase: PhaseView::Idle,
            }),
            r@.well_formed(),
    {
        Session { overlay: AiChatOverlay::new(pane_id, pane_title), phase: Phase::Idle }
    }

    /// The state of the overlay.
    pub fn overlay(&self) -> (r: &AiChatOverlay)
        ensures
            r@ == self@.overlay,
    {
        &self.overlay
    }

    fn go_on(&mut self, rest: Vec<AssistantAction>, snapshot: String, automated: bool) -> (r: Output)
        requires
            old(self)@.overlay.well_formed(),
        ensures
            (final(self)@, r@) == old(self)@.go_on(
                reply::action_views(rest@),
                snapshot@,
                automated,
            ),
            final(self)@.well_formed(),
    {
        if rest.len() == 0 {
            self.overlay.reply_finished();
            self.phase = Phase::Idle;
            Output::end_of_reply(automated)
        } else {
            self.phase = Phase::Resolving { actions: rest, snapshot, automated };
            Output::ask(Request::ResolvePane)
        }
    }

    fn apply_reply(&mut self, r: AssistantReply, snapshot: String, automated: bool) -> (out: Output)
        requires
            old(self)@.overlay.well_formed(),
        ensures
            (final(self)@, out@) == old(self)@.replied(r@, snapshot@, automated),
            final(self)@.well_formed(),
    {
        if automated && text::trimmed(r.message.as_str()).as_str().is_empty() && r.actions.len()
            == 0 {
            self.overlay.automation_quiet();
            self.phase = Phase::Idle;
            return Output::ask(Request::Poll);
        }
        self.overlay.show_message(r.message.as_str(), automated);
        self.go_on(r.actions, snapshot, automated)
    }

    fn execute_action(
        &mut self,
        action: AssistantAction,
        rest: Vec<AssistantAction>,
        snapshot: String,
        automated: bool,
    ) -> (out: Output)
        requires
            old(self)@.overlay.well_formed(),
        ensures
            (final(self)@, out@) == old(self)@.take_up(
                action@,
                reply::action_views(rest@),
                snapshot@,
                automated,
            ),
            final(self)@.well_formed(),
    {
        match action::plan_action(&action, snapshot.as_str()) {
            ActionPlan::Skip => self.go_on(rest, snapshot, automated),
            ActionPlan::Confirm(words) => {
                self.phase = Phase::Confirming { action, rest, snapshot, automated };
                Output::ask(Request::Confirm(words))
            },
            ActionPlan::Send(inputs) => {
                self.phase = Phase::Sending { action, rest, snapshot, automated };
                Output::ask(Request::Send(inputs))
            },
        }
    }

    /// Goes on after an event. An event that the session does not wait for is refused.
    pub fn step(&mut self, event: Event) -> (r: Result<Output, UnexpectedEvent>)
        requires
            old(self)@.well_formed(),
        ensures
            match r {
                Ok(out) => old(self)@.next(event@) == Some((final(self)@, out@)),
                Err(_) => old(self)@.next(event@) is None && final(self)@ == old(self)@,
            },
            final(self)@.well_formed(),
    {
        let mut phase = Phase::Idle;
        std::mem::swap(&mut self.phase, &mut phase);
        match (phase, event) {
            (Phase::Idle, Event::Key { key, ctrl }) => {
                match self.overlay.handle_key_event(key, ctrl) {
                    KeyOutcome::Close => {
                        self.phase = Phase::Closed;
                        Ok(Output::ask(Request::Close))
                    },
                    KeyOutcome::Redraw => Ok(Output::draw_and_ask(Request::Poll)),
                    KeyOutcome::Instruct(instruction) => {
                        self.phase = Phase::Capturing(instruction);
                        Ok(Output::ask(Request::Capture))
                    },
                }
            },
            (Phase::Idle, Event::Paste(s)) => {
                self.overlay.handle_paste(s.as_str());
                Ok(Output::draw_and_ask(Request::Poll))
            },
            (Phase::Idle, Event::Ignored) => Ok(Output::ask(Request::Poll)),
            (Phase::Idle, Event::Tick) => {
                if self.overlay.is_watching() {
                    self.phase = Phase::Checking;
                    Ok(Output::ask(Request::Capture))
                } else {
                    Ok(Output::ask(Request::Poll))
                }
            },
            (Phase::Capturing(instruction), Event::Snapshot(snapshot)) => {
                let messages = self.overlay.process_instruction(&instruction, snapshot.as_str());
                self.phase = Phase::Querying { snapshot, automated: false };
                Ok(Output::draw_and_ask(Request::Query(messages)))
            },
            (Phase::Checking, Event::Snapshot(snapshot)) => {
                match self.overlay.maybe_run_automation(snapshot.as_str()) {
                    Some(messages) => {
                        self.phase = Phase::Querying { snapshot, automated: true };
                        Ok(Output::draw_and_ask(Request::Query(messages)))
                    },
                    None => Ok(Output::ask(Request::Poll)),
                }
            },
            (Phase::Querying { snapshot, automated }, Event::Reply(Ok(reply))) => Ok(
                self.apply_reply(reply, snapshot, automated),
            ),
            (Phase::Querying { automated, .. }, Event::Reply(Err(error))) => {
                if automated {
                    self.overlay.automation_failed(&error);
                    Ok(Output::ask(Request::Poll))
                } else {
                    self.overlay.instruction_failed(&error);
                    Ok(Output::draw_and_ask(Request::Poll))
                }
            },
            (Phase::Resolving { actions, snapshot, automated }, Event::PaneReady) => {
                let mut rest = actions;
                let action = rest.remove(0);
                assert(reply::action_views(rest@) =~= reply::action_views(actions@).drop_first());
                Ok(self.execute_action(action, rest, snapshot, automated))
            },
            (Phase::Confirming { action, rest, snapshot, automated }, Event::Answer(allowed)) => {
                if allowed {
                    let inputs = action::action_inputs(&action);
                    self.phase = Phase::Sending { action, rest, snapshot, automated };
                    Ok(Output::ask(Request::Send(inputs)))
                } else {
                    self.overlay.action_blocked(&action);
                    Ok(self.go_on(rest, snapshot, automated))
                }
            },
            (Phase::Sending { action, rest, snapshot, automated }, Event::Sent) => {
                match action::action_failure(&action) {
                    Some(words) => {
                        self.phase = Phase::Closed;
                        Ok(Output::ask(Request::Fail(words)))
                    },
                    None => {
                        self.overlay.action_done(&action);
                        Ok(self.go_on(rest, snapshot, automated))
                    },
                }
            },
            (phase, _) => {
                self.phase = phase;
                Err(UnexpectedEvent)
            },
        }
    }
}

/// Every event that is taken keeps a session well formed.
pub proof fn events_keep_well_formed(s: SessionView, event: EventView)
    requires
        s.well_formed(),
        s.next(event) is Some,
    ensures
        s.after(event).well_formed(),
{
}

/// Nothing risky is done without a person's word: whatever is sent to the pane is either the next
/// action of a reply, found to be free of risk for what the pane showed, or an action that was put
/// to a person and allowed in this very step.
pub proof fn nothing_risky_without_a_yes(s: SessionView, event: EventView)
    requires
        s.well_formed(),
        s.next(event) is Some,
        s.output(event).request is Send,
    ensures
        match s.phase {
            PhaseView::Resolving { actions, snapshot, .. } => {
                &&& action::action_reason(actions[0], snapshot) is None
                &&& s.output(event).request == RequestView::Send(action::inputs_of(actions[0]))
            },
            PhaseView::Confirming { action, snapshot, .. } => {
                &&& event == EventView::Answer(true)
                &&& action::action_reason(action, snapshot) is Some
                &&& s.output(event).request == RequestView::Send(action::inputs_of(action))
            },
            _ => false,
        },
{
}

/// A person is asked about an action in words that name the action and the reason, and only about
/// an action that is risky.
pub proof fn only_risky_actions_are_asked_about(s: SessionView, event: EventView)
    requires
        s.next(event) is Some,
        s.output(event).request is Confirm,
    ensures
        s.phase matches PhaseView::Resolving { actions, snapshot, .. } && action::action_reason(
            actions[0],
            snapshot,
        ) matches Some(reason) && s.output(event).request == RequestView::Confirm(
            action::confirmation(actions[0], reason),
        ),
{
}

/// An action that is not allowed is not sent: the transcript says so, and the session goes on with
/// the actions behind it.
pub proof fn a_no_blocks_the_action(s: SessionView)
    requires
        s.phase is Confirming,
    ensures
        s.next(EventView::Answer(false)) matches Some((after, out)) && {
            &&& out.request is Poll || out.request is ResolvePane
            &&& after.overlay.transcript == s.overlay.transcript.push(
                transcript::EntryView {
                    role: transcript::Role::System,
                    text: action::blocked_report(s.phase->Confirming_action),
                },
            )
            &&& s.phase->Confirming_rest.len() > 0 ==> after.phase == (PhaseView::Resolving {
                actions: s.phase->Confirming_rest,
                snapshot: s.phase->Confirming_snapshot,
                automated: s.phase->Confirming_automated,
            })
            &&& s.phase->Confirming_rest.len() == 0 ==> after.phase is Idle
        },
{
}

/// While automation is off, nothing happens as long as no input arrives.
pub proof fn no_automation_while_off(s: SessionView)
    requires
        s.phase is Idle,
        s.overlay.directive is None,
    ensures
        s.next(EventView::Tick) == Some((s, ask(RequestView::Poll))),
{
}

/// Automation is turned on and off by the enter key alone.
pub proof fn only_enter_changes_automation(s: SessionView, event: EventView)
    requires
        s.next(event) is Some,
        !(event matches EventView::Key { key: Key::Enter, .. }),
    ensures
        s.after(event).overlay.directive == s.overlay.directive,
{
}

/// While automation is on and the pane shows something new, the model is asked to act on it by the
/// directive; while the pane shows what it showed, the model is not asked and nothing changes.
pub proof fn automation_asks_once_per_change(s: SessionView, snapshot: Seq<char>)
    requires
        s.phase is Idle,
        s.overlay.directive is Some,
    ensures
        s.next(EventView::Tick) matches Some((checking, out)) && {
            &&& out == ask(RequestView::Capture)
            &&& s.overlay.last_snapshot == Some(snapshot) ==> checking.next(
                EventView::Snapshot(snapshot),
            ) == Some((s, ask(RequestView::Poll)))
            &&& s.overlay.last_snapshot != Some(snapshot) ==> (checking.next(
                EventView::Snapshot(snapshot),
            ) matches Some((after, asked)) && {
                &&& asked == draw_and_ask(
                    RequestView::Query(
                        openrouter::request_views(
                            s.overlay.pane_title,
                            s.overlay.directive->0,
                            snapshot,
                            true,
                        ),
                    ),
                )
                &&& after.overlay.last_snapshot == Some(snapshot)
            })
        },
{
    if s.overlay.last_snapshot == Some(snapshot) {
        let checking = s.after(EventView::Tick);
        assert(checking.after(EventView::Snapshot(snapshot)) == s);
    }
}

/// Nothing that was said is ever lost or changed: each step adds to the transcript at most.
pub proof fn transcript_only_grows(s: SessionView, event: EventView)
    requires
        s.next(event) is Some,
    ensures
        ({
            let after = s.after(event).overlay.transcript;
            &&& s.overlay.transcript.len() <= after.len()
            &&& s.overlay.transcript == after.take(s.overlay.transcript.len() as int)
        }),
{
    let before = s.overlay.transcript;
    let after = s.after(event).overlay.transcript;
    assert(before =~= after.take(before.len() as int));
}

/// A session stays with its pane.
pub proof fn session_keeps_its_pane(s: SessionView, event: EventView)
    requires
        s.next(event) is Some,
    ensures
        s.after(event).overlay.pane_id == s.overlay.pane_id,
        s.after(event).overlay.pane_title == s.overlay.pane_title,
{
}

/// How much of a reply is still to be dealt with.
pub open spec fn work_left(phase: PhaseView) -> nat {
    match phase {
        PhaseView::Resolving { actions, .. } => 3 * actions.len(),
        PhaseView::Confirming { rest, .. } => 3 * rest.len() + 2,
        PhaseView::Sending { rest, .. } => 3 * rest.len() + 1,
        _ => 0,
    }
}

/// Dealing with a reply comes to an end: every step that deals with its actions leaves less to do,
/// and with nothing left the session waits for input again or is over.
pub proof fn replies_come_to_an_end(s: SessionView, event: EventView)
    requires
        s.well_formed(),
        s.next(event) is Some,
        s.phase is Resolving || s.phase is Confirming || s.phase is Sending,
    ensures
        work_left(s.after(event).phase) < work_left(s.phase),
        work_left(s.after(event).phase) == 0 ==> s.after(event).phase is Idle || s.after(
            event,
        ).phase is Closed,
{
}

/// Whatever is asked for, an answer to it is taken; and only what was asked for is.
pub proof fn requests_and_answers_match(s: SessionView, event: EventView)
    ensures
        s.next(event) is Some <==> match s.phase {
            PhaseView::Idle => event is Key || event is Paste || event is Ignored || event is Tick,
            PhaseView::Capturing(_) => event is Snapshot,
            PhaseView::Checking => event is Snapshot,
            PhaseView::Querying { .. } => event is Reply,
            PhaseView::Resolving { .. } => event is PaneReady,
            PhaseView::Confirming { .. } => event is Answer,
            PhaseView::Sending { .. } => event is Sent,
            PhaseView::Closed => false,
        },
        s.next(event) matches Some((after, out)) ==> match out.request {
            RequestView::Poll => after.phase is Idle,
            RequestView::Capture => after.phase is Capturing || after.phase is Checking,
            RequestView::Query(_) => after.phase is Querying,
            RequestView::ResolvePane => after.phase is Resolving,
            RequestView::Confirm(_) => after.phase is Confirming,
            RequestView::Send(_) => after.phase is Sending,
            RequestView::Close => after.phase is Closed,
            RequestView::Fail(_) => after.phase is Closed,
        },
{
}

/// A session begins with a newly opened overlay and waits for input.
pub proof fn a_session_begins_idle(pane_id: usize, pane_title: String, s: Session)
    requires
        call_ensures(Session::new, (pane_id, pane_title), s),
    ensures
        s@.phase is Idle,
        s@.overlay == overlay::opened(pane_id as int, pane_title@),
        s@.well_formed(),
{
}

/// Pasted text stands at the cursor as it is; nothing else changes, the screen is drawn once, and
/// the session waits on.
pub proof fn pasted_text_is_taken_in(s: SessionView, words: Seq<char>, k: int)
    requires
        s.phase is Idle,
        s.well_formed(),
    ensures
        s.next(EventView::Paste(words)) matches Some((after, out)) && {
            &&& out == (OutputView { draws: 1, request: RequestView::Poll })
            &&& after.phase is Idle
            &&& overlay::same_but_for_input(s.overlay, after.overlay)
            &&& after.overlay.input.len() == s.overlay.input.len() + words.len()
            &&& after.overlay.cursor == s.overlay.cursor + words.len()
            &&& 0 <= k < words.len() ==> after.overlay.input[s.overlay.cursor + k] == words[k]
            &&& 0 <= k < s.overlay.cursor ==> after.overlay.input[k] == s.overlay.input[k]
            &&& s.overlay.cursor <= k < s.overlay.input.len() ==> after.overlay.input[k
                + words.len()] == s.overlay.input[k]
        },
{
    overlay::inserted_text_stands_at_the_cursor(s.overlay, words, k);
    overlay::inserted_text_stands_at_the_cursor(s.overlay, words, s.overlay.cursor + k);
    overlay::inserted_text_stands_at_the_cursor(s.overlay, words, k + words.len());
}

/// A key press does to the overlay what the key does. Escape closes the session; a key that asks for
/// something makes it look at the pane for just that; after any other the screen is drawn once and
/// the session waits on.
pub proof fn keys_do_what_they_do(s: SessionView, key: Key, ctrl: bool)
    requires
        s.phase is Idle,
    ensures
        s.next(EventView::Key { key, ctrl }) matches Some((after, out)) && {
            let (pressed, outcome) = s.overlay.key_pressed(key, ctrl);
            &&& after.overlay == pressed
            &&& key == Key::Escape ==> after.phase is Closed && out == (OutputView {
                draws: 0,
                request: RequestView::Close,
            })
            &&& key != Key::Escape ==> !(after.phase is Closed)
            &&& outcome is Redraw ==> after.phase is Idle && out == (OutputView {
                draws: 1,
                request: RequestView::Poll,
            })
            &&& outcome matches overlay::KeyOutcomeView::Instruct(instruction) ==> after.phase
                == PhaseView::Capturing(instruction) && out == (OutputView {
                draws: 0,
                request: RequestView::Capture,
            })
        },
{
}

/// Other input changes nothing.
pub proof fn other_input_is_ignored(s: SessionView)
    requires
        s.phase is Idle,
    ensures
        s.next(EventView::Ignored) == Some(
            (s, OutputView { draws: 0, request: RequestView::Poll }),
        ),
{
}

/// An instruction is asked of the model together with what the pane shows, as the user's own, while
/// the screen says that the model thinks.
pub proof fn instructions_are_asked(
    s: SessionView,
    instruction: overlay::InstructionView,
    snapshot: Seq<char>,
)
    requires
        s.phase == PhaseView::Capturing(instruction),
    ensures
        s.next(EventView::Snapshot(snapshot)) matches Some((after, out)) && {
            &&& after.phase == (PhaseView::Querying { snapshot, automated: false })
            &&& out.draws == 1
            &&& out.request == RequestView::Query(
                openrouter::request_views(
                    s.overlay.pane_title,
                    instruction.text,
                    snapshot,
                    false,
                ),
            )
            &&& after.overlay == (overlay::OverlayView {
                status: "Thinking…"@,
                last_snapshot: after.overlay.last_snapshot,
                ..s.overlay
            })
            &&& instruction.from_watch_command ==> after.overlay.last_snapshot == Some(snapshot)
            &&& !instruction.from_watch_command ==> after.overlay.last_snapshot
                == s.overlay.last_snapshot
        },
{
    overlay::thinking_leaves_automation_alone(s.overlay, snapshot);
}

/// What automation saw last changes only where automation looks at something new, where its
/// directive is first taken up, and by the enter key.
pub proof fn only_automation_changes_what_it_saw(s: SessionView, event: EventView)
    requires
        s.next(event) is Some,
        s.after(event).overlay.last_snapshot != s.overlay.last_snapshot,
    ensures
        event is Snapshot || (event matches EventView::Key { key, .. } && key == Key::Enter),
        event matches EventView::Snapshot(snapshot) ==> s.after(event).overlay.last_snapshot == Some(
            snapshot,
        ) && match s.phase {
            PhaseView::Capturing(instruction) => instruction.from_watch_command,
            PhaseView::Checking => s.overlay.directive is Some && s.overlay.last_snapshot != Some(
                snapshot,
            ),
            _ => false,
        },
        event is Key ==> s.after(event).overlay.last_snapshot is None,
{
}

/// A plain question in between does not make automation miss what the pane shows: after the question
/// is answered, the directive is still asked about what it has not been asked about.
pub proof fn plain_questions_hide_nothing_from_automation(
    s: SessionView,
    instruction: overlay::InstructionView,
    snapshot: Seq<char>,
    answer: reply::ReplyView,
)
    requires
        s.phase == PhaseView::Capturing(instruction),
        !instruction.from_watch_command,
        s.overlay.directive is Some,
        s.overlay.last_snapshot != Some(snapshot),
        answer.actions.len() == 0,
    ensures
        ({
            let asked = s.after(EventView::Snapshot(snapshot));
            let answered = asked.after(EventView::Reply(Ok(answer)));
            let checking = answered.after(EventView::Tick);
            &&& asked.next(EventView::Reply(Ok(answer))) is Some
            &&& answered.next(EventView::Tick) is Some
            &&& checking.next(EventView::Snapshot(snapshot)) matches Some((watching, out))
                && out.request == RequestView::Query(
                openrouter::request_views(
                    s.overlay.pane_title,
                    s.overlay.directive->0,
                    snapshot,
                    true,
                ),
            )
        }),
{
}

/// Looking at the pane for automation: something new is asked of the model by the directive, while
/// the screen says so; what was seen already changes nothing.
pub proof fn checks_ask_by_the_directive(s: SessionView, snapshot: Seq<char>)
    requires
        s.phase is Checking,
        s.overlay.directive is Some,
    ensures
        s.next(EventView::Snapshot(snapshot)) matches Some((after, out)) && {
            &&& s.overlay.last_snapshot == Some(snapshot) ==> after.overlay == s.overlay
                && after.phase is Idle && out == (OutputView {
                draws: 0,
                request: RequestView::Poll,
            })
            &&& s.overlay.last_snapshot != Some(snapshot) ==> {
                &&& after.phase == (PhaseView::Querying { snapshot, automated: true })
                &&& out.draws == 1
                &&& out.request == RequestView::Query(
                    openrouter::request_views(
                        s.overlay.pane_title,
                        s.overlay.directive->0,
                        snapshot,
                        true,
                    ),
                )
                &&& after.overlay == (overlay::OverlayView {
                    status: "Watching…"@,
                    last_snapshot: Some(snapshot),
                    ..s.overlay
                })
            }
        },
{
}

/// When a reply arrives, its message is said and its actions, all of them and in order, are what the
/// session goes about; without actions it is finished. Automation that has nothing to say or do
/// changes the status alone.
pub proof fn replies_are_taken_up_whole(
    s: SessionView,
    r: reply::ReplyView,
    snapshot: Seq<char>,
    automated: bool,
)
    requires
        s.phase == (PhaseView::Querying { snapshot, automated }),
    ensures
        s.next(EventView::Reply(Ok(r))) matches Some((after, out)) && {
            let said = if text::all_white(r.message) {
                s.overlay.transcript
            } else {
                s.overlay.transcript.push(
                    transcript::EntryView {
                        role: transcript::Role::Assistant,
                        text: if automated {
                            "[watch] "@ + text::trim(r.message)
                        } else {
                            text::trim(r.message)
                        },
                    },
                )
            };
            &&& after.overlay == (overlay::OverlayView {
                transcript: said,
                scroll_offset: if text::all_white(r.message) {
                    s.overlay.scroll_offset
                } else {
                    0
                },
                status: after.overlay.status,
                ..s.overlay
            })
            &&& r.actions.len() > 0 ==> after.phase == (PhaseView::Resolving {
                actions: r.actions,
                snapshot,
                automated,
            }) && out == (OutputView { draws: 0, request: RequestView::ResolvePane })
                && after.overlay.status == s.overlay.status
            &&& r.actions.len() == 0 ==> after.phase is Idle && out.request is Poll
            &&& r.actions.len() == 0 && automated && text::all_white(r.message) ==> out.draws == 0
                && after.overlay.status == "moonshotai/kimi-k2.5"@ + " │ watching"@
            &&& r.actions.len() == 0 && !(automated && text::all_white(r.message)) ==> out.draws
                == (if automated {
                1int
            } else {
                2
            }) && after.overlay.status == "moonshotai/kimi-k2.5"@
        },
{
    text::trim_of_white(r.message);
    reveal_strlit("");
    assert(""@ + text::trim(r.message) =~= text::trim(r.message));
}

/// A request that failed is told in the words of the error, and the session waits on; only for the
/// user's own request the screen is drawn.
pub proof fn failed_requests_are_told(
    s: SessionView,
    words: Seq<char>,
    snapshot: Seq<char>,
    automated: bool,
)
    requires
        s.phase == (PhaseView::Querying { snapshot, automated }),
    ensures
        s.next(EventView::Reply(Err(words))) matches Some((after, out)) && {
            &&& after.phase is Idle
            &&& out.request is Poll
            &&& out.draws == (if automated {
                0int
            } else {
                1
            })
            &&& after.overlay == (overlay::OverlayView {
                transcript: s.overlay.transcript.push(
                    transcript::EntryView {
                        role: transcript::Role::System,
                        text: if automated {
                            "Automation check failed: "@ + words
                        } else {
                            "Error: "@ + words
                        },
                    },
                ),
                scroll_offset: 0,
                status: if automated {
                    "Automation check failed."@
                } else {
                    "Request failed."@
                },
                ..s.overlay
            })
        },
{
}

/// Whether a session has gone on to just these actions of a reply: it waits for the pane to deal with
/// the first of them, or, where there are none, the reply is finished and it waits for input.
pub open spec fn has_gone_on(
    after: SessionView,
    out: OutputView,
    rest: Seq<reply::ActionView>,
    snapshot: Seq<char>,
    automated: bool,
) -> bool {
    if rest.len() > 0 {
        &&& after.phase == (PhaseView::Resolving { actions: rest, snapshot, automated })
        &&& out == (OutputView { draws: 0, request: RequestView::ResolvePane })
    } else {
        &&& after.phase is Idle
        &&& after.overlay.status == "moonshotai/kimi-k2.5"@
        &&& out.request is Poll
        &&& out.draws == (if automated {
            1int
        } else {
            2
        })
    }
}

/// Once the pane is there the first action is dealt with: where there is nothing in it the session
/// goes on to those behind it; where it is risky a person is asked; else it is sent. Those behind it
/// wait for their turn, and nothing is said meanwhile.
pub proof fn the_first_action_is_dealt_with(
    s: SessionView,
    actions: Seq<reply::ActionView>,
    snapshot: Seq<char>,
    automated: bool,
)
    requires
        s.phase == (PhaseView::Resolving { actions, snapshot, automated }),
        actions.len() > 0,
    ensures
        s.next(EventView::PaneReady) matches Some((after, out)) && {
            let action = actions[0];
            let rest = actions.subrange(1, actions.len() as int);
            let reason = action::action_reason(action, snapshot);
            &&& after.overlay == (overlay::OverlayView {
                status: after.overlay.status,
                ..s.overlay
            })
            &&& rest.len() > 0 ==> after.overlay == s.overlay
            &&& action::is_void(action) ==> has_gone_on(after, out, rest, snapshot, automated)
            &&& !action::is_void(action) ==> after.overlay == s.overlay && out.draws == 0
            &&& !action::is_void(action) && reason is Some ==> after.phase == (
            PhaseView::Confirming { action, rest, snapshot, automated }) && out.request
                == RequestView::Confirm(action::confirmation(action, reason->0))
            &&& !action::is_void(action) && reason is None ==> after.phase == (PhaseView::Sending {
                action,
                rest,
                snapshot,
                automated,
            }) && out.request == RequestView::Send(action::inputs_of(action))
        },
{
    assert(actions.drop_first() =~= actions.subrange(1, actions.len() as int));
}

/// An action that a person allows is sent, with those behind it waiting; one that is not allowed is
/// told as blocked, and the session goes on to those behind it.
pub proof fn a_person_has_the_word(
    s: SessionView,
    action: reply::ActionView,
    rest: Seq<reply::ActionView>,
    snapshot: Seq<char>,
    automated: bool,
)
    requires
        s.phase == (PhaseView::Confirming { action, rest, snapshot, automated }),
    ensures
        s.next(EventView::Answer(true)) matches Some((after, out)) && {
            &&& after.overlay == s.overlay
            &&& after.phase == (PhaseView::Sending { action, rest, snapshot, automated })
            &&& out.draws == 0
            &&& out.request == RequestView::Send(action::inputs_of(action))
        },
        s.next(EventView::Answer(false)) matches Some((after, out)) && {
            &&& has_gone_on(after, out, rest, snapshot, automated)
            &&& after.overlay == (overlay::OverlayView {
                transcript: s.overlay.transcript.push(
                    transcript::EntryView {
                        role: transcript::Role::System,
                        text: action::blocked_report(action),
                    },
                ),
                scroll_offset: 0,
                status: after.overlay.status,
                ..s.overlay
            })
            &&& rest.len() > 0 ==> after.overlay.status == action::blocked_status(action)
        },
{
}

/// After an action was sent, the session goes on to exactly those behind it, whatever the action
/// was, and tells what was done; only where a key could not be pressed it gives up, in the words of
/// that failure.
pub proof fn after_an_action_come_those_behind_it(
    s: SessionView,
    action: reply::ActionView,
    rest: Seq<reply::ActionView>,
    snapshot: Seq<char>,
    automated: bool,
)
    requires
        s.phase == (PhaseView::Sending { action, rest, snapshot, automated }),
    ensures
        s.next(EventView::Sent) matches Some((after, out)) && {
            &&& action::failure_of(action) is None ==> {
                &&& has_gone_on(after, out, rest, snapshot, automated)
                &&& after.overlay == (overlay::OverlayView {
                    transcript: s.overlay.transcript.push(
                        transcript::EntryView {
                            role: transcript::Role::System,
                            text: action::report(action),
                        },
                    ),
                    scroll_offset: 0,
                    status: after.overlay.status,
                    ..s.overlay
                })
                &&& rest.len() > 0 ==> after.overlay.status == s.overlay.status
            }
            &&& action::failure_of(action) matches Some(words) ==> {
                &&& after.overlay == s.overlay
                &&& after.phase is Closed
                &&& out == (OutputView { draws: 0, request: RequestView::Fail(words) })
            }
        },
{
}

/// What is sent to the pane in the next `steps` steps that deal with a reply, while the pane is there
/// and takes what it gets and `allow` answers for the person.
pub open spec fn sent_within(
    s: SessionView,
    allow: spec_fn(reply::ActionView) -> bool,
    steps: nat,
) -> Seq<Seq<action::PaneInputView>>
    decreases steps,
{
    let event = match s.phase {
        PhaseView::Resolving { .. } => Some(EventView::PaneReady),
        PhaseView::Confirming { action, .. } => Some(EventView::Answer(allow(action))),
        PhaseView::Sending { .. } => Some(EventView::Sent),
        _ => None,
    };
    if steps == 0 || event is None || s.next(event->0) is None {
        Seq::empty()
    } else {
        (match s.output(event->0).request {
            RequestView::Send(inputs) => seq![inputs],
            _ => Seq::empty(),
        }) + sent_within(s.after(event->0), allow, (steps - 1) as nat)
    }
}

/// What ought to be sent for a list of actions: the inputs of each in turn, but for those with
/// nothing in them and the risky ones that are not allowed; a key that cannot be pressed ends it.
pub open spec fn due_inputs(
    actions: Seq<reply::ActionView>,
    snapshot: Seq<char>,
    allow: spec_fn(reply::ActionView) -> bool,
) -> Seq<Seq<action::PaneInputView>>
    decreases actions.len(),
{
    if actions.len() == 0 {
        Seq::empty()
    } else {
        let first = actions[0];
        let behind = due_inputs(actions.drop_first(), snapshot, allow);
        let wanted = !action::is_void(first) && (action::action_reason(first, snapshot) is None
            || allow(first));
        if !wanted {
            behind
        } else if action::failure_of(first) is Some {
            seq![action::inputs_of(first)]
        } else {
            seq![action::inputs_of(first)] + behind
        }
    }
}

/// Every action of a reply is carried out, in order and once: what is sent to the pane is just what
/// its actions call for.
pub proof fn every_action_is_carried_out(
    s: SessionView,
    actions: Seq<reply::ActionView>,
    snapshot: Seq<char>,
    automated: bool,
    allow: spec_fn(reply::ActionView) -> bool,
    steps: nat,
)
    requires
        s.phase == (PhaseView::Resolving { actions, snapshot, automated }),
        actions.len() > 0,
        steps >= 3 * actions.len(),
    ensures
        sent_within(s, allow, steps) == due_inputs(actions, snapshot, allow),
    decreases actions.len(), 0int,
{
    reveal_with_fuel(sent_within, 4);
    let first = actions[0];
    let rest = actions.drop_first();
    assert(rest =~= actions.subrange(1, actions.len() as int));
    the_first_action_is_dealt_with(s, actions, snapshot, automated);
    let s1 = s.after(EventView::PaneReady);
    let left1 = (steps - 1) as nat;
    if action::is_void(first) {
        what_follows(s1, rest, snapshot, automated, allow, left1);
        assert(sent_within(s, allow, steps) =~= due_inputs(actions, snapshot, allow));
    } else {
        let risky = action::action_reason(first, snapshot) is Some;
        let left2 = (left1 - 1) as nat;
        if risky {
            a_person_has_the_word(s1, first, rest, snapshot, automated);
            let answer = EventView::Answer(allow(first));
            let s2 = s1.after(answer);
            if allow(first) {
                after_an_action_come_those_behind_it(s2, first, rest, snapshot, automated);
                let s3 = s2.after(EventView::Sent);
                if action::failure_of(first) is None {
                    what_follows(s3, rest, snapshot, automated, allow, (left2 - 1) as nat);
                }
            } else {
                what_follows(s2, rest, snapshot, automated, allow, left2);
            }
        } else {
            after_an_action_come_those_behind_it(s1, first, rest, snapshot, automated);
            let s2 = s1.after(EventView::Sent);
            if action::failure_of(first) is None {
                what_follows(s2, rest, snapshot, automated, allow, left2);
            }
        }
        assert(sent_within(s, allow, steps) =~= due_inputs(actions, snapshot, allow));
    }
}

proof fn what_follows(
    s: SessionView,
    rest: Seq<reply::ActionView>,
    snapshot: Seq<char>,
    automated: bool,
    allow: spec_fn(reply::ActionView) -> bool,
    steps: nat,
)
    requires
        rest.len() > 0 ==> s.phase == (PhaseView::Resolving { actions: rest, snapshot, automated }),
        rest.len() == 0 ==> s.phase is Idle,
        steps >= 3 * rest.len(),
    ensures
        sent_within(s, allow, steps) == due_inputs(rest, snapshot, allow),
    decreases rest.len(), 1int,
{
    if rest.len() > 0 {
        every_action_is_carried_out(s, rest, snapshot, automated, allow, steps);
    }
}

/// Events, requests and outputs mean what they hold.
pub proof fn meaning_of_events_and_outputs(event: Event, out: Output)
    ensures
        event matches Event::Key { key, ctrl } ==> event@ == (EventView::Key { key, ctrl }),
        event matches Event::Paste(s) ==> event@ == EventView::Paste(s@),
        event is Ignored ==> event@ is Ignored,
        event is Tick ==> event@ is Tick,
        event matches Event::Snapshot(s) ==> event@ == EventView::Snapshot(s@),
        event matches Event::Reply(Ok(r)) ==> event@ == EventView::Reply(Ok(r@)),
        event matches Event::Reply(Err(e)) ==> event@ == EventView::Reply(Err(e.words())),
        event is PaneReady ==> event@ is PaneReady,
        event matches Event::Answer(allowed) ==> event@ == EventView::Answer(allowed),
        event is Sent ==> event@ is Sent,
        out@.draws == out.draws,
        out.request is Poll <==> out@.request is Poll,
        out.request is Capture <==> out@.request is Capture,
        out.request is ResolvePane <==> out@.request is ResolvePane,
        out.request is Close <==> out@.request is Close,
        out.request matches Request::Query(messages) ==> (out@.request matches RequestView::Query(
            views,
        ) && views.len() == messages@.len() && forall|i: int|
            0 <= i < messages@.len() ==> #[trigger] views[i] == messages@[i]@),
        out.request matches Request::Confirm(words) ==> out@.request == RequestView::Confirm(
            words@,
        ),
        out.request matches Request::Send(inputs) ==> (out@.request matches RequestView::Send(
            views,
        ) && views.len() == inputs@.len() && forall|i: int|
            0 <= i < inputs@.len() ==> #[trigger] views[i] == inputs@[i]@),
        out.request matches Request::Fail(words) ==> out@.request == RequestView::Fail(words@),
{
}

/// A step takes exactly the events that are waited for, goes on as is said of them, and refuses any
/// other without a change.
pub proof fn steps_go_on_as_said(s: &mut Session, event: Event, r: Result<Output, UnexpectedEvent>)
    requires
        call_ensures(Session::step, (s, event), r),
    ensures
        r is Ok <==> old(s)@.next(event@) is Some,
        r matches Ok(out) ==> final(s)@ == old(s)@.after(event@) && out@ == old(s)@.output(event@),
        r is Err ==> final(s)@ == old(s)@,
{
}

} // verus!
