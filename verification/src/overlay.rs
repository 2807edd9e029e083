//! The state of the overlay: the conversation, the input with its cursor, and automation.

use crate::openrouter::{OpenRouterMessage, QueryError, OPENROUTER_MODEL};
use crate::reply::AssistantAction;
use crate::screen::Frame;
use crate::style::Change;
use crate::transcript::{EntryView, Role, TranscriptEntry};
use crate::{action, input, openrouter, reply, screen, style, text, transcript};
use vstd::prelude::*;
use vstd::string::*;

verus! {

/// How many lines a page key scrolls.
pub const SCROLL_STEP: usize = 5;

/// A key that the user pressed.
#[derive(Clone, Copy, Debug, PartialEq, Eq, Structural)]
pub enum Key {
    Escape,
    Enter,
    Backspace,
    Delete,
    LeftArrow,
    RightArrow,
    Home,
    End,
    PageUp,
    PageDown,
    Char(char),
    Other,
}

/// Something that the model is asked to do.
#[derive(Debug, PartialEq, Eq)]
pub struct Instruction {
    pub text: String,
    /// Whether it is the directive of automation that was just turned on.
    pub from_watch_command: bool,
}

/// The meaning of an [`Instruction`].
pub ghost struct InstructionView {
    pub text: Seq<char>,
    pub from_watch_command: bool,
}

impl View for Instruction {
    type V = InstructionView;

    open spec fn view(&self) -> InstructionView {
        InstructionView { text: self.text@, from_watch_command: self.from_watch_command }
    }
}

/// The meaning of an optional instruction.
pub open spec fn optional_instruction(i: Option<Instruction>) -> Option<InstructionView> {
    match i {
        Some(i) => Some(i@),
        None => None,
    }
}

/// What a key press leads to.
#[derive(Debug, PartialEq, Eq)]
pub enum KeyOutcome {
    /// The overlay closes.
    Close,
    /// The screen is drawn again.
    Redraw,
    /// The model is asked to do something.
    Instruct(Instruction),
}

/// The meaning of a [`KeyOutcome`].
pub ghost enum KeyOutcomeView {
    Close,
    Redraw,
    Instruct(InstructionView),
}

impl View for KeyOutcome {
    type V = KeyOutcomeView;

    open spec fn view(&self) -> KeyOutcomeView {
        match self {
            KeyOutcome::Close => KeyOutcomeView::Close,
            KeyOutcome::Redraw => KeyOutcomeView::Redraw,
            KeyOutcome::Instruct(instruction) => KeyOutcomeView::Instruct(instruction@),
        }
    }
}

/// The state of the overlay.
#[derive(Debug)]
pub struct AiChatOverlay {
    pane_id: usize,
    pane_title: String,
    transcript: Vec<TranscriptEntry>,
    input_buffer: String,
    status: String,
    automation_directive: Option<String>,
    last_automation_snapshot: Option<String>,
    /// Lines scrolled up from the bottom; 0 stays with the latest message.
    scroll_offset: usize,
    /// The cursor in the input, in characters from its start.
    cursor_position: usize,
}

/// The meaning of an [`AiChatOverlay`].
pub ghost struct OverlayView {
    pub pane_id: int,
    pub pane_title: Seq<char>,
    pub transcript: Seq<EntryView>,
    pub input: Seq<char>,
    pub status: Seq<char>,
    pub directive: Option<Seq<char>>,
    pub last_snapshot: Option<Seq<char>>,
    pub scroll_offset: int,
    pub cursor: int,
}

impl View for AiChatOverlay {
    type V = OverlayView;

    closed spec fn view(&self) -> OverlayView {
        OverlayView {
            pane_id: self.pane_id as int,
            pane_title: self.pane_title@,
            transcript: transcript::entry_views(self.transcript@),
            input: self.input_buffer@,
            status: self.status@,
            directive: screen::optional_text(self.automation_directive),
            last_snapshot: screen::optional_text(self.last_automation_snapshot),
            scroll_offset: self.scroll_offset as int,
            cursor: self.cursor_position as int,
        }
    }
}

/// The state of an overlay that was just opened.
pub open spec fn opened(pane_id: int, pane_title: Seq<char>) -> OverlayView {
    OverlayView {
        pane_id,
        pane_title,
        transcript: seq![
            EntryView {
                role: Role::System,
                text: "Ready. Type a message, or use `/watch <instruction>` to monitor the terminal. `/watch off` to disable."@,
            },
        ],
        input: Seq::empty(),
        status: OPENROUTER_MODEL@,
        directive: None,
        last_snapshot: None,
        scroll_offset: 0,
        cursor: 0,
    }
}

impl OverlayView {
    /// What holds of every state: the cursor is in the input or at its end, and the scrolling fits
    /// its machine word.
    pub open spec fn well_formed(self) -> bool {
        &&& 0 <= self.cursor <= self.input.len()
        &&& 0 <= self.scroll_offset <= usize::MAX
    }

    /// After `role` said `text`. The transcript shows its end again.
    pub open spec fn said(self, role: Role, text: Seq<char>) -> OverlayView {
        OverlayView {
            transcript: self.transcript.push(EntryView { role, text }),
            scroll_offset: 0,
            ..self
        }
    }

    /// With another status.
    pub open spec fn with_status(self, status: Seq<char>) -> OverlayView {
        OverlayView { status, ..self }
    }

    /// With the cursor elsewhere.
    pub open spec fn with_cursor(self, cursor: int) -> OverlayView {
        OverlayView { cursor, ..self }
    }

    /// After `s` was put in at the cursor; the cursor is behind it.
    pub open spec fn inserted(self, s: Seq<char>) -> OverlayView {
        OverlayView {
            input: self.input.take(self.cursor) + s + self.input.skip(self.cursor),
            cursor: self.cursor + s.len(),
            ..self
        }
    }

    /// After the character at position `at` was taken out; the cursor is there.
    pub open spec fn removed(self, at: int) -> OverlayView {
        OverlayView { input: self.input.remove(at), cursor: at, ..self }
    }

    /// With the input emptied.
    pub open spec fn cleared(self) -> OverlayView {
        OverlayView { input: Seq::empty(), cursor: 0, ..self }
    }

    /// After a key that edits, moves or scrolls.
    pub open spec fn edited(self, key: Key, ctrl: bool) -> OverlayView {
        match key {
            Key::Backspace => if self.cursor > 0 {
                self.removed(self.cursor - 1)
            } else {
                self
            },
            Key::Delete => if self.cursor < self.input.len() {
                self.removed(self.cursor)
            } else {
                self
            },
            Key::LeftArrow => self.with_cursor(text::max(self.cursor - 1, 0)),
            Key::RightArrow => self.with_cursor(
                text::min(self.cursor + 1, self.input.len() as int),
            ),
            Key::Home => self.with_cursor(0),
            Key::End => self.with_cursor(self.input.len() as int),
            Key::PageUp => OverlayView {
                scroll_offset: text::min(self.scroll_offset + SCROLL_STEP, usize::MAX as int),
                ..self
            },
            Key::PageDown => OverlayView {
                scroll_offset: text::max(self.scroll_offset - SCROLL_STEP, 0),
                ..self
            },
            Key::Char(c) => if ctrl {
                self
            } else {
                self.inserted(seq![c])
            },
            _ => self,
        }
    }

    /// After `input` was submitted, and what the model is then asked to do.
    pub open spec fn submitted(self, input: Seq<char>) -> (OverlayView, Option<InstructionView>) {
        if input == "/watch off"@ || input == "/unwatch"@ {
            (
                OverlayView { directive: None, last_snapshot: None, ..self }.said(
                    Role::System,
                    "Automation disabled."@,
                ).with_status("Automation off."@),
                None,
            )
        } else if text::occurs_at(input, "/watch "@, 0) {
            let directive = text::trim(input.skip("/watch "@.len() as int));
            if directive.len() == 0 {
                (
                    self.said(Role::System, "Usage: /watch <instruction>"@).with_status(
                        "Missing automation instruction."@,
                    ),
                    None,
                )
            } else {
                (
                    OverlayView {
                        directive: Some(directive),
                        last_snapshot: None,
                        ..self
                    }.said(Role::User, "/watch "@ + directive).said(
                        Role::System,
                        "Automation enabled: "@ + directive,
                    ),
                    Some(InstructionView { text: directive, from_watch_command: true }),
                )
            }
        } else {
            (
                self.said(Role::User, input),
                Some(InstructionView { text: input, from_watch_command: false }),
            )
        }
    }

    /// After a key press, and what it leads to.
    pub open spec fn key_pressed(self, key: Key, ctrl: bool) -> (OverlayView, KeyOutcomeView) {
        match key {
            Key::Escape => (self, KeyOutcomeView::Close),
            Key::Enter => if text::trim(self.input).len() == 0 {
                (self.cleared(), KeyOutcomeView::Redraw)
            } else {
                let (after, instruction) = self.cleared().submitted(text::trim(self.input));
                (
                    after,
                    match instruction {
                        Some(i) => KeyOutcomeView::Instruct(i),
                        None => KeyOutcomeView::Redraw,
                    },
                )
            },
            _ => (self.edited(key, ctrl), KeyOutcomeView::Redraw),
        }
    }

    /// While the model works on an instruction for which the pane shows `snapshot`.
    pub open spec fn thinking(self, snapshot: Seq<char>, from_watch_command: bool) -> OverlayView {
        OverlayView {
            last_snapshot: if from_watch_command {
                Some(snapshot)
            } else {
                self.last_snapshot
            },
            ..self
        }.with_status("Thinking…"@)
    }

    /// After a request for an instruction failed.
    pub open spec fn request_failed(self, words: Seq<char>) -> OverlayView {
        self.said(Role::System, "Error: "@ + words).with_status("Request failed."@)
    }

    /// Whether automation has something to look at: it is on, and the pane shows something else
    /// than the last time.
    pub open spec fn is_news(self, snapshot: Seq<char>) -> bool {
        self.directive is Some && self.last_snapshot != Some(snapshot)
    }

    /// While the model looks at `snapshot` for automation.
    pub open spec fn watching(self, snapshot: Seq<char>) -> OverlayView {
        OverlayView { last_snapshot: Some(snapshot), ..self }.with_status("Watching…"@)
    }

    /// After a request for automation failed.
    pub open spec fn check_failed(self, words: Seq<char>) -> OverlayView {
        self.said(Role::System, "Automation check failed: "@ + words).with_status(
            "Automation check failed."@,
        )
    }

    /// After automation had nothing to say or do.
    pub open spec fn quiet(self) -> OverlayView {
        self.with_status(OPENROUTER_MODEL@ + " │ watching"@)
    }

    /// After the model answered with `message`, which is shown unless it is blank.
    pub open spec fn answered(self, message: Seq<char>, automated: bool) -> OverlayView {
        if text::trim(message).len() == 0 {
            self
        } else {
            self.said(
                Role::Assistant,
                (if automated {
                    "[watch] "@
                } else {
                    ""@
                }) + text::trim(message),
            )
        }
    }

    /// After all of a reply was dealt with.
    pub open spec fn finished(self) -> OverlayView {
        self.with_status(OPENROUTER_MODEL@)
    }

    /// After an action was carried out.
    pub open spec fn done(self, a: reply::ActionView) -> OverlayView {
        self.said(Role::System, action::report(a))
    }

    /// After an action was not allowed.
    pub open spec fn blocked(self, a: reply::ActionView) -> OverlayView {
        self.said(Role::System, action::blocked_report(a)).with_status(action::blocked_status(a))
    }

    /// What the screen shows on a terminal of `cols` columns and `rows` rows.
    pub open spec fn frame(self, cols: usize, rows: usize) -> screen::FrameView {
        let layout = screen::layout_of(cols, rows);
        let lines = input::input_lines(self.input, layout.input_text_width as nat);
        screen::FrameView {
            title: self.pane_title,
            status: self.status,
            directive: self.directive,
            scroll_offset: self.scroll_offset,
            lines: transcript::transcript_lines(self.transcript, layout.width as nat),
            input: lines,
            cursor: input::cursor_spot(lines, self.cursor),
        }
    }
}

impl AiChatOverlay {
    /// An overlay for the pane `pane_id`.
    pub fn new(pane_id: usize, pane_title: String) -> (r: Self)
        ensures
            r@ == opened(pane_id as int, pane_title@),
            r@.well_formed(),
    {
        let mut transcript: Vec<TranscriptEntry> = Vec::new();
        transcript.push(
            TranscriptEntry {
                role: Role::System,
                text: "Ready. Type a message, or use `/watch <instruction>` to monitor the terminal. `/watch off` to disable.".to_owned(),
            },
        );
        let r = AiChatOverlay {
            pane_id,
            pane_title,
            transcript,
            input_buffer: String::new(),
            status: OPENROUTER_MODEL.to_owned(),
            automation_directive: None,
            last_automation_snapshot: None,
            scroll_offset: 0,
            cursor_position: 0,
        };
        assert(r@.transcript =~= opened(pane_id as int, pane_title@).transcript);
        r
    }

    fn push_entry(&mut self, role: Role, text: String)
        ensures
            final(self)@ == old(self)@.said(role, text@),
    {
        self.scroll_offset = 0;
        self.transcript.push(TranscriptEntry { role, text });
        assert(self@.transcript =~= old(self)@.said(role, text@).transcript);
    }

    /// Adds what the user said.
    pub fn push_user(&mut self, text: String)
        ensures
            final(self)@ == old(self)@.said(Role::User, text@),
    {
        self.push_entry(Role::User, text);
    }

    /// Adds what the assistant said.
    pub fn push_assistant(&mut self, text: String)
        ensures
            final(self)@ == old(self)@.said(Role::Assistant, text@),
    {
        self.push_entry(Role::Assistant, text);
    }

    /// Adds what the system has to say.
    pub fn push_system(&mut self, text: String)
        ensures
            final(self)@ == old(self)@.said(Role::System, text@),
    {
        self.push_entry(Role::System, text);
    }

    fn set_status(&mut self, status: &str)
        ensures
            final(self)@ == old(self)@.with_status(status@),
    {
        self.status = status.to_owned();
    }

    fn insert_text(&mut self, s: &str)
        requires
            old(self)@.well_formed(),
        ensures
            final(self)@ == old(self)@.inserted(s@),
            final(self)@.well_formed(),
    {
        let before: usize = self.input_buffer.as_str().unicode_len();
        let (front, rest) = text::cut_at(self.input_buffer.as_str(), self.cursor_position);
        let joined = front.to_owned().concat(s).concat(rest);
        let after: usize = joined.as_str().unicode_len();
        self.input_buffer = joined;
        self.cursor_position = self.cursor_position + (after - before);
    }

    fn remove_char(&mut self, position: usize)
        requires
            old(self)@.well_formed(),
            position < old(self)@.input.len(),
        ensures
            final(self)@ == old(self)@.removed(position as int),
            final(self)@.well_formed(),
    {
        let (front, rest) = text::cut_at(self.input_buffer.as_str(), position);
        let (_, behind) = text::cut_at(rest, 1);
        let joined = front.to_owned().concat(behind);
        assert(joined@ =~= self@.input.remove(position as int));
        self.input_buffer = joined;
        self.cursor_position = position;
    }

    /// Takes pasted text, which is how composed characters arrive too, in at the cursor.
    pub fn handle_paste(&mut self, s: &str)
        requires
            old(self)@.well_formed(),
        ensures
            final(self)@ == old(self)@.inserted(s@),
            final(self)@.well_formed(),
    {
        self.insert_text(s);
    }

    /// Takes a key press.
    pub fn handle_key_event(&mut self, key: Key, ctrl: bool) -> (outcome: KeyOutcome)
        requires
            old(self)@.well_formed(),
        ensures
            (final(self)@, outcome@) == old(self)@.key_pressed(key, ctrl),
            final(self)@.well_formed(),
    {
        match key {
            Key::Escape => {
                return KeyOutcome::Close;
            },
            Key::Enter => {
                let input = text::trimmed(self.input_buffer.as_str());
                self.input_buffer = String::new();
                self.cursor_position = 0;
                assert(self@ == old(self)@.cleared());
                if !input.as_str().is_empty() {
                    if let Some(instruction) = self.handle_submission(input) {
                        return KeyOutcome::Instruct(instruction);
                    }
                }
            },
            Key::Backspace => {
                if self.cursor_position > 0 {
                    self.remove_char(self.cursor_position - 1);
                }
            },
            Key::Delete => {
                if self.cursor_position < self.input_buffer.as_str().unicode_len() {
                    self.remove_char(self.cursor_position);
                }
            },
            Key::LeftArrow => {
                if self.cursor_position > 0 {
                    self.cursor_position = self.cursor_position - 1;
                }
            },
            Key::RightArrow => {
                if self.cursor_position < self.input_buffer.as_str().unicode_len() {
                    self.cursor_position = self.cursor_position + 1;
                }
            },
            Key::Home => {
                self.cursor_position = 0;
            },
            Key::End => {
                self.cursor_position = self.input_buffer.as_str().unicode_len();
            },
            Key::PageUp => {
                self.scroll_offset = self.scroll_offset.saturating_add(SCROLL_STEP);
            },
            Key::PageDown => {
                self.scroll_offset = self.scroll_offset.saturating_sub(SCROLL_STEP);
            },
            Key::Char(c) => {
                if !ctrl {
                    let mut s = String::new();
                    s.push(c);
                    assert(s@ =~= seq![c]);
                    self.insert_text(s.as_str());
                }
            },
            Key::Other => {},
        }
        KeyOutcome::Redraw
    }

    /// Takes a submitted line: turns automation on or off, or takes the line as an instruction.
    /// Returns what the model is asked to do.
    pub fn handle_submission(&mut self, input: String) -> (instruction: Option<Instruction>)
        ensures
            (final(self)@, optional_instruction(instruction)) == old(self)@.submitted(input@),
    {
        let line = input.as_str();
        if text::same_text(line, "/watch off") || text::same_text(line, "/unwatch") {
            self.automation_directive = None;
            self.last_automation_snapshot = None;
            self.push_system("Automation disabled.".to_owned());
            self.set_status("Automation off.");
            return None;
        }
        if let Some(rest) = text::behind_prefix(line, "/watch ") {
            let directive = text::trimmed(rest.as_str());
            if directive.as_str().is_empty() {
                self.push_system("Usage: /watch <instruction>".to_owned());
                self.set_status("Missing automation instruction.");
                return None;
            }
            self.automation_directive = Some(directive.clone());
            self.last_automation_snapshot = None;
            self.push_user("/watch ".to_owned().concat(directive.as_str()));
            self.push_system("Automation enabled: ".to_owned().concat(directive.as_str()));
            return Some(Instruction { text: directive, from_watch_command: true });
        }
        self.push_user(input.clone());
        Some(Instruction { text: input, from_watch_command: false })
    }

    /// Takes up an instruction for which the pane shows `pane_snapshot`, and returns the messages
    /// for the model.
    pub fn process_instruction(&mut self, instruction: &Instruction, pane_snapshot: &str) -> (r: Vec<
        OpenRouterMessage,
    >)
        ensures
            final(self)@ == old(self)@.thinking(pane_snapshot@, instruction.from_watch_command),
            openrouter::message_views(r@) == openrouter::request_views(
                old(self)@.pane_title,
                instruction.text@,
                pane_snapshot@,
                false,
            ),
    {
        if instruction.from_watch_command {
            self.last_automation_snapshot = Some(pane_snapshot.to_owned());
        }
        self.set_status("Thinking…");
        openrouter::request_messages(
            self.pane_title.as_str(),
            instruction.text.as_str(),
            pane_snapshot,
            false,
        )
    }

    /// Notes that the request for an instruction failed.
    pub fn instruction_failed(&mut self, error: &QueryError)
        ensures
            final(self)@ == old(self)@.request_failed(error.words()),
    {
        self.push_system("Error: ".to_owned().concat(error.describe().as_str()));
        self.set_status("Request failed.");
    }

    /// Whether automation is on.
    pub fn is_watching(&self) -> (r: bool)
        ensures
            r == (self@.directive is Some),
    {
        self.automation_directive.is_some()
    }

    /// Looks at the pane for automation. Where it is on and `snapshot` differs from what it saw
    /// last, returns the messages for the model; else nothing happens.
    pub fn maybe_run_automation(&mut self, snapshot: &str) -> (r: Option<Vec<OpenRouterMessage>>)
        ensures
            r is Some <==> old(self)@.is_news(snapshot@),
            final(self)@ == (if old(self)@.is_news(snapshot@) {
                old(self)@.watching(snapshot@)
            } else {
                old(self)@
            }),
            r matches Some(messages) ==> openrouter::message_views(messages@)
                == openrouter::request_views(
                old(self)@.pane_title,
                old(self)@.directive->0,
                snapshot@,
                true,
            ),
    {
        let directive = match &self.automation_directive {
            Some(directive) => directive.clone(),
            None => {
                return None;
            },
        };
        if let Some(last) = &self.last_automation_snapshot {
            if text::same_text(last.as_str(), snapshot) {
                return None;
            }
        }
        self.last_automation_snapshot = Some(snapshot.to_owned());
        self.set_status("Watching…");
        Some(
            openrouter::request_messages(
                self.pane_title.as_str(),
                directive.as_str(),
                snapshot,
                true,
            ),
        )
    }

    /// Notes that the request for automation failed.
    pub fn automation_failed(&mut self, error: &QueryError)
        ensures
            final(self)@ == old(self)@.check_failed(error.words()),
    {
        self.push_system("Automation check failed: ".to_owned().concat(error.describe().as_str()));
        self.set_status("Automation check failed.");
    }

    /// Notes that automation had nothing to say or do.
    pub fn automation_quiet(&mut self)
        ensures
            final(self)@ == old(self)@.quiet(),
    {
        let status = OPENROUTER_MODEL.to_owned().concat(" │ watching");
        self.set_status(status.as_str());
    }

    /// Shows the message of a reply, unless it is blank.
    pub fn show_message(&mut self, message: &str, automated: bool)
        ensures
            final(self)@ == old(self)@.answered(message@, automated),
    {
        let message = text::trimmed(message);
        if !message.as_str().is_empty() {
            let prefix = if automated {
                "[watch] "
            } else {
                ""
            };
            self.push_assistant(prefix.to_owned().concat(message.as_str()));
        }
    }

    /// Notes that all of a reply was dealt with.
    pub fn reply_finished(&mut self)
        ensures
            final(self)@ == old(self)@.finished(),
    {
        self.set_status(OPENROUTER_MODEL);
    }

    /// Notes that an action was carried out.
    pub fn action_done(&mut self, a: &AssistantAction)
        ensures
            final(self)@ == old(self)@.done(a@),
    {
        self.push_system(action::action_report(a));
    }

    /// Notes that an action was not allowed.
    pub fn action_blocked(&mut self, a: &AssistantAction)
        ensures
            final(self)@ == old(self)@.blocked(a@),
    {
        self.push_system(action::blocked_action_report(a));
        self.set_status(action::blocked_action_status(a));
    }

    /// The changes that draw the overlay on a terminal of `cols` columns and `rows` rows. A short
    /// input of printable ASCII stands on one line, and the cursor as many columns behind the prompt
    /// as there are characters in front of it.
    pub fn render(&self, cols: usize, rows: usize) -> (changes: Vec<Change>)
        ensures
            style::change_views(changes@) == screen::screen(
                self@.frame(cols, rows),
                screen::layout_of(cols, rows),
            ),
            self@.frame(cols, rows).input.len() >= 1,
            self@.well_formed() && input::fits_plainly(
                self@.input,
                screen::layout_of(cols, rows).input_text_width as nat,
            ) ==> {
                &&& self@.frame(cols, rows).input == seq![self@.input]
                &&& self@.frame(cols, rows).cursor == Some((0int, self@.cursor))
            },
    {
        let layout = screen::Layout::new(cols, rows);
        let lines = input::wrap_input(self.input_buffer.as_str(), layout.input_text_width);
        let frame = Frame {
            title: self.pane_title.clone(),
            status: self.status.clone(),
            directive: self.automation_directive.clone(),
            scroll_offset: self.scroll_offset,
            lines: transcript::render_transcript(&self.transcript, layout.width),
            cursor: input::place_cursor(&lines, self.cursor_position),
            input: lines,
        };
        assert(frame@.cursor == self@.frame(cols, rows).cursor);
        assert(frame@ == self@.frame(cols, rows));
        frame.draw(cols, rows)
    }

    /// The pane that the overlay is for.
    pub fn pane_id(&self) -> (r: usize)
        ensures
            r == self@.pane_id,
    {
        self.pane_id
    }

    /// The conversation so far.
    pub fn transcript(&self) -> (r: &Vec<TranscriptEntry>)
        ensures
            transcript::entry_views(r@) == self@.transcript,
    {
        &self.transcript
    }

    /// What has been typed.
    pub fn input_buffer(&self) -> (r: &str)
        ensures
            r@ == self@.input,
    {
        self.input_buffer.as_str()
    }

    /// The status text.
    pub fn status(&self) -> (r: &str)
        ensures
            r@ == self@.status,
    {
        self.status.as_str()
    }

    /// The cursor, in characters from the start of the input.
    pub fn cursor_position(&self) -> (r: usize)
        ensures
            r == self@.cursor,
    {
        self.cursor_position
    }

    /// How many lines the transcript is scrolled up.
    pub fn scroll_offset(&self) -> (r: usize)
        ensures
            r == self@.scroll_offset,
    {
        self.scroll_offset
    }
}

/// What is said when the pane `pane_id` is gone.
pub fn missing_pane(pane_id: usize) -> (words: String)
    ensures
        words@ == "pane "@ + text::decimal(pane_id as nat) + " no longer exists"@,
{
    "pane ".to_owned().concat(text::decimal_text(pane_id).as_str()).concat(" no longer exists")
}

/// Every key press keeps a state well formed.
pub proof fn keys_keep_well_formed(o: OverlayView, key: Key, ctrl: bool)
    requires
        o.well_formed(),
    ensures
        o.key_pressed(key, ctrl).0.well_formed(),
{
}

/// Pasting text is typing its parts one after the other.
pub proof fn pasting_is_typing_in_turn(o: OverlayView, a: Seq<char>, b: Seq<char>)
    requires
        o.well_formed(),
    ensures
        o.inserted(a).inserted(b) == o.inserted(a + b),
{
    assert(o.inserted(a).inserted(b).input =~= o.inserted(a + b).input);
}

/// Backspace takes back the character that was just typed.
pub proof fn backspace_undoes_typing(o: OverlayView, c: char, ctrl: bool)
    requires
        o.well_formed(),
    ensures
        o.edited(Key::Char(c), false).edited(Key::Backspace, ctrl) == o,
{
    let typed = o.inserted(seq![c]);
    assert(typed.input.remove(o.cursor) =~= o.input);
}

/// Stepping left and deleting does what backspace does.
pub proof fn left_then_delete_is_backspace(o: OverlayView, ctrl: bool)
    requires
        o.well_formed(),
        o.cursor > 0,
    ensures
        o.edited(Key::LeftArrow, ctrl).edited(Key::Delete, ctrl) == o.edited(Key::Backspace, ctrl),
{
}

/// A character typed with the control key down changes nothing.
pub proof fn control_characters_are_not_typed(o: OverlayView, c: char)
    ensures
        o.key_pressed(Key::Char(c), true) == (o, KeyOutcomeView::Redraw),
{
}

/// A page down takes back a page up.
pub proof fn page_down_undoes_page_up(o: OverlayView, ctrl: bool)
    requires
        o.well_formed(),
        o.scroll_offset + SCROLL_STEP <= usize::MAX,
    ensures
        o.edited(Key::PageUp, ctrl).edited(Key::PageDown, ctrl) == o,
{
}

/// Only the enter key changes the conversation, the status or automation.
pub proof fn editing_keeps_the_conversation(o: OverlayView, key: Key, ctrl: bool)
    requires
        key != Key::Enter,
    ensures
        ({
            let after = o.key_pressed(key, ctrl).0;
            &&& after.transcript == o.transcript
            &&& after.status == o.status
            &&& after.directive == o.directive
            &&& after.last_snapshot == o.last_snapshot
        }),
{
}

/// The enter key always leaves an empty input, and asks the model for something only where there
/// was more than white space in it.
pub proof fn enter_empties_the_input(o: OverlayView, ctrl: bool)
    ensures
        o.key_pressed(Key::Enter, ctrl).0.input == Seq::<char>::empty(),
        o.key_pressed(Key::Enter, ctrl).0.cursor == 0,
        o.key_pressed(Key::Enter, ctrl).1 is Instruct ==> text::trim(o.input).len() > 0,
{
}

/// `/watch off` and `/unwatch` turn automation off and ask the model for nothing.
pub proof fn watch_off_turns_automation_off(o: OverlayView, line: Seq<char>)
    requires
        line == "/watch off"@ || line == "/unwatch"@,
    ensures
        o.submitted(line).0.directive is None,
        o.submitted(line).1 is None,
{
}

/// `/watch` with an instruction turns automation on with that instruction, less the white space
/// around it, and asks the model for it at once.
pub proof fn watch_turns_automation_on(o: OverlayView, instruction: Seq<char>)
    requires
        text::trim(instruction).len() > 0,
        "/watch "@ + instruction != "/watch off"@,
        "/watch "@ + instruction != "/unwatch"@,
    ensures
        o.submitted("/watch "@ + instruction).0.directive == Some(text::trim(instruction)),
        o.submitted("/watch "@ + instruction).0.last_snapshot is None,
        o.submitted("/watch "@ + instruction).1 == Some(
            InstructionView { text: text::trim(instruction), from_watch_command: true },
        ),
{
    let line = "/watch "@ + instruction;
    let n = "/watch "@.len() as int;
    assert(line.subrange(0, n) =~= "/watch "@);
    assert(line.skip(n) =~= instruction);
}

/// A line that is no command of the overlay goes to the model as it is and leaves automation alone.
pub proof fn other_lines_are_instructions(o: OverlayView, line: Seq<char>)
    requires
        line != "/watch off"@,
        line != "/unwatch"@,
        !text::occurs_at(line, "/watch "@, 0),
    ensures
        o.submitted(line).0 == o.said(Role::User, line),
        o.submitted(line).1 == Some(InstructionView { text: line, from_watch_command: false }),
{
}

/// Whatever is typed and entered, `/watch` is never left without an instruction: the usage message
/// is not among what the enter key can say.
pub proof fn entered_watch_has_an_instruction(o: OverlayView)
    requires
        text::occurs_at(text::trim(o.input), "/watch "@, 0),
    ensures
        text::trim(text::trim(o.input).skip("/watch "@.len() as int)).len() > 0,
{
    reveal_strlit("/watch ");
    let line = text::trim(o.input);
    let front = line.subrange(0, 7);
    assert(front[6] == ' ');
    text::trim_ends_in_text(o.input);
    assert(line[6] == front[6]);
    let rest = line.skip(7);
    assert(rest.last() == line.last());
    text::trim_keeps_text(rest, rest.len() - 1);
}

/// Whatever is said, the transcript goes back to showing its end.
pub proof fn news_shows_the_end(o: OverlayView, role: Role, text: Seq<char>)
    ensures
        o.said(role, text).scroll_offset == 0,
        o.said(role, text).transcript.last() == (EntryView { role, text }),
{
}

/// An overlay that was just opened has said how it is used, and nothing is typed, scrolled or
/// watched.
pub proof fn a_new_overlay_is_ready(pane_id: int, pane_title: Seq<char>)
    ensures
        ({
            let o = opened(pane_id, pane_title);
            &&& o.pane_id == pane_id
            &&& o.pane_title == pane_title
            &&& o.transcript.len() == 1
            &&& o.transcript[0].role == Role::System
            &&& o.transcript[0].text
                == "Ready. Type a message, or use `/watch <instruction>` to monitor the terminal. `/watch off` to disable."@
            &&& o.input.len() == 0 && o.cursor == 0 && o.scroll_offset == 0
            &&& o.status == "moonshotai/kimi-k2.5"@
            &&& o.directive is None && o.last_snapshot is None
        }),
{
}

/// Whether two states differ at most in what was typed and where the cursor is.
pub open spec fn same_but_for_input(a: OverlayView, b: OverlayView) -> bool {
    &&& a.pane_id == b.pane_id
    &&& a.pane_title == b.pane_title
    &&& a.transcript == b.transcript
    &&& a.status == b.status
    &&& a.directive == b.directive
    &&& a.last_snapshot == b.last_snapshot
    &&& a.scroll_offset == b.scroll_offset
}

/// Text that is put in stands at the cursor, character by character as it is, with what was in front
/// of the cursor in front of it and the rest behind it; the cursor is behind it. Nothing else
/// changes.
pub proof fn inserted_text_stands_at_the_cursor(o: OverlayView, s: Seq<char>, k: int)
    requires
        o.well_formed(),
    ensures
        ({
            let after = o.inserted(s);
            &&& same_but_for_input(o, after)
            &&& after.input.len() == o.input.len() + s.len()
            &&& after.cursor == o.cursor + s.len()
            &&& 0 <= k < o.cursor ==> after.input[k] == o.input[k]
            &&& o.cursor <= k < o.cursor + s.len() ==> after.input[k] == s[k - o.cursor]
            &&& o.cursor + s.len() <= k < after.input.len() ==> after.input[k] == o.input[k
                - s.len()]
            &&& o.input.len() == 0 ==> after.input == s
        }),
{
    if o.input.len() == 0 {
        assert(o.inserted(s).input =~= s);
    }
}

/// Typing a character puts it in at the cursor, as it is.
pub proof fn a_typed_character_stands_at_the_cursor(o: OverlayView, c: char, k: int)
    requires
        o.well_formed(),
    ensures
        ({
            let (after, outcome) = o.key_pressed(Key::Char(c), false);
            &&& outcome is Redraw
            &&& same_but_for_input(o, after)
            &&& after.input.len() == o.input.len() + 1
            &&& after.cursor == o.cursor + 1
            &&& after.input[o.cursor] == c
            &&& 0 <= k < o.cursor ==> after.input[k] == o.input[k]
            &&& o.cursor < k < after.input.len() ==> after.input[k] == o.input[k - 1]
        }),
{
    inserted_text_stands_at_the_cursor(o, seq![c], k);
    inserted_text_stands_at_the_cursor(o, seq![c], o.cursor);
}

/// Backspace takes out the character in front of the cursor, Delete the one behind it; the others
/// stay in order, and where there is none nothing changes.
pub proof fn deleting_takes_out_one_character(o: OverlayView, ctrl: bool, k: int)
    requires
        o.well_formed(),
    ensures
        ({
            let (after, outcome) = o.key_pressed(Key::Backspace, ctrl);
            &&& outcome is Redraw
            &&& o.cursor == 0 ==> after == o
            &&& o.cursor > 0 ==> {
                &&& same_but_for_input(o, after)
                &&& after.cursor == o.cursor - 1
                &&& after.input.len() == o.input.len() - 1
                &&& 0 <= k < o.cursor - 1 ==> after.input[k] == o.input[k]
                &&& o.cursor - 1 <= k < after.input.len() ==> after.input[k] == o.input[k + 1]
            }
        }),
        ({
            let (after, outcome) = o.key_pressed(Key::Delete, ctrl);
            &&& outcome is Redraw
            &&& o.cursor == o.input.len() ==> after == o
            &&& o.cursor < o.input.len() ==> {
                &&& same_but_for_input(o, after)
                &&& after.cursor == o.cursor
                &&& after.input.len() == o.input.len() - 1
                &&& 0 <= k < o.cursor ==> after.input[k] == o.input[k]
                &&& o.cursor <= k < after.input.len() ==> after.input[k] == o.input[k + 1]
            }
        }),
{
}

/// Moving keys move the cursor alone: one character either way, but never past an end, or to an end.
pub proof fn moving_moves_the_cursor_alone(o: OverlayView, ctrl: bool)
    requires
        o.well_formed(),
    ensures
        forall|key: Key|
            key == Key::LeftArrow || key == Key::RightArrow || key == Key::Home || key == Key::End
                ==> {
                let (after, outcome) = #[trigger] o.key_pressed(key, ctrl);
                &&& outcome is Redraw
                &&& same_but_for_input(o, after)
                &&& after.input == o.input
            },
        o.cursor > 0 ==> o.key_pressed(Key::LeftArrow, ctrl).0.cursor == o.cursor - 1,
        o.cursor == 0 ==> o.key_pressed(Key::LeftArrow, ctrl).0.cursor == 0,
        o.cursor < o.input.len() ==> o.key_pressed(Key::RightArrow, ctrl).0.cursor == o.cursor + 1,
        o.cursor == o.input.len() ==> o.key_pressed(Key::RightArrow, ctrl).0.cursor == o.cursor,
        o.key_pressed(Key::Home, ctrl).0.cursor == 0,
        o.key_pressed(Key::End, ctrl).0.cursor == o.input.len(),
{
}

/// Page keys scroll by five lines, not below the end and not past what a machine word holds; escape
/// closes; other keys do nothing.
pub proof fn scrolling_and_closing_keys(o: OverlayView, ctrl: bool)
    requires
        o.well_formed(),
    ensures
        ({
            let (after, outcome) = o.key_pressed(Key::PageUp, ctrl);
            &&& outcome is Redraw
            &&& o.scroll_offset + 5 <= usize::MAX ==> after.scroll_offset == o.scroll_offset + 5
            &&& o.scroll_offset + 5 > usize::MAX ==> after.scroll_offset == usize::MAX
            &&& after == (OverlayView { scroll_offset: after.scroll_offset, ..o })
        }),
        ({
            let (after, outcome) = o.key_pressed(Key::PageDown, ctrl);
            &&& outcome is Redraw
            &&& o.scroll_offset >= 5 ==> after.scroll_offset == o.scroll_offset - 5
            &&& o.scroll_offset < 5 ==> after.scroll_offset == 0
            &&& after == (OverlayView { scroll_offset: after.scroll_offset, ..o })
        }),
        o.key_pressed(Key::Escape, ctrl) == (o, KeyOutcomeView::Close),
        o.key_pressed(Key::Other, ctrl) == (o, KeyOutcomeView::Redraw),
{
}

/// Whoever speaks, what is said comes last in the transcript, as it is, and what was said before
/// stays; nothing but the scrolling changes besides.
pub proof fn what_is_said_comes_last(o: OverlayView, role: Role, words: Seq<char>, k: int)
    ensures
        ({
            let after = o.said(role, words);
            &&& after.transcript.len() == o.transcript.len() + 1
            &&& after.transcript.last().role == role
            &&& after.transcript.last().text == words
            &&& 0 <= k < o.transcript.len() ==> after.transcript[k] == o.transcript[k]
            &&& after == (OverlayView {
                transcript: after.transcript,
                scroll_offset: 0,
                ..o
            })
        }),
{
}

/// Entering a line that is padded with white space submits the line alone, with the input emptied;
/// entering nothing but white space only empties the input.
pub proof fn entering_submits_the_trimmed_line(
    o: OverlayView,
    before: Seq<char>,
    line: Seq<char>,
    after: Seq<char>,
    ctrl: bool,
)
    requires
        o.input == before + line + after,
        text::all_white(before),
        text::all_white(after),
        line.len() > 0 ==> !text::is_white(line[0]) && !text::is_white(line.last()),
    ensures
        ({
            let emptied = OverlayView { input: Seq::empty(), cursor: 0, ..o };
            &&& line.len() == 0 ==> o.key_pressed(Key::Enter, ctrl) == (
                emptied,
                KeyOutcomeView::Redraw,
            )
            &&& line.len() > 0 ==> o.key_pressed(Key::Enter, ctrl).0 == emptied.submitted(line).0
            &&& line.len() > 0 ==> (match emptied.submitted(line).1 {
                Some(i) => o.key_pressed(Key::Enter, ctrl).1 == KeyOutcomeView::Instruct(i),
                None => o.key_pressed(Key::Enter, ctrl).1 is Redraw,
            })
        }),
{
    text::trim_ignores_padding(before, line, after);
    text::trim_of_trimmed(line);
}

/// Turning automation off forgets the directive and what was seen, says so, and asks for nothing.
pub proof fn turning_off_says_so(o: OverlayView, line: Seq<char>)
    requires
        line == "/watch off"@ || line == "/unwatch"@,
    ensures
        o.submitted(line) == (
            OverlayView {
                directive: None,
                last_snapshot: None,
                transcript: o.transcript.push(
                    EntryView { role: Role::System, text: "Automation disabled."@ },
                ),
                scroll_offset: 0,
                status: "Automation off."@,
                ..o
            },
            None::<InstructionView>,
        ),
{
}

/// Turning automation on keeps the directive without the white space around it, forgets what was
/// seen, says both what was entered and what it did, and asks for the directive at once.
pub proof fn turning_on_says_so(
    o: OverlayView,
    before: Seq<char>,
    directive: Seq<char>,
    after: Seq<char>,
)
    requires
        text::all_white(before),
        text::all_white(after),
        directive.len() > 0,
        !text::is_white(directive[0]),
        !text::is_white(directive.last()),
        "/watch "@ + (before + directive + after) != "/watch off"@,
        "/watch "@ + (before + directive + after) != "/unwatch"@,
    ensures
        o.submitted("/watch "@ + (before + directive + after)) == (
            OverlayView {
                directive: Some(directive),
                last_snapshot: None,
                transcript: o.transcript.push(
                    EntryView { role: Role::User, text: "/watch "@ + directive },
                ).push(EntryView { role: Role::System, text: "Automation enabled: "@ + directive }),
                scroll_offset: 0,
                ..o
            },
            Some(InstructionView { text: directive, from_watch_command: true }),
        ),
{
    let instruction = before + directive + after;
    text::trim_ignores_padding(before, directive, after);
    text::trim_of_trimmed(directive);
    watch_turns_automation_on(o, instruction);
    let line = "/watch "@ + instruction;
    let n = "/watch "@.len() as int;
    assert(line.subrange(0, n) =~= "/watch "@);
    assert(line.skip(n) =~= instruction);
}

/// `/watch` with nothing but white space behind it is answered with its usage and changes nothing
/// else.
pub proof fn watch_without_instruction_is_answered(o: OverlayView, blank: Seq<char>)
    requires
        text::all_white(blank),
    ensures
        o.submitted("/watch "@ + blank) == (
            OverlayView {
                transcript: o.transcript.push(
                    EntryView { role: Role::System, text: "Usage: /watch <instruction>"@ },
                ),
                scroll_offset: 0,
                status: "Missing automation instruction."@,
                ..o
            },
            None::<InstructionView>,
        ),
{
    reveal_strlit("/watch ");
    reveal_strlit("/watch off");
    reveal_strlit("/unwatch");
    let line = "/watch "@ + blank;
    assert(line.subrange(0, 7) =~= "/watch "@);
    assert(line.skip(7) =~= blank);
    text::trim_of_white(blank);
    assert(line[1] == 'w');
    assert("/unwatch"@[1] == 'u');
    if line == "/watch off"@ {
        assert(line[7] == 'o');
        assert(blank[0] == 'o');
    }
}

/// Any other line is said by the user and asked of the model, both as it is, and nothing else
/// changes.
pub proof fn a_plain_line_is_asked_as_it_is(o: OverlayView, line: Seq<char>)
    requires
        line != "/watch off"@,
        line != "/unwatch"@,
        !text::occurs_at(line, "/watch "@, 0),
    ensures
        o.submitted(line) == (
            OverlayView {
                transcript: o.transcript.push(EntryView { role: Role::User, text: line }),
                scroll_offset: 0,
                ..o
            },
            Some(InstructionView { text: line, from_watch_command: false }),
        ),
{
}

/// While the model thinks, the status says so. What automation saw last is what the pane shows where
/// the directive itself is taken up, and stays as it was for a plain instruction.
pub proof fn thinking_leaves_automation_alone(o: OverlayView, snapshot: Seq<char>)
    ensures
        o.thinking(snapshot, false) == (OverlayView { status: "Thinking…"@, ..o }),
        o.thinking(snapshot, true) == (OverlayView {
            status: "Thinking…"@,
            last_snapshot: Some(snapshot),
            ..o
        }),
        forall|other: Seq<char>|
            o.is_news(other) == #[trigger] o.thinking(snapshot, false).is_news(other),
        !o.thinking(snapshot, true).is_news(snapshot),
{
}

/// Automation looks at a snapshot exactly where it is on and has not seen that one last; then it has
/// seen it, and until something else is shown there is nothing to look at.
pub proof fn automation_looks_at_each_change_once(o: OverlayView, snapshot: Seq<char>)
    ensures
        o.is_news(snapshot) <==> o.directive is Some && o.last_snapshot != Some(snapshot),
        o.watching(snapshot) == (OverlayView {
            status: "Watching…"@,
            last_snapshot: Some(snapshot),
            ..o
        }),
        !o.watching(snapshot).is_news(snapshot),
        forall|other: Seq<char>|
            o.directive is Some && other != snapshot ==> #[trigger] o.watching(snapshot).is_news(
                other,
            ),
{
}

/// Failures are told in the system's name, with the words of the error, and by the status.
pub proof fn failures_are_told(o: OverlayView, words: Seq<char>)
    ensures
        o.request_failed(words) == (OverlayView {
            transcript: o.transcript.push(
                EntryView { role: Role::System, text: "Error: "@ + words },
            ),
            scroll_offset: 0,
            status: "Request failed."@,
            ..o
        }),
        o.check_failed(words) == (OverlayView {
            transcript: o.transcript.push(
                EntryView { role: Role::System, text: "Automation check failed: "@ + words },
            ),
            scroll_offset: 0,
            status: "Automation check failed."@,
            ..o
        }),
{
}

/// What the model answers is said in the assistant's name without the white space around it, marked
/// where automation asked; an answer of nothing but white space is not said.
pub proof fn answers_are_said_as_they_are(
    o: OverlayView,
    before: Seq<char>,
    message: Seq<char>,
    after: Seq<char>,
)
    requires
        text::all_white(before),
        text::all_white(after),
        message.len() > 0 ==> !text::is_white(message[0]) && !text::is_white(message.last()),
    ensures
        forall|automated: bool|
            message.len() == 0 ==> #[trigger] o.answered(before + message + after, automated) == o,
        message.len() > 0 ==> o.answered(before + message + after, false) == (OverlayView {
            transcript: o.transcript.push(EntryView { role: Role::Assistant, text: message }),
            scroll_offset: 0,
            ..o
        }),
        message.len() > 0 ==> o.answered(before + message + after, true) == (OverlayView {
            transcript: o.transcript.push(
                EntryView { role: Role::Assistant, text: "[watch] "@ + message },
            ),
            scroll_offset: 0,
            ..o
        }),
{
    text::trim_ignores_padding(before, message, after);
    text::trim_of_trimmed(message);
    reveal_strlit("");
    assert(""@ + message =~= message);
}

/// The status names the model between requests, and says so while automation watches.
pub proof fn the_status_names_the_model(o: OverlayView)
    ensures
        o.finished() == (OverlayView { status: "moonshotai/kimi-k2.5"@, ..o }),
        o.quiet() == (OverlayView { status: "moonshotai/kimi-k2.5"@ + " │ watching"@, ..o }),
{
}

/// What was done, and what was not allowed, is told in the system's name.
pub proof fn actions_are_told(o: OverlayView, a: reply::ActionView)
    ensures
        o.done(a) == (OverlayView {
            transcript: o.transcript.push(EntryView { role: Role::System, text: action::report(a) }),
            scroll_offset: 0,
            ..o
        }),
        o.blocked(a) == (OverlayView {
            transcript: o.transcript.push(
                EntryView { role: Role::System, text: action::blocked_report(a) },
            ),
            scroll_offset: 0,
            status: action::blocked_status(a),
            ..o
        }),
{
}

/// What is shown is the state: the pane's title, the status, the directive, the conversation, and
/// what was typed with the cursor in it.
pub proof fn the_screen_shows_the_state(o: OverlayView, cols: usize, rows: usize)
    ensures
        ({
            let frame = o.frame(cols, rows);
            let width = text::max(cols as int, 20) as nat;
            let lines = input::input_lines(o.input, (width - 4) as nat);
            &&& frame.title == o.pane_title
            &&& frame.status == o.status
            &&& frame.directive == o.directive
            &&& frame.scroll_offset == o.scroll_offset
            &&& frame.lines == transcript::transcript_lines(o.transcript, width)
            &&& frame.input == lines
            &&& frame.cursor == input::cursor_spot(lines, o.cursor)
        }),
{
}

/// A key press means what it leads to, and an instruction its text and where it comes from.
pub proof fn meaning_of_an_outcome(outcome: KeyOutcome, instruction: Instruction)
    ensures
        outcome is Close ==> outcome@ is Close,
        outcome is Redraw ==> outcome@ is Redraw,
        outcome matches KeyOutcome::Instruct(i) ==> outcome@ == KeyOutcomeView::Instruct(i@),
        instruction@.text == instruction.text@,
        instruction@.from_watch_command == instruction.from_watch_command,
        optional_instruction(Some(instruction)) == Some(instruction@),
        optional_instruction(None) is None,
{
}

/// What can be asked of an overlay is told as it is.
pub proof fn questions_are_answered_truly(
    o: &AiChatOverlay,
    pane_id: usize,
    entries: &Vec<TranscriptEntry>,
    typed: &str,
    status: &str,
    cursor: usize,
    scrolled: usize,
    watching: bool,
)
    requires
        call_ensures(AiChatOverlay::pane_id, (o,), pane_id),
        call_ensures(AiChatOverlay::transcript, (o,), entries),
        call_ensures(AiChatOverlay::input_buffer, (o,), typed),
        call_ensures(AiChatOverlay::status, (o,), status),
        call_ensures(AiChatOverlay::cursor_position, (o,), cursor),
        call_ensures(AiChatOverlay::scroll_offset, (o,), scrolled),
        call_ensures(AiChatOverlay::is_watching, (o,), watching),
    ensures
        o@.pane_id == pane_id,
        o@.transcript == transcript::entry_views(entries@),
        o@.input == typed@,
        o@.status == status@,
        o@.cursor == cursor,
        o@.scroll_offset == scrolled,
        watching <==> o@.directive is Some,
{
}

/// A pane that is gone is named by its number.
pub proof fn a_missing_pane_is_named(pane_id: usize, words: String)
    requires
        call_ensures(missing_pane, (pane_id,), words),
    ensures
        exists|digits: Seq<char>|
            words@ == "pane "@ + digits + " no longer exists"@ && #[trigger] text::number_of(digits)
                == pane_id,
{
    text::decimal_reads_back(pane_id as nat);
    assert(text::number_of(text::decimal(pane_id as nat)) == pane_id);
}

/// Taking in pasted text, and taking a key press, change an overlay as is said of them.
pub proof fn taking_input_changes_as_said(
    pasted: &mut AiChatOverlay,
    s: &str,
    pressed: &mut AiChatOverlay,
    key: Key,
    ctrl: bool,
    outcome: KeyOutcome,
)
    requires
        call_ensures(AiChatOverlay::handle_paste, (pasted, s), ()),
        call_ensures(AiChatOverlay::handle_key_event, (pressed, key, ctrl), outcome),
        old(pasted)@.well_formed(),
    ensures
        final(pasted)@ == old(pasted)@.inserted(s@),
        (final(pressed)@, outcome@) == old(pressed)@.key_pressed(key, ctrl),
{
}

/// A state means what its fields hold.
proof fn meaning_of_a_state(o: AiChatOverlay)
    ensures
        o@.pane_id == o.pane_id,
        o@.pane_title == o.pane_title@,
        o@.transcript.len() == o.transcript@.len(),
        forall|i: int|
            0 <= i < o.transcript@.len() ==> #[trigger] o@.transcript[i] == o.transcript@[i]@,
        o@.input == o.input_buffer@,
        o@.status == o.status@,
        o.automation_directive is None <==> o@.directive is None,
        o.automation_directive matches Some(d) ==> o@.directive == Some(d@),
        o.last_automation_snapshot is None <==> o@.last_snapshot is None,
        o.last_automation_snapshot matches Some(seen) ==> o@.last_snapshot == Some(seen@),
        o@.scroll_offset == o.scroll_offset,
        o@.cursor == o.cursor_position,
{
}

} // verus!
