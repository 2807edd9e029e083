use ai_chat::action::PaneInput;
use ai_chat::key::PaneKey;
use ai_chat::openrouter::{QueryError, OPENROUTER_MODEL};
use ai_chat::overlay::{missing_pane, AiChatOverlay, Key, KeyOutcome};
use ai_chat::reply::{AssistantAction, AssistantReply};
use ai_chat::session::{Event, Output, Request, Session, UnexpectedEvent};
use ai_chat::transcript::Role;

fn overlay() -> AiChatOverlay {
    AiChatOverlay::new(7, "zsh".to_string())
}

fn type_into(o: &mut AiChatOverlay, text: &str) {
    for c in text.chars() {
        assert_eq!(o.handle_key_event(Key::Char(c), false), KeyOutcome::Redraw);
    }
}

#[test]
fn a_new_overlay_says_how_to_use_it() {
    let o = overlay();
    assert_eq!(o.transcript().len(), 1);
    assert_eq!(o.transcript()[0].role, Role::System);
    assert_eq!(
        o.transcript()[0].text,
        "Ready. Type a message, or use `/watch <instruction>` to monitor the terminal. `/watch off` to disable."
    );
    assert_eq!(o.status(), "moonshotai/kimi-k2.5");
    assert_eq!(o.input_buffer(), "");
    assert_eq!(o.cursor_position(), 0);
    assert!(!o.is_watching());
    assert_eq!(o.pane_id(), 7);
    assert_eq!(missing_pane(7), "pane 7 no longer exists");
    assert_eq!(missing_pane(1090), "pane 1090 no longer exists");
    assert_eq!(missing_pane(0), "pane 0 no longer exists");
}

#[test]
fn text_is_edited_at_the_cursor() {
    let mut o = overlay();
    type_into(&mut o, "añb");
    assert_eq!(o.cursor_position(), 3);
    o.handle_key_event(Key::LeftArrow, false);
    o.handle_key_event(Key::Char('日'), false);
    assert_eq!(o.input_buffer(), "añ日b");
    o.handle_key_event(Key::Backspace, false);
    assert_eq!(o.input_buffer(), "añb");
    assert_eq!(o.cursor_position(), 2);
    o.handle_key_event(Key::Home, false);
    o.handle_key_event(Key::Backspace, false);
    o.handle_key_event(Key::LeftArrow, false);
    assert_eq!((o.input_buffer(), o.cursor_position()), ("añb", 0));
    o.handle_key_event(Key::Delete, false);
    assert_eq!((o.input_buffer(), o.cursor_position()), ("ñb", 0));
    o.handle_key_event(Key::RightArrow, false);
    o.handle_key_event(Key::RightArrow, false);
    o.handle_key_event(Key::RightArrow, false);
    assert_eq!(o.cursor_position(), 2);
    o.handle_key_event(Key::Delete, false);
    assert_eq!(o.input_buffer(), "ñb");
    o.handle_key_event(Key::Home, false);
    o.handle_key_event(Key::End, false);
    assert_eq!(o.cursor_position(), 2);
    o.handle_key_event(Key::Char('c'), true);
    o.handle_key_event(Key::Other, false);
    assert_eq!(o.input_buffer(), "ñb");
}

#[test]
fn pasting_equals_typing() {
    let mut typed = overlay();
    let mut pasted = overlay();
    type_into(&mut typed, "ab");
    pasted.handle_paste("ab");
    typed.handle_key_event(Key::LeftArrow, false);
    pasted.handle_key_event(Key::LeftArrow, false);
    type_into(&mut typed, "日本");
    pasted.handle_paste("日本");
    assert_eq!(typed.input_buffer(), "a日本b");
    assert_eq!(typed.input_buffer(), pasted.input_buffer());
    assert_eq!(typed.cursor_position(), 3);
    assert_eq!(pasted.cursor_position(), 3);
}

#[test]
fn left_and_delete_equal_backspace() {
    let mut a = overlay();
    let mut b = overlay();
    a.handle_paste("xyz");
    b.handle_paste("xyz");
    a.handle_key_event(Key::LeftArrow, false);
    a.handle_key_event(Key::Delete, false);
    b.handle_key_event(Key::Backspace, false);
    assert_eq!((a.input_buffer(), a.cursor_position()), ("xy", 2));
    assert_eq!((b.input_buffer(), b.cursor_position()), ("xy", 2));
}

#[test]
fn pages_scroll_and_messages_pin() {
    let mut o = overlay();
    o.handle_key_event(Key::PageUp, false);
    o.handle_key_event(Key::PageUp, false);
    assert_eq!(o.scroll_offset(), 10);
    o.handle_key_event(Key::PageDown, false);
    assert_eq!(o.scroll_offset(), 5);
    o.push_system("news".to_string());
    assert_eq!(o.scroll_offset(), 0);
    o.handle_key_event(Key::PageDown, false);
    assert_eq!(o.scroll_offset(), 0);
}

#[test]
fn blank_input_is_not_submitted() {
    let mut o = overlay();
    o.handle_paste("  \t ");
    assert_eq!(o.handle_key_event(Key::Enter, false), KeyOutcome::Redraw);
    assert_eq!((o.input_buffer(), o.cursor_position()), ("", 0));
    assert_eq!(o.transcript().len(), 1);
}

fn last(o: &AiChatOverlay) -> (Role, &str) {
    let entry = &o.transcript()[o.transcript().len() - 1];
    (entry.role, entry.text.as_str())
}

#[test]
fn submissions_are_told_apart() {
    let mut o = overlay();
    let i = o.handle_submission("/watch  press y ".to_string()).unwrap();
    assert_eq!((i.text.as_str(), i.from_watch_command), ("press y", true));
    assert!(o.is_watching());
    assert_eq!(last(&o), (Role::System, "Automation enabled: press y"));
    assert_eq!(o.transcript()[1].text, "/watch press y");
    assert_eq!(o.transcript()[1].role, Role::User);

    assert_eq!(o.handle_submission("/watch  ".to_string()), None);
    assert_eq!(last(&o), (Role::System, "Usage: /watch <instruction>"));
    assert_eq!(o.status(), "Missing automation instruction.");
    assert!(o.is_watching());

    assert_eq!(o.handle_submission("/watch off".to_string()), None);
    assert_eq!(last(&o), (Role::System, "Automation disabled."));
    assert_eq!(o.status(), "Automation off.");
    assert!(!o.is_watching());

    o.handle_submission("/watch x".to_string());
    assert_eq!(o.handle_submission("/unwatch".to_string()), None);
    assert!(!o.is_watching());

    let i = o.handle_submission("/watching".to_string()).unwrap();
    assert_eq!((i.text.as_str(), i.from_watch_command), ("/watching", false));
    assert_eq!(last(&o), (Role::User, "/watching"));
}

fn key(key: Key) -> Event {
    Event::Key { key, ctrl: false }
}

fn ask(request: Request) -> Result<Output, UnexpectedEvent> {
    Ok(Output { draws: 0, request })
}

fn draw_and_ask(request: Request) -> Result<Output, UnexpectedEvent> {
    Ok(Output { draws: 1, request })
}

fn draw_twice() -> Result<Output, UnexpectedEvent> {
    Ok(Output { draws: 2, request: Request::Poll })
}

fn session() -> Session {
    Session::new(7, "zsh".to_string())
}

fn enter(s: &mut Session, line: &str) -> Result<Output, UnexpectedEvent> {
    assert_eq!(s.step(Event::Paste(line.to_string())), draw_and_ask(Request::Poll));
    s.step(key(Key::Enter))
}

/// A session that waits for the reply to an instruction.
fn asking(snapshot: &str) -> Session {
    let mut s = session();
    assert_eq!(enter(&mut s, "do it"), ask(Request::Capture));
    let out = s.step(Event::Snapshot(snapshot.to_string())).unwrap();
    assert_eq!(out.draws, 1);
    match out.request {
        Request::Query(messages) => assert_eq!(
            messages[1].content,
            format!("Mode: interactive\nPane title: zsh\nUser instruction:\ndo it\n\nRecent terminal output:\n{snapshot}\n")
        ),
        other => panic!("{other:?}"),
    }
    assert_eq!(s.overlay().status(), "Thinking…");
    s
}

fn reply(message: &str, actions: Vec<AssistantAction>) -> Event {
    Event::Reply(Ok(AssistantReply { message: message.to_string(), actions }))
}

fn run(command: &str) -> AssistantAction {
    AssistantAction::RunCommand { command: command.to_string() }
}

#[test]
fn a_plain_answer_is_shown() {
    let mut s = asking("");
    assert_eq!(s.step(reply(" hello\n", vec![])), draw_twice());
    assert_eq!(last(s.overlay()), (Role::Assistant, "hello"));
    assert_eq!(s.overlay().status(), OPENROUTER_MODEL);
}

#[test]
fn a_failed_request_is_reported() {
    let mut s = asking("");
    let failed = Event::Reply(Err(QueryError::NoChoices));
    assert_eq!(s.step(failed), draw_and_ask(Request::Poll));
    assert_eq!(last(s.overlay()), (Role::System, "Error: OpenRouter response had no choices"));
    assert_eq!(s.overlay().status(), "Request failed.");
}

fn pasted(command: &str) -> Request {
    Request::Send(vec![
        PaneInput::Paste(command.to_string()),
        PaneInput::Key(PaneKey::Char('\r')),
    ])
}

#[test]
fn actions_are_carried_out_in_turn() {
    let mut s = asking("");
    let actions = vec![run("ls"), run(" "), run("pwd")];
    assert_eq!(s.step(reply("ok", actions)), ask(Request::ResolvePane));
    assert_eq!(s.step(Event::PaneReady), ask(pasted("ls")));
    assert_eq!(s.step(Event::Sent), ask(Request::ResolvePane));
    assert_eq!(last(s.overlay()), (Role::System, "Ran: ls"));
    assert_eq!(s.step(Event::PaneReady), ask(Request::ResolvePane));
    assert_eq!(s.step(Event::PaneReady), ask(pasted("pwd")));
    assert_eq!(s.step(Event::Sent), draw_twice());
    assert_eq!(last(s.overlay()), (Role::System, "Ran: pwd"));
    assert_eq!(s.overlay().status(), OPENROUTER_MODEL);
}

#[test]
fn a_risky_action_waits_for_a_yes() {
    let mut s = asking("");
    s.step(reply("", vec![run("sudo ls")])).unwrap();
    let out = s.step(Event::PaneReady).unwrap();
    assert_eq!(out.draws, 0);
    assert!(matches!(out.request, Request::Confirm(_)));
    assert_eq!(s.step(Event::Sent), Err(UnexpectedEvent));
    assert_eq!(s.step(Event::Answer(true)), ask(pasted("sudo ls")));
    assert_eq!(s.step(Event::Sent), draw_twice());
}

#[test]
fn a_no_blocks_an_action_and_goes_on() {
    let mut s = asking("");
    s.step(reply("", vec![run("sudo ls"), run("ls")])).unwrap();
    s.step(Event::PaneReady).unwrap();
    assert_eq!(s.step(Event::Answer(false)), ask(Request::ResolvePane));
    assert_eq!(last(s.overlay()), (Role::System, "Blocked command: sudo ls"));
    assert_eq!(s.overlay().status(), "Command blocked.");
    assert_eq!(s.step(Event::PaneReady), ask(pasted("ls")));
    s.step(Event::Sent).unwrap();
    assert_eq!(s.overlay().status(), OPENROUTER_MODEL);
}

#[test]
fn an_unsupported_key_ends_the_session() {
    let mut s = asking("");
    let keys = vec!["Home".to_string(), "F1".to_string()];
    s.step(reply("", vec![AssistantAction::SendKeys { keys }])).unwrap();
    assert!(matches!(s.step(Event::PaneReady).unwrap().request, Request::Confirm(_)));
    assert_eq!(
        s.step(Event::Answer(true)),
        ask(Request::Send(vec![PaneInput::Key(PaneKey::Home)]))
    );
    assert_eq!(
        s.step(Event::Sent),
        ask(Request::Fail("unsupported key `F1`".to_string()))
    );
    assert_eq!(s.step(Event::Tick), Err(UnexpectedEvent));
}

fn watching() -> Session {
    let mut s = session();
    assert_eq!(s.step(Event::Tick), ask(Request::Poll));
    assert_eq!(enter(&mut s, " /watch press y "), ask(Request::Capture));
    s.step(Event::Snapshot("one".to_string())).unwrap();
    assert_eq!(s.overlay().status(), "Thinking…");
    assert_eq!(s.step(reply("", vec![])), draw_twice());
    s
}

#[test]
fn automation_looks_at_changes_only() {
    let mut s = watching();
    assert_eq!(s.step(Event::Tick), ask(Request::Capture));
    assert_eq!(s.step(Event::Snapshot("one".to_string())), ask(Request::Poll));

    assert_eq!(s.step(Event::Tick), ask(Request::Capture));
    let out = s.step(Event::Snapshot("two".to_string())).unwrap();
    assert_eq!(out.draws, 1);
    match out.request {
        Request::Query(messages) => assert_eq!(
            messages[1].content,
            "Mode: automation\nPane title: zsh\nUser instruction:\npress y\n\nRecent terminal output:\ntwo\n"
        ),
        other => panic!("{other:?}"),
    }
    assert_eq!(s.overlay().status(), "Watching…");
    assert_eq!(s.step(reply(" ", vec![])), ask(Request::Poll));
    assert_eq!(s.overlay().status(), "moonshotai/kimi-k2.5 │ watching");

    s.step(Event::Tick).unwrap();
    s.step(Event::Snapshot("three".to_string())).unwrap();
    assert_eq!(s.step(reply("seen", vec![])), draw_and_ask(Request::Poll));
    assert_eq!(last(s.overlay()), (Role::Assistant, "[watch] seen"));

    s.step(Event::Tick).unwrap();
    s.step(Event::Snapshot("still".to_string())).unwrap();
    assert_eq!(s.step(reply("", vec![run("ls")])), ask(Request::ResolvePane));
    assert_eq!(s.step(Event::PaneReady), ask(pasted("ls")));
    assert_eq!(s.step(Event::Sent), draw_and_ask(Request::Poll));

    s.step(Event::Tick).unwrap();
    s.step(Event::Snapshot("four".to_string())).unwrap();
    let failed = Event::Reply(Err(QueryError::MissingKey));
    assert_eq!(s.step(failed), ask(Request::Poll));
    assert_eq!(
        last(s.overlay()),
        (
            Role::System,
            "Automation check failed: missing environment variable OPENROUTER_API_KEY"
        )
    );
    assert_eq!(s.overlay().status(), "Automation check failed.");
}

#[test]
fn watch_off_stops_automation() {
    let mut s = watching();
    assert_eq!(enter(&mut s, "/watch off"), draw_and_ask(Request::Poll));
    assert_eq!(s.step(Event::Tick), ask(Request::Poll));
    assert!(!s.overlay().is_watching());
}

#[test]
fn entered_watch_without_instruction_is_no_command() {
    let mut s = session();
    assert_eq!(enter(&mut s, "/watch   "), ask(Request::Capture));
    assert_eq!(last(s.overlay()), (Role::User, "/watch"));
    assert!(!s.overlay().is_watching());
}

#[test]
fn typing_leaves_the_conversation_alone() {
    let mut o = overlay();
    o.push_assistant("hi".to_string());
    for key in [
        Key::Char('x'),
        Key::Backspace,
        Key::Delete,
        Key::LeftArrow,
        Key::RightArrow,
        Key::Home,
        Key::End,
        Key::PageUp,
        Key::PageDown,
        Key::Other,
    ] {
        assert_eq!(o.handle_key_event(key, false), KeyOutcome::Redraw);
        assert_eq!(o.transcript().len(), 2);
        assert_eq!(o.status(), OPENROUTER_MODEL);
    }
    assert_eq!(o.handle_key_event(Key::Escape, false), KeyOutcome::Close);
    assert_eq!(last(&o), (Role::Assistant, "hi"));
}

#[test]
fn typed_input_is_sent_as_it_is_trimmed() {
    let mut s = asking("delete everything? [y/n]");
    let answer = AssistantAction::SendInput { text: "Y \n".to_string(), submit: true };
    let other = AssistantAction::SendInput { text: " n".to_string(), submit: false };
    s.step(reply("", vec![answer, other])).unwrap();
    assert_eq!(
        s.step(Event::PaneReady),
        ask(Request::Confirm(
            "The AI wants to type `Y` and press Enter.\n\nReason for confirmation: the active terminal output looks like a destructive or privileged confirmation prompt\n\nPress Y to allow or N to block.".to_string()
        ))
    );
    assert_eq!(s.step(Event::Answer(false)), ask(Request::ResolvePane));
    assert_eq!(last(s.overlay()), (Role::System, "Blocked input: Y"));
    assert_eq!(s.overlay().status(), "Input blocked.");
    assert_eq!(
        s.step(Event::PaneReady),
        ask(Request::Send(vec![PaneInput::Paste(" n".to_string())]))
    );
    assert_eq!(s.step(Event::Sent), draw_twice());
    assert_eq!(last(s.overlay()), (Role::System, "Sent: ` n`"));
    assert_eq!(s.overlay().pane_id(), 7);
}

#[test]
fn escape_closes_and_other_input_is_ignored() {
    let mut s = session();
    assert_eq!(s.step(Event::Ignored), ask(Request::Poll));
    assert_eq!(s.step(Event::PaneReady), Err(UnexpectedEvent));
    assert_eq!(s.step(key(Key::Escape)), ask(Request::Close));
    assert_eq!(s.step(key(Key::Escape)), Err(UnexpectedEvent));
}
