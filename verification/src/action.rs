//! What becomes of an action that the assistant asks for.

use crate::key::PaneKey;
use crate::reply::{ActionView, AssistantAction};
use crate::risk::ActionRisk;
use crate::{key, reply, risk, text};
use vstd::prelude::*;
use vstd::string::*;

verus! {

/// Something that is sent to the pane.
#[derive(Debug, PartialEq, Eq)]
pub enum PaneInput {
    Paste(String),
    Key(PaneKey),
}

/// The meaning of a [`PaneInput`].
pub ghost enum PaneInputView {
    Paste(Seq<char>),
    Key(PaneKey),
}

impl View for PaneInput {
    type V = PaneInputView;

    open spec fn view(&self) -> PaneInputView {
        match self {
            PaneInput::Paste(text) => PaneInputView::Paste(text@),
            PaneInput::Key(key) => PaneInputView::Key(*key),
        }
    }
}

/// The meanings of a list of inputs.
pub open spec fn input_views(inputs: Seq<PaneInput>) -> Seq<PaneInputView> {
    Seq::new(inputs.len(), |i: int| inputs[i]@)
}

/// The key that submits what was typed.
pub open spec fn submit_key() -> PaneInputView {
    PaneInputView::Key(PaneKey::Char('\r'))
}

/// Whether there is nothing in the action to be done.
pub open spec fn is_void(action: ActionView) -> bool {
    match action {
        ActionView::RunCommand { command } => text::trim(command).len() == 0,
        ActionView::SendInput { text, .. } => text::trim_end(text).len() == 0,
        ActionView::SendKeys { keys } => keys.len() == 0,
    }
}

/// Why the action has to be confirmed while the pane shows `snapshot`.
pub open spec fn action_reason(action: ActionView, snapshot: Seq<char>) -> Option<Seq<char>> {
    match action {
        ActionView::RunCommand { command } => risk::command_reason(text::trim(command)),
        ActionView::SendInput { text, .. } => risk::prompt_reason(text::trim_end(text), snapshot),
        ActionView::SendKeys { keys } => risk::keys_reason(keys, snapshot),
    }
}

/// How a person is asked to allow the action.
pub open spec fn confirmation(action: ActionView, reason: Seq<char>) -> Seq<char> {
    (match action {
        ActionView::RunCommand { command } => "The AI wants to run:\n\n"@ + text::trim(command),
        ActionView::SendInput { text, submit } => "The AI wants to type `"@ + text::trim_end(text)
            + "`"@ + (if submit {
            " and press Enter"@
        } else {
            ""@
        }) + "."@,
        ActionView::SendKeys { keys } => "The AI wants to send keys: "@ + text::joined(keys, ", "@),
    }) + "\n\nReason for confirmation: "@ + reason + "\n\nPress Y to allow or N to block."@
}

/// The keys of a sequence that come before the first unsupported one.
pub open spec fn keys_sent(keys: Seq<Seq<char>>) -> Seq<PaneInputView>
    decreases keys.len(),
{
    if keys.len() == 0 {
        Seq::empty()
    } else {
        match key::key_named(keys[0]) {
            Some(k) => seq![PaneInputView::Key(k)] + keys_sent(keys.drop_first()),
            None => Seq::empty(),
        }
    }
}

/// What is said of the first unsupported key of a sequence.
pub open spec fn keys_failure(keys: Seq<Seq<char>>) -> Option<Seq<char>>
    decreases keys.len(),
{
    if keys.len() == 0 {
        None
    } else if key::key_named(keys[0]) is None {
        Some(key::unsupported_key(keys[0]))
    } else {
        keys_failure(keys.drop_first())
    }
}

/// What carrying out the action sends to the pane.
pub open spec fn inputs_of(action: ActionView) -> Seq<PaneInputView> {
    match action {
        ActionView::RunCommand { command } => seq![
            PaneInputView::Paste(text::trim(command)),
            submit_key(),
        ],
        ActionView::SendInput { text, submit } => if submit {
            seq![PaneInputView::Paste(text::trim_end(text)), submit_key()]
        } else {
            seq![PaneInputView::Paste(text::trim_end(text))]
        },
        ActionView::SendKeys { keys } => keys_sent(keys),
    }
}

/// Why the action could not be carried out to its end, once its inputs are sent.
pub open spec fn failure_of(action: ActionView) -> Option<Seq<char>> {
    match action {
        ActionView::SendKeys { keys } => keys_failure(keys),
        _ => None,
    }
}

/// What the transcript says of an action that was carried out.
pub open spec fn report(action: ActionView) -> Seq<char> {
    match action {
        ActionView::RunCommand { command } => "Ran: "@ + text::trim(command),
        ActionView::SendInput { text, submit } => "Sent: `"@ + text::trim_end(text) + "`"@ + (
        if submit {
            " + Enter"@
        } else {
            ""@
        }),
        ActionView::SendKeys { keys } => "Keys: "@ + text::joined(keys, ", "@),
    }
}

/// What the transcript says of an action that was not allowed.
pub open spec fn blocked_report(action: ActionView) -> Seq<char> {
    match action {
        ActionView::RunCommand { command } => "Blocked command: "@ + text::trim(command),
        ActionView::SendInput { text, .. } => "Blocked input: "@ + text::trim_end(text),
        ActionView::SendKeys { keys } => "Blocked keys: "@ + text::joined(keys, ", "@),
    }
}

/// The status after an action was not allowed.
pub open spec fn blocked_status(action: ActionView) -> Seq<char> {
    match action {
        ActionView::RunCommand { .. } => "Command blocked."@,
        ActionView::SendInput { .. } => "Input blocked."@,
        ActionView::SendKeys { .. } => "Key sequence blocked."@,
    }
}

/// How to go about an action.
#[derive(Debug, PartialEq, Eq)]
pub enum ActionPlan {
    /// There is nothing to do.
    Skip,
    /// Ask first, in these words.
    Confirm(String),
    /// Send this to the pane.
    Send(Vec<PaneInput>),
}

/// How to go about `action` while the pane shows `pane_snapshot`: an action with nothing in it is
/// skipped, a risky one has to be confirmed, any other is sent.
pub fn plan_action(action: &AssistantAction, pane_snapshot: &str) -> (plan: ActionPlan)
    ensures
        plan is Skip <==> is_void(action@),
        plan is Confirm <==> !is_void(action@) && action_reason(action@, pane_snapshot@) is Some,
        plan matches ActionPlan::Confirm(words) ==> words@ == confirmation(
            action@,
            action_reason(action@, pane_snapshot@)->0,
        ),
        plan matches ActionPlan::Send(inputs) ==> input_views(inputs@) == inputs_of(action@),
{
    if nothing_to_do(action) {
        return ActionPlan::Skip;
    }
    match assess_action(action, pane_snapshot) {
        ActionRisk::Safe => ActionPlan::Send(action_inputs(action)),
        ActionRisk::NeedsConfirmation(reason) => ActionPlan::Confirm(
            confirmation_text(action, reason),
        ),
    }
}

fn nothing_to_do(action: &AssistantAction) -> (r: bool)
    ensures
        r == is_void(action@),
{
    match action {
        AssistantAction::RunCommand { command } => text::trimmed(
            command.as_str(),
        ).as_str().is_empty(),
        AssistantAction::SendInput { text, .. } => text::trimmed_end(
            text.as_str(),
        ).as_str().is_empty(),
        AssistantAction::SendKeys { keys } => keys.len() == 0,
    }
}

fn assess_action(action: &AssistantAction, pane_snapshot: &str) -> (r: ActionRisk)
    ensures
        r.reason() == action_reason(action@, pane_snapshot@),
{
    match action {
        AssistantAction::RunCommand { command } => risk::assess_command_risk(
            text::trimmed(command.as_str()).as_str(),
        ),
        AssistantAction::SendInput { text, .. } => risk::assess_prompt_risk(
            text::trimmed_end(text.as_str()).as_str(),
            pane_snapshot,
        ),
        AssistantAction::SendKeys { keys } => risk::assess_key_sequence_risk(
            keys.as_slice(),
            pane_snapshot,
        ),
    }
}

fn confirmation_text(action: &AssistantAction, reason: &str) -> (words: String)
    ensures
        words@ == confirmation(action@, reason@),
{
    let mut words = String::new();
    match action {
        AssistantAction::RunCommand { command } => {
            words.append("The AI wants to run:\n\n");
            words.append(text::trimmed(command.as_str()).as_str());
        },
        AssistantAction::SendInput { text, submit } => {
            words.append("The AI wants to type `");
            words.append(text::trimmed_end(text.as_str()).as_str());
            words.append("`");
            words.append(
                if *submit {
                    " and press Enter"
                } else {
                    ""
                },
            );
            words.append(".");
        },
        AssistantAction::SendKeys { keys } => {
            words.append("The AI wants to send keys: ");
            words.append(text::join_texts(keys.as_slice(), ", ").as_str());
        },
    }
    words.append("\n\nReason for confirmation: ");
    words.append(reason);
    words.append("\n\nPress Y to allow or N to block.");
    assert(words@ =~= confirmation(action@, reason@));
    words
}

fn put_input(inputs: &mut Vec<PaneInput>, input: PaneInput)
    ensures
        input_views(final(inputs)@) == input_views(old(inputs)@).push(input@),
{
    inputs.push(input);
    assert(input_views(inputs@) =~= input_views(old(inputs)@).push(input@));
}

/// What carrying out the action sends to the pane: of a key sequence, the keys in front of the
/// first unsupported one.
pub fn action_inputs(action: &AssistantAction) -> (inputs: Vec<PaneInput>)
    ensures
        input_views(inputs@) == inputs_of(action@),
{
    let mut inputs: Vec<PaneInput> = Vec::new();
    assert(input_views(inputs@) =~= Seq::<PaneInputView>::empty());
    match action {
        AssistantAction::RunCommand { command } => {
            put_input(&mut inputs, PaneInput::Paste(text::trimmed(command.as_str())));
            put_input(&mut inputs, PaneInput::Key(PaneKey::Char('\r')));
        },
        AssistantAction::SendInput { text, submit } => {
            put_input(&mut inputs, PaneInput::Paste(text::trimmed_end(text.as_str())));
            if *submit {
                put_input(&mut inputs, PaneInput::Key(PaneKey::Char('\r')));
            }
        },
        AssistantAction::SendKeys { keys } => {
            let ghost names = text::texts(keys@);
            let mut i: usize = 0;
            assert(names.skip(0) =~= names);
            while i < keys.len()
                invariant
                    i <= keys@.len(),
                    names == text::texts(keys@),
                    inputs_of(action@) == keys_sent(names),
                    keys_sent(names) =~= input_views(inputs@) + keys_sent(names.skip(i as int)),
                decreases keys@.len() - i,
            {
                assert(names.skip(i as int)[0] == keys@[i as int]@);
                match key::parse_pane_key(keys[i].as_str()) {
                    Ok(k) => {
                        put_input(&mut inputs, PaneInput::Key(k));
                    },
                    Err(_) => {
                        assert(input_views(inputs@) =~= keys_sent(names));
                        return inputs;
                    },
                }
                assert(names.skip(i as int).drop_first() =~= names.skip(i + 1));
                i = i + 1;
            }
            assert(input_views(inputs@) =~= keys_sent(names));
        },
    }
    assert(input_views(inputs@) =~= inputs_of(action@));
    inputs
}

/// Why the action cannot be carried out to its end: the first unsupported key of a key sequence.
pub fn action_failure(action: &AssistantAction) -> (failure: Option<String>)
    ensures
        failure is Some <==> failure_of(action@) is Some,
        failure matches Some(words) ==> failure_of(action@) == Some(words@),
{
    match action {
        AssistantAction::SendKeys { keys } => {
            let ghost names = text::texts(keys@);
            let mut i: usize = 0;
            assert(names.skip(0) =~= names);
            while i < keys.len()
                invariant
                    i <= keys@.len(),
                    names == text::texts(keys@),
                    failure_of(action@) == keys_failure(names),
                    keys_failure(names) == keys_failure(names.skip(i as int)),
                decreases keys@.len() - i,
            {
                assert(names.skip(i as int)[0] == keys@[i as int]@);
                if let Err(words) = key::parse_pane_key(keys[i].as_str()) {
                    return Some(words);
                }
                assert(names.skip(i as int).drop_first() =~= names.skip(i + 1));
                i = i + 1;
            }
            None
        },
        _ => None,
    }
}

/// What the transcript says of an action that was carried out.
pub fn action_report(action: &AssistantAction) -> (words: String)
    ensures
        words@ == report(action@),
{
    let mut words = String::new();
    match action {
        AssistantAction::RunCommand { command } => {
            words.append("Ran: ");
            words.append(text::trimmed(command.as_str()).as_str());
        },
        AssistantAction::SendInput { text, submit } => {
            words.append("Sent: `");
            words.append(text::trimmed_end(text.as_str()).as_str());
            words.append("`");
            words.append(
                if *submit {
                    " + Enter"
                } else {
                    ""
                },
            );
        },
        AssistantAction::SendKeys { keys } => {
            words.append("Keys: ");
            words.append(text::join_texts(keys.as_slice(), ", ").as_str());
        },
    }
    assert(words@ =~= report(action@));
    words
}

/// What the transcript says of an action that was not allowed.
pub fn blocked_action_report(action: &AssistantAction) -> (words: String)
    ensures
        words@ == blocked_report(action@),
{
    let mut words = String::new();
    match action {
        AssistantAction::RunCommand { command } => {
            words.append("Blocked command: ");
            words.append(text::trimmed(command.as_str()).as_str());
        },
        AssistantAction::SendInput { text, .. } => {
            words.append("Blocked input: ");
            words.append(text::trimmed_end(text.as_str()).as_str());
        },
        AssistantAction::SendKeys { keys } => {
            words.append("Blocked keys: ");
            words.append(text::join_texts(keys.as_slice(), ", ").as_str());
        },
    }
    assert(words@ =~= blocked_report(action@));
    words
}

/// The status after an action was not allowed.
pub fn blocked_action_status(action: &AssistantAction) -> (words: &'static str)
    ensures
        words@ == blocked_status(action@),
{
    match action {
        AssistantAction::RunCommand { .. } => "Command blocked.",
        AssistantAction::SendInput { .. } => "Input blocked.",
        AssistantAction::SendKeys { .. } => "Key sequence blocked.",
    }
}

/// A key sequence is sent whole exactly when all its keys are supported; an unsupported key always
/// has to be confirmed first.
pub proof fn unsupported_keys_need_confirmation(keys: Seq<Seq<char>>, snapshot: Seq<char>)
    ensures
        risk::all_supported(keys) <==> keys_failure(keys) is None,
        risk::all_supported(keys) <==> keys_sent(keys).len() == keys.len(),
        keys_failure(keys) is Some ==> risk::keys_reason(keys, snapshot) is Some,
    decreases keys.len(),
{
    if keys.len() > 0 {
        let rest = keys.drop_first();
        unsupported_keys_need_confirmation(rest, snapshot);
        keys_sent_is_no_longer(rest);
        assert(forall|i: int| 0 <= i < rest.len() ==> #[trigger] rest[i] == keys[i + 1]);
        if risk::all_supported(rest) && key::key_named(keys[0]) is Some {
            assert forall|i: int| 0 <= i < keys.len() implies key::key_named(
                #[trigger] keys[i],
            ) is Some by {
                if i > 0 {
                    assert(rest[i - 1] == keys[i]);
                }
            }
        }
        if risk::all_supported(keys) {
            assert(key::key_named(keys[0]) is Some);
        }
    }
}

proof fn keys_sent_is_no_longer(keys: Seq<Seq<char>>)
    ensures
        keys_sent(keys).len() <= keys.len(),
    decreases keys.len(),
{
    if keys.len() > 0 {
        keys_sent_is_no_longer(keys.drop_first());
    }
}

/// There is nothing to do in an action exactly where its command or text is all white space or its
/// key sequence is empty.
pub proof fn nothing_but_white_is_void(command: Seq<char>, submit: bool, keys: Seq<Seq<char>>)
    ensures
        is_void(ActionView::RunCommand { command }) <==> text::all_white(command),
        is_void(ActionView::SendInput { text: command, submit }) <==> text::all_white(command),
        is_void(ActionView::SendKeys { keys }) <==> keys.len() == 0,
{
    text::trim_of_white(command);
}

/// A command is pasted without the white space around it, and submitted.
pub proof fn a_command_is_pasted_and_submitted(
    before: Seq<char>,
    command: Seq<char>,
    after: Seq<char>,
)
    requires
        text::all_white(before),
        text::all_white(after),
        command.len() > 0 ==> !text::is_white(command[0]) && !text::is_white(command.last()),
    ensures
        inputs_of(ActionView::RunCommand { command: before + command + after }) == seq![
            PaneInputView::Paste(command),
            PaneInputView::Key(PaneKey::Char('\r')),
        ],
{
    text::trim_ignores_padding(before, command, after);
    text::trim_of_trimmed(command);
}

/// Text is pasted with the white space in front of it but without that behind it, and submitted
/// where that is asked for.
pub proof fn text_is_pasted_and_submitted_if_asked(
    words: Seq<char>,
    after: Seq<char>,
    submit: bool,
)
    requires
        text::all_white(after),
        words.len() > 0 ==> !text::is_white(words.last()),
    ensures
        inputs_of(ActionView::SendInput { text: words + after, submit })[0] == PaneInputView::Paste(
            words,
        ),
        submit ==> inputs_of(ActionView::SendInput { text: words + after, submit }) == seq![
            PaneInputView::Paste(words),
            PaneInputView::Key(PaneKey::Char('\r')),
        ],
        !submit ==> inputs_of(ActionView::SendInput { text: words + after, submit }).len() == 1,
{
    text::trim_end_skips_white(words, after);
}

/// Of a key sequence the keys are pressed in order, up to the first one without a known name.
pub proof fn keys_are_pressed_in_order(keys: Seq<Seq<char>>)
    ensures
        ({
            let sent = inputs_of(ActionView::SendKeys { keys });
            let failure = failure_of(ActionView::SendKeys { keys });
            &&& sent.len() <= keys.len()
            &&& forall|i: int|
                0 <= i < sent.len() ==> (#[trigger] sent[i] matches PaneInputView::Key(k)
                    && key::key_named(keys[i]) == Some(k))
            &&& sent.len() == keys.len() ==> failure is None
            &&& sent.len() < keys.len() ==> key::key_named(keys[sent.len() as int]) is None
                && failure == Some("unsupported key `"@ + keys[sent.len() as int] + "`"@)
        }),
    decreases keys.len(),
{
    if keys.len() > 0 && key::key_named(keys[0]) is Some {
        let rest = keys.drop_first();
        let sent = keys_sent(keys);
        keys_are_pressed_in_order(rest);
        assert forall|i: int| 0 <= i < sent.len() implies (
        #[trigger] sent[i] matches PaneInputView::Key(k) && key::key_named(keys[i]) == Some(k)) by {
            if i > 0 {
                assert(rest[i - 1] == keys[i]);
                assert(sent[i] == keys_sent(rest)[i - 1]);
            }
        }
        if sent.len() < keys.len() {
            assert(rest[keys_sent(rest).len() as int] == keys[sent.len() as int]);
        }
    }
}

/// Commands and texts are always carried out to their end.
pub proof fn only_keys_can_fail(action: ActionView)
    requires
        !(action is SendKeys),
    ensures
        failure_of(action) is None,
{
}

/// A command is judged by itself, the white space around it aside; what is typed by itself and by
/// what the pane shows, white space aside too; keys by their names and by what the pane shows.
pub proof fn what_an_action_is_judged_by(
    before: Seq<char>,
    words: Seq<char>,
    after: Seq<char>,
    submit: bool,
    keys: Seq<Seq<char>>,
    snapshot: Seq<char>,
)
    requires
        text::all_white(before),
        text::all_white(after),
        words.len() > 0 ==> !text::is_white(words[0]) && !text::is_white(words.last()),
    ensures
        action_reason(ActionView::RunCommand { command: before + words + after }, snapshot)
            == risk::command_reason(words),
        action_reason(ActionView::SendInput { text: before + words + after, submit }, snapshot)
            == risk::prompt_reason(words, snapshot),
        action_reason(ActionView::SendKeys { keys }, snapshot) == risk::keys_reason(keys, snapshot),
{
    let whole = before + words + after;
    text::trim_ignores_padding(before, words, after);
    text::trim_of_trimmed(words);
    text::trim_end_cuts_white(whole);
    let kept = text::trim_end(whole);
    assert(whole =~= kept + whole.skip(kept.len() as int));
    text::trim_ignores_padding(Seq::empty(), kept, whole.skip(kept.len() as int));
    assert(Seq::<char>::empty() + kept + whole.skip(kept.len() as int) =~= whole);
    assert(text::trim(kept) == text::trim(words));
    risk::a_yes_to_danger_is_confirmed(kept, snapshot);
    risk::a_yes_to_danger_is_confirmed(words, snapshot);
}

/// Whoever is asked reads what exactly would be done, and why that is asked.
pub proof fn confirmations_name_action_and_reason(
    command: Seq<char>,
    words: Seq<char>,
    keys: Seq<Seq<char>>,
    reason: Seq<char>,
)
    ensures
        confirmation(ActionView::RunCommand { command }, reason) == "The AI wants to run:\n\n"@
            + text::trim(command) + "\n\nReason for confirmation: "@ + reason
            + "\n\nPress Y to allow or N to block."@,
        confirmation(ActionView::SendInput { text: words, submit: true }, reason)
            == "The AI wants to type `"@ + text::trim_end(words) + "`"@ + " and press Enter"@ + "."@
            + "\n\nReason for confirmation: "@ + reason + "\n\nPress Y to allow or N to block."@,
        confirmation(ActionView::SendInput { text: words, submit: false }, reason)
            == "The AI wants to type `"@ + text::trim_end(words) + "`"@ + "."@
            + "\n\nReason for confirmation: "@ + reason + "\n\nPress Y to allow or N to block."@,
        confirmation(ActionView::SendKeys { keys }, reason) == "The AI wants to send keys: "@
            + text::joined(keys, ", "@) + "\n\nReason for confirmation: "@ + reason
            + "\n\nPress Y to allow or N to block."@,
{
    reveal_strlit("");
    assert("The AI wants to type `"@ + text::trim_end(words) + "`"@ + ""@ + "."@
        =~= "The AI wants to type `"@ + text::trim_end(words) + "`"@ + "."@);
}

/// The transcript tells what was done, and what was not allowed, and the two are told apart.
pub proof fn reports_name_the_action(command: Seq<char>, words: Seq<char>, keys: Seq<Seq<char>>)
    ensures
        report(ActionView::RunCommand { command }) == "Ran: "@ + text::trim(command),
        report(ActionView::SendInput { text: words, submit: true }) == "Sent: `"@ + text::trim_end(
            words,
        ) + "`"@ + " + Enter"@,
        report(ActionView::SendInput { text: words, submit: false }) == "Sent: `"@ + text::trim_end(
            words,
        ) + "`"@,
        report(ActionView::SendKeys { keys }) == "Keys: "@ + text::joined(keys, ", "@),
        blocked_report(ActionView::RunCommand { command }) == "Blocked command: "@ + text::trim(
            command,
        ),
        forall|submit: bool|
            #[trigger] blocked_report(ActionView::SendInput { text: words, submit })
                == "Blocked input: "@ + text::trim_end(words),
        blocked_report(ActionView::SendKeys { keys }) == "Blocked keys: "@ + text::joined(
            keys,
            ", "@,
        ),
        blocked_status(ActionView::RunCommand { command }) == "Command blocked."@,
        forall|submit: bool|
            #[trigger] blocked_status(ActionView::SendInput { text: words, submit })
                == "Input blocked."@,
        blocked_status(ActionView::SendKeys { keys }) == "Key sequence blocked."@,
{
    reveal_strlit("");
    assert("Sent: `"@ + text::trim_end(words) + "`"@ + ""@ =~= "Sent: `"@ + text::trim_end(words)
        + "`"@);
}

/// A plan skips what is void, asks about what is risky, and sends everything else.
pub proof fn plans_follow_void_and_risk(
    action: &AssistantAction,
    pane_snapshot: &str,
    plan: ActionPlan,
    inputs: Vec<PaneInput>,
)
    requires
        call_ensures(plan_action, (action, pane_snapshot), plan),
        call_ensures(action_inputs, (action,), inputs),
    ensures
        is_void(action@) ==> plan is Skip,
        !is_void(action@) && action_reason(action@, pane_snapshot@) is Some ==> plan is Confirm,
        !is_void(action@) && action_reason(action@, pane_snapshot@) is None ==> (
        plan matches ActionPlan::Send(sent) && sent@.len() == inputs@.len() && forall|i: int|
            0 <= i < sent@.len() ==> #[trigger] sent@[i]@ == inputs@[i]@),
{
    if let ActionPlan::Send(sent) = plan {
        assert(input_views(sent@) == input_views(inputs@));
        assert forall|i: int| 0 <= i < sent@.len() implies #[trigger] sent@[i]@ == inputs@[i]@ by {
            assert(input_views(sent@)[i] == input_views(inputs@)[i]);
        }
    }
}

/// What is sent for a text that is not to be submitted is one paste, for any other text or command
/// one paste and the key that submits it.
pub proof fn submitting_takes_one_more_input(action: &AssistantAction, inputs: Vec<PaneInput>)
    requires
        call_ensures(action_inputs, (action,), inputs),
    ensures
        action matches AssistantAction::RunCommand { command } ==> inputs@.len() == 2
            && inputs@[0]@ == PaneInputView::Paste(text::trim(command@)) && inputs@[1]
            == PaneInput::Key(PaneKey::Char('\r')),
        action matches AssistantAction::SendInput { text, submit } ==> inputs@[0]@
            == PaneInputView::Paste(text::trim_end(text@)) && (if *submit {
            inputs@.len() == 2 && inputs@[1] == PaneInput::Key(PaneKey::Char('\r'))
        } else {
            inputs@.len() == 1
        }),
{
    assert(input_views(inputs@).len() == inputs@.len());
    if inputs@.len() > 0 {
        assert(input_views(inputs@)[0] == inputs@[0]@);
    }
    if inputs@.len() > 1 {
        assert(input_views(inputs@)[1] == inputs@[1]@);
    }
}

/// An input to the pane means what it holds.
pub proof fn meaning_of_a_pane_input(input: PaneInput)
    ensures
        input matches PaneInput::Paste(text) ==> input@ == PaneInputView::Paste(text@),
        input matches PaneInput::Key(key) ==> input@ == PaneInputView::Key(key),
{
}

} // verus!
