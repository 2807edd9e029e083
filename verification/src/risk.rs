//! Which of the assistant's actions a person has to allow first.

use crate::{key, text};
use vstd::prelude::*;

verus! {

/// Whether an action may go ahead at once, or why it has to be confirmed.
#[derive(Clone, Copy, Debug, PartialEq, Eq)]
pub enum ActionRisk {
    Safe,
    NeedsConfirmation(&'static str),
}

impl ActionRisk {
    /// Why the action has to be confirmed; `None` when it is safe.
    pub open spec fn reason(self) -> Option<Seq<char>> {
        match self {
            ActionRisk::Safe => None,
            ActionRisk::NeedsConfirmation(reason) => Some(reason@),
        }
    }
}

/// Fragments that make a command risky, each with the reason shown for it, in order of precedence.
pub open spec fn command_rules() -> Seq<(Seq<char>, Seq<char>)> {
    seq![
        ("sudo"@, "commands requesting elevated privileges"@),
        ("rm "@, "commands that remove files"@),
        ("rm\t"@, "commands that remove files"@),
        ("rm-"@, "commands that remove files"@),
        ("dd "@, "raw disk write commands"@),
        ("mkfs"@, "filesystem formatting commands"@),
        ("fdisk"@, "disk partitioning commands"@),
        ("diskutil erase"@, "disk erase commands"@),
        ("shutdown"@, "system shutdown commands"@),
        ("reboot"@, "system reboot commands"@),
        ("poweroff"@, "system power commands"@),
        ("halt"@, "system power commands"@),
        ("chmod -r"@, "recursive permission changes"@),
        ("chown -r"@, "recursive ownership changes"@),
    ]
}

/// The reason of the first rule whose fragment stands in `text`.
pub open spec fn first_reason(rules: Seq<(Seq<char>, Seq<char>)>, text: Seq<char>) -> Option<
    Seq<char>,
>
    decreases rules.len(),
{
    if rules.len() == 0 {
        None
    } else if text::contains_text(text, rules[0].0) {
        Some(rules[0].1)
    } else {
        first_reason(rules.drop_first(), text)
    }
}

/// Why `command` has to be confirmed: the first rule that it breaks, letter case aside.
pub open spec fn command_reason(command: Seq<char>) -> Option<Seq<char>> {
    first_reason(command_rules(), text::ascii_lower(command))
}

/// Fragments of terminal output that ask for something destructive or privileged.
pub open spec fn danger_signs() -> Seq<Seq<char>> {
    seq![
        "sudo"@,
        "rm "@,
        " rm"@,
        "delete"@,
        "destroy"@,
        "overwrite"@,
        "drop database"@,
        "format disk"@,
        "erase disk"@,
        "permanently remove"@,
        "irreversible"@,
        "administrator privileges"@,
    ]
}

/// Whether one of the danger signs stands in `snapshot`, letter case aside.
pub open spec fn is_dangerous(snapshot: Seq<char>) -> bool {
    exists|i: int|
        0 <= i < danger_signs().len() && text::contains_text(
            text::ascii_lower(snapshot),
            #[trigger] danger_signs()[i],
        )
}

/// Whether `response` says yes, letter case and surrounding white space aside.
pub open spec fn affirms(response: Seq<char>) -> bool {
    let word = text::ascii_lower(text::trim(response));
    ||| word == "y"@
    ||| word == "yes"@
    ||| word == "ok"@
    ||| word == "okay"@
    ||| word == "approve"@
    ||| word == "approved"@
    ||| word == "continue"@
}

/// Why typing `response` has to be confirmed.
pub open spec fn prompt_reason(response: Seq<char>, snapshot: Seq<char>) -> Option<Seq<char>> {
    if affirms(response) && is_dangerous(snapshot) {
        Some(
            "the active terminal output looks like a destructive or privileged confirmation prompt"@,
        )
    } else {
        None
    }
}

/// Whether every key of the sequence is supported.
pub open spec fn all_supported(keys: Seq<Seq<char>>) -> bool {
    forall|i: int| 0 <= i < keys.len() ==> key::key_named(#[trigger] keys[i]) is Some
}

/// Whether the sequence presses a key that accepts a prompt.
pub open spec fn accepts_prompt(keys: Seq<Seq<char>>) -> bool {
    exists|i: int| 0 <= i < keys.len() && (#[trigger] keys[i] == "Enter"@ || keys[i] == "Tab"@)
}

/// Why pressing `keys` has to be confirmed.
pub open spec fn keys_reason(keys: Seq<Seq<char>>, snapshot: Seq<char>) -> Option<Seq<char>> {
    if !all_supported(keys) {
        Some("the key sequence contains an unsupported key"@)
    } else if accepts_prompt(keys) && is_dangerous(snapshot) {
        Some("confirming the current prompt looks risky based on the terminal output"@)
    } else {
        None
    }
}

/// Assesses a shell command.
pub fn assess_command_risk(command: &str) -> (risk: ActionRisk)
    ensures
        risk.reason() == command_reason(command@),
{
    let text = text::lowered(command);
    let rules: [(&'static str, &'static str); 14] = [
        ("sudo", "commands requesting elevated privileges"),
        ("rm ", "commands that remove files"),
        ("rm\t", "commands that remove files"),
        ("rm-", "commands that remove files"),
        ("dd ", "raw disk write commands"),
        ("mkfs", "filesystem formatting commands"),
        ("fdisk", "disk partitioning commands"),
        ("diskutil erase", "disk erase commands"),
        ("shutdown", "system shutdown commands"),
        ("reboot", "system reboot commands"),
        ("poweroff", "system power commands"),
        ("halt", "system power commands"),
        ("chmod -r", "recursive permission changes"),
        ("chown -r", "recursive ownership changes"),
    ];
    let ghost model = command_rules();
    assert(forall|k: int|
        0 <= k < 14 ==> model[k] == ((#[trigger] rules@[k]).0@, rules@[k].1@));
    let mut i: usize = 0;
    assert(model.skip(0) =~= model);
    while i < 14
        invariant
            i <= 14,
            model.len() == 14,
            model == command_rules(),
            text@ == text::ascii_lower(command@),
            forall|k: int|
                0 <= k < 14 ==> model[k] == ((#[trigger] rules@[k]).0@, rules@[k].1@),
            first_reason(model, text@) == first_reason(model.skip(i as int), text@),
        decreases 14 - i,
    {
        let (fragment, reason) = rules[i];
        assert(model.skip(i as int)[0] == model[i as int]);
        if text::holds_text(&text, fragment) {
            return ActionRisk::NeedsConfirmation(reason);
        }
        assert(model.skip(i as int).drop_first() =~= model.skip(i + 1));
        i = i + 1;
    }
    ActionRisk::Safe
}

/// Assesses text that is typed in answer to what the pane shows.
pub fn assess_prompt_risk(response: &str, snapshot: &str) -> (risk: ActionRisk)
    ensures
        risk.reason() == prompt_reason(response@, snapshot@),
{
    if is_affirmative(response) && context_contains_danger(snapshot) {
        return ActionRisk::NeedsConfirmation(
            "the active terminal output looks like a destructive or privileged confirmation prompt",
        );
    }
    ActionRisk::Safe
}

/// Assesses a sequence of named keys.
pub fn assess_key_sequence_risk(keys: &[String], snapshot: &str) -> (risk: ActionRisk)
    ensures
        risk.reason() == keys_reason(text::texts(keys@), snapshot@),
{
    let mut accepts = false;
    let mut i: usize = 0;
    while i < keys.len()
        invariant
            i <= keys@.len(),
            forall|k: int| 0 <= k < i ==> key::key_named(#[trigger] text::texts(keys@)[k]) is Some,
            accepts <==> exists|k: int|
                0 <= k < i && (#[trigger] text::texts(keys@)[k] == "Enter"@ || text::texts(keys@)[k]
                    == "Tab"@),
        decreases keys@.len() - i,
    {
        let key = keys[i].as_str();
        assert(text::texts(keys@)[i as int] == key@);
        if key::parse_pane_key(key).is_err() {
            return ActionRisk::NeedsConfirmation("the key sequence contains an unsupported key");
        }
        if text::same_text(key, "Enter") || text::same_text(key, "Tab") {
            accepts = true;
        }
        i = i + 1;
    }
    if accepts && context_contains_danger(snapshot) {
        return ActionRisk::NeedsConfirmation(
            "confirming the current prompt looks risky based on the terminal output",
        );
    }
    ActionRisk::Safe
}

/// Whether `response` says yes.
pub fn is_affirmative(response: &str) -> (r: bool)
    ensures
        r == affirms(response@),
{
    let trimmed_response = text::trimmed(response);
    let word = text::lowered(trimmed_response.as_str());
    let word = text::from_chars(&word, 0, word.len());
    assert(word@ =~= text::ascii_lower(text::trim(response@)));
    let word = word.as_str();
    text::same_text(word, "y") || text::same_text(word, "yes") || text::same_text(word, "ok")
        || text::same_text(word, "okay") || text::same_text(word, "approve")
        || text::same_text(word, "approved") || text::same_text(word, "continue")
}

/// Whether the terminal output shows a danger sign.
pub fn context_contains_danger(snapshot: &str) -> (r: bool)
    ensures
        r == is_dangerous(snapshot@),
{
    let text = text::lowered(snapshot);
    let signs: [&'static str; 12] = [
        "sudo",
        "rm ",
        " rm",
        "delete",
        "destroy",
        "overwrite",
        "drop database",
        "format disk",
        "erase disk",
        "permanently remove",
        "irreversible",
        "administrator privileges",
    ];
    assert(forall|k: int| 0 <= k < 12 ==> (#[trigger] danger_signs()[k]) == signs@[k]@);
    let mut i: usize = 0;
    while i < 12
        invariant
            i <= 12,
            text@ == text::ascii_lower(snapshot@),
            danger_signs().len() == 12,
            forall|k: int| 0 <= k < 12 ==> (#[trigger] danger_signs()[k]) == signs@[k]@,
            forall|k: int| 0 <= k < i ==> !text::contains_text(text@, #[trigger] danger_signs()[k]),
        decreases 12 - i,
    {
        assert(danger_signs()[i as int] == signs@[i as int]@);
        if text::holds_text(&text, signs[i]) {
            return true;
        }
        i = i + 1;
    }
    false
}

/// A rule is broken exactly when some fragment of the list stands in the text.
proof fn reason_iff_some_fragment(rules: Seq<(Seq<char>, Seq<char>)>, s: Seq<char>)
    ensures
        first_reason(rules, s) is Some <==> exists|i: int|
            0 <= i < rules.len() && text::contains_text(s, (#[trigger] rules[i]).0),
    decreases rules.len(),
{
    if rules.len() > 0 {
        let rest = rules.drop_first();
        reason_iff_some_fragment(rest, s);
        assert(forall|i: int| 0 <= i < rest.len() ==> #[trigger] rest[i] == rules[i + 1]);
        if exists|i: int|
            0 <= i < rules.len() && text::contains_text(s, (#[trigger] rules[i]).0) {
            let i = choose|i: int|
                0 <= i < rules.len() && text::contains_text(s, (#[trigger] rules[i]).0);
            if i > 0 {
                assert(rest[i - 1] == rules[i]);
            }
        }
        if first_reason(rest, s) is Some {
            let j = choose|j: int|
                0 <= j < rest.len() && text::contains_text(s, (#[trigger] rest[j]).0);
            assert(rules[j + 1] == rest[j]);
        }
    }
}

/// A command is safe exactly when no fragment of the rules stands in it, letter case aside.
pub proof fn command_is_safe_iff_no_fragment(command: Seq<char>)
    ensures
        command_reason(command) is None <==> forall|i: int|
            0 <= i < command_rules().len() ==> !text::contains_text(
                text::ascii_lower(command),
                (#[trigger] command_rules()[i]).0,
            ),
{
    reason_iff_some_fragment(command_rules(), text::ascii_lower(command));
}

/// Letter case does not change what is said of a command.
pub proof fn command_risk_ignores_case(a: Seq<char>, b: Seq<char>)
    requires
        text::ascii_lower(a) == text::ascii_lower(b),
    ensures
        command_reason(a) == command_reason(b),
{
}

/// A risky command stays risky inside a longer one.
pub proof fn risky_command_stays_risky(before: Seq<char>, command: Seq<char>, after: Seq<char>)
    requires
        command_reason(command) is Some,
    ensures
        command_reason(before + command + after) is Some,
{
    let low = text::ascii_lower(command);
    let whole = text::ascii_lower(before + command + after);
    let rules = command_rules();
    reason_iff_some_fragment(rules, low);
    let i = choose|i: int|
        0 <= i < rules.len() && text::contains_text(low, (#[trigger] rules[i]).0);
    text::lower_of_concat(before + command, after);
    text::lower_of_concat(before, command);
    text::contained_in_larger(
        text::ascii_lower(before),
        low,
        text::ascii_lower(after),
        rules[i].0,
    );
    reason_iff_some_fragment(rules, whole);
}

/// Dangerous output stays dangerous when more output surrounds it.
pub proof fn danger_stays_dangerous(before: Seq<char>, snapshot: Seq<char>, after: Seq<char>)
    requires
        is_dangerous(snapshot),
    ensures
        is_dangerous(before + snapshot + after),
{
    let low = text::ascii_lower(snapshot);
    let i = choose|i: int|
        0 <= i < danger_signs().len() && text::contains_text(low, #[trigger] danger_signs()[i]);
    text::lower_of_concat(before + snapshot, after);
    text::lower_of_concat(before, snapshot);
    text::contained_in_larger(
        text::ascii_lower(before),
        low,
        text::ascii_lower(after),
        danger_signs()[i],
    );
}

/// An answer counts as a yes whatever white space surrounds it and whatever its letter case.
pub proof fn affirmation_ignores_padding_and_case(
    before: Seq<char>,
    response: Seq<char>,
    after: Seq<char>,
    spelled: Seq<char>,
)
    requires
        text::all_white(before),
        text::all_white(after),
        text::ascii_lower(text::trim(response)) == text::ascii_lower(text::trim(spelled)),
    ensures
        affirms(before + response + after) == affirms(spelled),
{
    text::trim_ignores_padding(before, response, after);
}

proof fn rule_by_rule(rules: Seq<(Seq<char>, Seq<char>)>, s: Seq<char>, i: int)
    requires
        0 <= i < rules.len(),
    ensures
        first_reason(rules.skip(i), s) == (if text::contains_text(s, rules[i].0) {
            Some(rules[i].1)
        } else {
            first_reason(rules.skip(i + 1), s)
        }),
{
    assert(rules.skip(i)[0] == rules[i]);
    assert(rules.skip(i).drop_first() =~= rules.skip(i + 1));
}

/// What each command has to be confirmed for, told by what stands in it in lower case: of several
/// such fragments the one that is named first here counts.
pub proof fn what_commands_are_confirmed_for(command: Seq<char>)
    ensures
        ({
            let low = text::ascii_lower(command);
            command_reason(command) == if text::contains_text(low, "sudo"@) {
                Some("commands requesting elevated privileges"@)
            } else if text::contains_text(low, "rm "@) {
                Some("commands that remove files"@)
            } else if text::contains_text(low, "rm\t"@) {
                Some("commands that remove files"@)
            } else if text::contains_text(low, "rm-"@) {
                Some("commands that remove files"@)
            } else if text::contains_text(low, "dd "@) {
                Some("raw disk write commands"@)
            } else if text::contains_text(low, "mkfs"@) {
                Some("filesystem formatting commands"@)
            } else if text::contains_text(low, "fdisk"@) {
                Some("disk partitioning commands"@)
            } else if text::contains_text(low, "diskutil erase"@) {
                Some("disk erase commands"@)
            } else if text::contains_text(low, "shutdown"@) {
                Some("system shutdown commands"@)
            } else if text::contains_text(low, "reboot"@) {
                Some("system reboot commands"@)
            } else if text::contains_text(low, "poweroff"@) {
                Some("system power commands"@)
            } else if text::contains_text(low, "halt"@) {
                Some("system power commands"@)
            } else if text::contains_text(low, "chmod -r"@) {
                Some("recursive permission changes"@)
            } else if text::contains_text(low, "chown -r"@) {
                Some("recursive ownership changes"@)
            } else {
                None
            }
        }),
{
    let low = text::ascii_lower(command);
    let rules = command_rules();
    assert(rules.skip(0) =~= rules);
    rule_by_rule(rules, low, 0);
    rule_by_rule(rules, low, 1);
    rule_by_rule(rules, low, 2);
    rule_by_rule(rules, low, 3);
    rule_by_rule(rules, low, 4);
    rule_by_rule(rules, low, 5);
    rule_by_rule(rules, low, 6);
    rule_by_rule(rules, low, 7);
    rule_by_rule(rules, low, 8);
    rule_by_rule(rules, low, 9);
    rule_by_rule(rules, low, 10);
    rule_by_rule(rules, low, 11);
    rule_by_rule(rules, low, 12);
    rule_by_rule(rules, low, 13);
    assert(rules.skip(14).len() == 0);
}

/// A fragment of the list makes a command risky wherever it stands and however it is spelled.
pub proof fn a_listed_fragment_is_risky(before: Seq<char>, spelled: Seq<char>, after: Seq<char>)
    requires
        ({
            let low = text::ascii_lower(spelled);
            ||| low == "sudo"@
            ||| low == "rm "@
            ||| low == "rm\t"@
            ||| low == "rm-"@
            ||| low == "dd "@
            ||| low == "mkfs"@
            ||| low == "fdisk"@
            ||| low == "diskutil erase"@
            ||| low == "shutdown"@
            ||| low == "reboot"@
            ||| low == "poweroff"@
            ||| low == "halt"@
            ||| low == "chmod -r"@
            ||| low == "chown -r"@
        }),
    ensures
        command_reason(before + spelled + after) is Some,
{
    let low = text::ascii_lower(spelled);
    assert(low.subrange(0, low.len() as int) =~= low);
    assert(text::occurs_at(low, low, 0));
    what_commands_are_confirmed_for(spelled);
    risky_command_stays_risky(before, spelled, after);
}

/// What counts as a yes: one of seven words, letter case and surrounding white space aside.
pub proof fn seven_words_say_yes(response: Seq<char>)
    ensures
        ({
            let word = text::ascii_lower(text::trim(response));
            affirms(response) <==> (word == "y"@
                || word == "yes"@
                || word == "ok"@
                || word == "okay"@
                || word == "approve"@
                || word == "approved"@
                || word == "continue"@)
        }),
{
}

/// What counts as dangerous output: any of twelve fragments in it, letter case aside.
pub proof fn twelve_fragments_are_dangerous(snapshot: Seq<char>)
    ensures
        ({
            let low = text::ascii_lower(snapshot);
            is_dangerous(snapshot) <==> (text::contains_text(low, "sudo"@)
                || text::contains_text(low, "rm "@)
                || text::contains_text(low, " rm"@)
                || text::contains_text(low, "delete"@)
                || text::contains_text(low, "destroy"@)
                || text::contains_text(low, "overwrite"@)
                || text::contains_text(low, "drop database"@)
                || text::contains_text(low, "format disk"@)
                || text::contains_text(low, "erase disk"@)
                || text::contains_text(low, "permanently remove"@)
                || text::contains_text(low, "irreversible"@)
                || text::contains_text(low, "administrator privileges"@))
        }),
{
    let low = text::ascii_lower(snapshot);
    let signs = danger_signs();
    assert(danger_signs()[0] == "sudo"@);
    assert(danger_signs()[1] == "rm "@);
    assert(danger_signs()[2] == " rm"@);
    assert(danger_signs()[3] == "delete"@);
    assert(danger_signs()[4] == "destroy"@);
    assert(danger_signs()[5] == "overwrite"@);
    assert(danger_signs()[6] == "drop database"@);
    assert(danger_signs()[7] == "format disk"@);
    assert(danger_signs()[8] == "erase disk"@);
    assert(danger_signs()[9] == "permanently remove"@);
    assert(danger_signs()[10] == "irreversible"@);
    assert(danger_signs()[11] == "administrator privileges"@);
    if is_dangerous(snapshot) {
        let i = choose|i: int|
            0 <= i < signs.len() && text::contains_text(low, #[trigger] danger_signs()[i]);
        assert(text::contains_text(low, signs[i]));
    }
}

/// An answer has to be confirmed exactly where it says yes to something dangerous: it is one of
/// seven words and one of twelve fragments is shown. Every such answer gets the same reason.
pub proof fn a_yes_to_danger_is_confirmed(response: Seq<char>, snapshot: Seq<char>)
    ensures
        ({
            let word = text::ascii_lower(text::trim(response));
            let low = text::ascii_lower(snapshot);
            prompt_reason(response, snapshot) is Some <==> (word == "y"@
                || word == "yes"@
                || word == "ok"@
                || word == "okay"@
                || word == "approve"@
                || word == "approved"@
                || word == "continue"@) && (text::contains_text(low, "sudo"@)
                || text::contains_text(low, "rm "@)
                || text::contains_text(low, " rm"@)
                || text::contains_text(low, "delete"@)
                || text::contains_text(low, "destroy"@)
                || text::contains_text(low, "overwrite"@)
                || text::contains_text(low, "drop database"@)
                || text::contains_text(low, "format disk"@)
                || text::contains_text(low, "erase disk"@)
                || text::contains_text(low, "permanently remove"@)
                || text::contains_text(low, "irreversible"@)
                || text::contains_text(low, "administrator privileges"@))
        }),
        prompt_reason(response, snapshot) matches Some(reason) ==> reason
            == "the active terminal output looks like a destructive or privileged confirmation prompt"@,
{
    seven_words_say_yes(response);
    twelve_fragments_are_dangerous(snapshot);
}

/// However a yes is spelled and padded, and wherever a danger sign stands and however it is spelled,
/// typing the yes has to be confirmed.
pub proof fn no_spelling_hides_a_yes_to_danger(
    before: Seq<char>,
    spelled: Seq<char>,
    after: Seq<char>,
    above: Seq<char>,
    sign: Seq<char>,
    below: Seq<char>,
)
    requires
        text::all_white(before),
        text::all_white(after),
        ({
            let word = text::ascii_lower(spelled);
            word == "y"@
                || word == "yes"@
                || word == "ok"@
                || word == "okay"@
                || word == "approve"@
                || word == "approved"@
                || word == "continue"@
        }),
        ({
            let low = text::ascii_lower(sign);
            low == "sudo"@
                || low == "rm "@
                || low == " rm"@
                || low == "delete"@
                || low == "destroy"@
                || low == "overwrite"@
                || low == "drop database"@
                || low == "format disk"@
                || low == "erase disk"@
                || low == "permanently remove"@
                || low == "irreversible"@
                || low == "administrator privileges"@
        }),
    ensures
        prompt_reason(before + spelled + after, above + sign + below) is Some,
{
    let word = text::ascii_lower(spelled);
    let low = text::ascii_lower(sign);
    reveal_strlit("y");
    reveal_strlit("yes");
    reveal_strlit("ok");
    reveal_strlit("okay");
    reveal_strlit("approve");
    reveal_strlit("approved");
    reveal_strlit("continue");
    assert(word.len() > 0 && !text::is_white(word[0]) && !text::is_white(word.last()));
    text::lowering_keeps_white(spelled[0]);
    text::lowering_keeps_white(spelled.last());
    text::trim_of_trimmed(spelled);
    text::trim_ignores_padding(before, spelled, after);
    assert(low.subrange(0, low.len() as int) =~= low);
    assert(text::occurs_at(low, low, 0));
    twelve_fragments_are_dangerous(sign);
    danger_stays_dangerous(above, sign, below);
    seven_words_say_yes(before + spelled + after);
}

/// Two answers that both say yes are judged alike.
pub proof fn yeses_are_judged_alike(a: Seq<char>, b: Seq<char>, snapshot: Seq<char>)
    requires
        affirms(a),
        affirms(b),
    ensures
        prompt_reason(a, snapshot) == prompt_reason(b, snapshot),
{
    a_yes_to_danger_is_confirmed(a, snapshot);
    a_yes_to_danger_is_confirmed(b, snapshot);
    seven_words_say_yes(a);
    seven_words_say_yes(b);
}

/// A key sequence has to be confirmed exactly where one of its keys has no name that is known, or
/// where it presses Enter or Tab while something dangerous is shown.
pub proof fn accepting_danger_by_key_is_confirmed(keys: Seq<Seq<char>>, snapshot: Seq<char>)
    ensures
        ({
            let low = text::ascii_lower(snapshot);
            let danger = text::contains_text(low, "sudo"@)
                || text::contains_text(low, "rm "@)
                || text::contains_text(low, " rm"@)
                || text::contains_text(low, "delete"@)
                || text::contains_text(low, "destroy"@)
                || text::contains_text(low, "overwrite"@)
                || text::contains_text(low, "drop database"@)
                || text::contains_text(low, "format disk"@)
                || text::contains_text(low, "erase disk"@)
                || text::contains_text(low, "permanently remove"@)
                || text::contains_text(low, "irreversible"@)
                || text::contains_text(low, "administrator privileges"@);
            let unknown = exists|i: int|
                0 <= i < keys.len() && key::key_named(#[trigger] keys[i]) is None;
            let accepts = exists|i: int|
                0 <= i < keys.len() && (#[trigger] keys[i] == "Enter"@ || keys[i] == "Tab"@);
            keys_reason(keys, snapshot) == if unknown {
                Some("the key sequence contains an unsupported key"@)
            } else if accepts && danger {
                Some("confirming the current prompt looks risky based on the terminal output"@)
            } else {
                None
            }
        }),
{
    twelve_fragments_are_dangerous(snapshot);
}

/// Assessing gives the reason as it stands, and safety where there is none.
pub proof fn assessments_tell_the_reason(
    command: &str,
    response: &str,
    keys: &[String],
    snapshot: &str,
    of_command: ActionRisk,
    of_response: ActionRisk,
    of_keys: ActionRisk,
)
    requires
        call_ensures(assess_command_risk, (command,), of_command),
        call_ensures(assess_prompt_risk, (response, snapshot), of_response),
        call_ensures(assess_key_sequence_risk, (keys, snapshot), of_keys),
    ensures
        of_command == ActionRisk::Safe <==> command_reason(command@) is None,
        of_command matches ActionRisk::NeedsConfirmation(reason) ==> command_reason(command@)
            == Some(reason@),
        of_response == ActionRisk::Safe <==> prompt_reason(response@, snapshot@) is None,
        of_response matches ActionRisk::NeedsConfirmation(reason) ==> prompt_reason(
            response@,
            snapshot@,
        ) == Some(reason@),
        of_keys == ActionRisk::Safe <==> keys_reason(text::texts(keys@), snapshot@) is None,
        of_keys matches ActionRisk::NeedsConfirmation(reason) ==> keys_reason(
            text::texts(keys@),
            snapshot@,
        ) == Some(reason@),
{
}

/// Whatever is shown, nothing but a yes has to be confirmed, and whatever is typed, nothing has to
/// be while nothing dangerous is shown.
pub proof fn yes_and_danger_are_told(response: &str, snapshot: &str, yes: bool, danger: bool)
    requires
        call_ensures(is_affirmative, (response,), yes),
        call_ensures(context_contains_danger, (snapshot,), danger),
    ensures
        prompt_reason(response@, snapshot@) is Some <==> yes && danger,
{
}

} // verus!
