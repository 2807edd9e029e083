use ai_chat::action::{
    action_failure, action_inputs, action_report, blocked_action_report, blocked_action_status,
    plan_action, ActionPlan, PaneInput,
};
use ai_chat::key::{parse_pane_key, PaneKey};
use ai_chat::openrouter::login_shell_value;
use ai_chat::reply::AssistantAction;
use ai_chat::risk::{
    assess_command_risk, assess_key_sequence_risk, assess_prompt_risk, context_contains_danger,
    is_affirmative, ActionRisk,
};

#[test]
fn flags_dangerous_commands() {
    assert!(matches!(
        assess_command_risk("sudo rm -rf /tmp/demo"),
        ActionRisk::NeedsConfirmation(_)
    ));
    assert_eq!(assess_command_risk("cd .."), ActionRisk::Safe);
}

#[test]
fn flags_risky_prompt_approvals() {
    assert!(matches!(
        assess_prompt_risk("yes", "sudo wants to delete files permanently"),
        ActionRisk::NeedsConfirmation(_)
    ));
    assert_eq!(
        assess_prompt_risk("yes", "GitHub Copilot wants approval"),
        ActionRisk::Safe
    );
}

#[test]
fn each_command_rule_has_its_reason() {
    let cases = [
        ("sudo ls", "commands requesting elevated privileges"),
        ("rm x", "commands that remove files"),
        ("rm\tx", "commands that remove files"),
        ("rm-all", "commands that remove files"),
        ("dd if=a", "raw disk write commands"),
        ("mkfs.ext4", "filesystem formatting commands"),
        ("fdisk -l", "disk partitioning commands"),
        ("diskutil erasedisk", "disk erase commands"),
        ("shutdown now", "system shutdown commands"),
        ("reboot", "system reboot commands"),
        ("poweroff", "system power commands"),
        ("halt", "system power commands"),
        ("chmod -R 777 .", "recursive permission changes"),
        ("chown -R me .", "recursive ownership changes"),
    ];
    for (command, reason) in cases {
        assert_eq!(assess_command_risk(command), ActionRisk::NeedsConfirmation(reason));
    }
}

#[test]
fn first_rule_wins() {
    assert_eq!(
        assess_command_risk("rm x && sudo y"),
        ActionRisk::NeedsConfirmation("commands requesting elevated privileges")
    );
}

#[test]
fn letter_case_and_surroundings_do_not_hide_a_risk() {
    assert_eq!(assess_command_risk("SuDo x"), assess_command_risk("sudo x"));
    assert!(matches!(
        assess_command_risk("echo a; REBOOT; echo b"),
        ActionRisk::NeedsConfirmation("system reboot commands")
    ));
    assert_eq!(assess_command_risk("rmdir x"), ActionRisk::Safe);
    assert_eq!(assess_command_risk(""), ActionRisk::Safe);
}

#[test]
fn affirmations_are_recognised() {
    for word in ["y", "yes", "ok", "okay", "approve", "approved", "continue", " YES\n", "\u{3000}Ok"] {
        assert!(is_affirmative(word));
    }
    for word in ["", "n", "no", "yess", "y y"] {
        assert!(!is_affirmative(word));
    }
}

#[test]
fn danger_signs_are_recognised() {
    for sign in [
        "sudo",
        "rm ",
        " rm",
        "delete",
        "destroy",
        "overwrite",
        "drop database",
        "format disk",
        "erase disk",
        "permanently remove",
        "irreversible",
        "administrator privileges",
    ] {
        assert!(context_contains_danger(sign));
        assert!(context_contains_danger(&format!("x{}y", sign.to_uppercase())));
    }
    assert!(!context_contains_danger("rm"));
    assert!(!context_contains_danger("all is well"));
}

fn names(keys: &[&str]) -> Vec<String> {
    keys.iter().map(|k| k.to_string()).collect()
}

#[test]
fn key_sequences_are_assessed() {
    assert_eq!(
        assess_key_sequence_risk(&names(&["DownArrow", "F1"]), ""),
        ActionRisk::NeedsConfirmation("the key sequence contains an unsupported key")
    );
    assert_eq!(
        assess_key_sequence_risk(&names(&["DownArrow", "Enter"]), "Delete it?"),
        ActionRisk::NeedsConfirmation(
            "confirming the current prompt looks risky based on the terminal output"
        )
    );
    assert_eq!(assess_key_sequence_risk(&names(&["DownArrow"]), "Delete it?"), ActionRisk::Safe);
    assert_eq!(assess_key_sequence_risk(&names(&["Tab"]), "fine"), ActionRisk::Safe);
    assert_eq!(assess_key_sequence_risk(&[], "Delete it?"), ActionRisk::Safe);
}

#[test]
fn pane_keys_are_named() {
    assert_eq!(parse_pane_key("Enter"), Ok(PaneKey::Char('\r')));
    assert_eq!(parse_pane_key("Tab"), Ok(PaneKey::Char('\t')));
    assert_eq!(parse_pane_key("Escape"), Ok(PaneKey::Char('\u{1b}')));
    assert_eq!(parse_pane_key("UpArrow"), Ok(PaneKey::UpArrow));
    assert_eq!(parse_pane_key("DownArrow"), Ok(PaneKey::DownArrow));
    assert_eq!(parse_pane_key("LeftArrow"), Ok(PaneKey::LeftArrow));
    assert_eq!(parse_pane_key("RightArrow"), Ok(PaneKey::RightArrow));
    assert_eq!(parse_pane_key("Home"), Ok(PaneKey::Home));
    assert_eq!(parse_pane_key("End"), Ok(PaneKey::End));
    assert_eq!(parse_pane_key("enter"), Err("unsupported key `enter`".to_string()));
}

fn run(command: &str) -> AssistantAction {
    AssistantAction::RunCommand { command: command.to_string() }
}

fn typed(text: &str, submit: bool) -> AssistantAction {
    AssistantAction::SendInput { text: text.to_string(), submit }
}

fn keys(list: &[&str]) -> AssistantAction {
    AssistantAction::SendKeys { keys: names(list) }
}

#[test]
fn empty_actions_are_skipped() {
    assert_eq!(plan_action(&run(" \n"), ""), ActionPlan::Skip);
    assert_eq!(plan_action(&typed(" ", true), ""), ActionPlan::Skip);
    assert_eq!(plan_action(&keys(&[]), ""), ActionPlan::Skip);
}

#[test]
fn safe_actions_are_sent() {
    assert_eq!(
        plan_action(&run(" cd .. "), "sudo"),
        ActionPlan::Send(vec![
            PaneInput::Paste("cd ..".to_string()),
            PaneInput::Key(PaneKey::Char('\r'))
        ])
    );
    assert_eq!(
        plan_action(&typed("  hi  ", false), "sudo"),
        ActionPlan::Send(vec![PaneInput::Paste("  hi".to_string())])
    );
    assert_eq!(
        plan_action(&typed("yes", true), ""),
        ActionPlan::Send(vec![
            PaneInput::Paste("yes".to_string()),
            PaneInput::Key(PaneKey::Char('\r'))
        ])
    );
    assert_eq!(
        plan_action(&keys(&["DownArrow", "Enter"]), ""),
        ActionPlan::Send(vec![
            PaneInput::Key(PaneKey::DownArrow),
            PaneInput::Key(PaneKey::Char('\r'))
        ])
    );
}

#[test]
fn risky_actions_are_asked_about() {
    assert_eq!(
        plan_action(&run("reboot "), ""),
        ActionPlan::Confirm(
            "The AI wants to run:\n\nreboot\n\nReason for confirmation: system reboot commands\n\nPress Y to allow or N to block.".to_string()
        )
    );
    assert_eq!(
        plan_action(&typed("y", true), "destroy?"),
        ActionPlan::Confirm(
            "The AI wants to type `y` and press Enter.\n\nReason for confirmation: the active terminal output looks like a destructive or privileged confirmation prompt\n\nPress Y to allow or N to block.".to_string()
        )
    );
    assert_eq!(
        plan_action(&typed("y", false), "destroy?"),
        ActionPlan::Confirm(
            "The AI wants to type `y`.\n\nReason for confirmation: the active terminal output looks like a destructive or privileged confirmation prompt\n\nPress Y to allow or N to block.".to_string()
        )
    );
    assert_eq!(
        plan_action(&keys(&["Home", "F1"]), ""),
        ActionPlan::Confirm(
            "The AI wants to send keys: Home, F1\n\nReason for confirmation: the key sequence contains an unsupported key\n\nPress Y to allow or N to block.".to_string()
        )
    );
}

#[test]
fn keys_stop_at_the_first_unsupported_one() {
    let action = keys(&["Home", "F1", "End"]);
    assert_eq!(action_inputs(&action), vec![PaneInput::Key(PaneKey::Home)]);
    assert_eq!(action_failure(&action), Some("unsupported key `F1`".to_string()));
    assert_eq!(action_failure(&keys(&["Home"])), None);
    assert_eq!(action_failure(&run("x")), None);
}

#[test]
fn actions_are_reported() {
    assert_eq!(action_report(&run(" ls ")), "Ran: ls");
    assert_eq!(action_report(&typed("a ", true)), "Sent: `a` + Enter");
    assert_eq!(action_report(&typed("a", false)), "Sent: `a`");
    assert_eq!(action_report(&keys(&["Home", "End"])), "Keys: Home, End");
    assert_eq!(blocked_action_report(&run(" ls ")), "Blocked command: ls");
    assert_eq!(blocked_action_report(&typed("a ", true)), "Blocked input: a");
    assert_eq!(blocked_action_report(&keys(&["Home", "End"])), "Blocked keys: Home, End");
    assert_eq!(blocked_action_status(&run("ls")), "Command blocked.");
    assert_eq!(blocked_action_status(&typed("a", true)), "Input blocked.");
    assert_eq!(blocked_action_status(&keys(&["Home"])), "Key sequence blocked.");
}

#[test]
fn white_space_is_the_unicode_property() {
    for n in 0..=0x10ffffu32 {
        if let Some(c) = char::from_u32(n) {
            let white = matches!(
                n,
                0x9..=0xd
                    | 0x20
                    | 0x85
                    | 0xa0
                    | 0x1680
                    | 0x2000..=0x200a
                    | 0x2028
                    | 0x2029
                    | 0x202f
                    | 0x205f
                    | 0x3000
            );
            assert_eq!(login_shell_value(true, &c.to_string()).is_none(), white);
        }
    }
}
