//! The keys that the assistant may press in the pane.

use crate::text::same_text;
use vstd::prelude::*;
use vstd::string::*;

verus! {

/// A key as the pane takes it.
#[derive(Clone, Copy, Debug, PartialEq, Eq, Structural)]
pub enum PaneKey {
    Char(char),
    UpArrow,
    DownArrow,
    LeftArrow,
    RightArrow,
    Home,
    End,
}

/// The key that a name stands for; `None` for a name that is not supported.
pub open spec fn key_named(name: Seq<char>) -> Option<PaneKey> {
    if name == "Enter"@ {
        Some(PaneKey::Char('\r'))
    } else if name == "Tab"@ {
        Some(PaneKey::Char('\t'))
    } else if name == "Escape"@ {
        Some(PaneKey::Char('\u{1b}'))
    } else if name == "UpArrow"@ {
        Some(PaneKey::UpArrow)
    } else if name == "DownArrow"@ {
        Some(PaneKey::DownArrow)
    } else if name == "LeftArrow"@ {
        Some(PaneKey::LeftArrow)
    } else if name == "RightArrow"@ {
        Some(PaneKey::RightArrow)
    } else if name == "Home"@ {
        Some(PaneKey::Home)
    } else if name == "End"@ {
        Some(PaneKey::End)
    } else {
        None
    }
}

/// What is said of a key name that is not supported.
pub open spec fn unsupported_key(name: Seq<char>) -> Seq<char> {
    "unsupported key `"@ + name + "`"@
}

/// The key that `key` names, or the text of the error.
pub fn parse_pane_key(key: &str) -> (r: Result<PaneKey, String>)
    ensures
        r is Ok <==> key_named(key@) is Some,
        r matches Ok(k) ==> key_named(key@) == Some(k),
        r matches Err(e) ==> e@ == unsupported_key(key@),
{
    if same_text(key, "Enter") {
        Ok(PaneKey::Char('\r'))
    } else if same_text(key, "Tab") {
        Ok(PaneKey::Char('\t'))
    } else if same_text(key, "Escape") {
        Ok(PaneKey::Char('\u{1b}'))
    } else if same_text(key, "UpArrow") {
        Ok(PaneKey::UpArrow)
    } else if same_text(key, "DownArrow") {
        Ok(PaneKey::DownArrow)
    } else if same_text(key, "LeftArrow") {
        Ok(PaneKey::LeftArrow)
    } else if same_text(key, "RightArrow") {
        Ok(PaneKey::RightArrow)
    } else if same_text(key, "Home") {
        Ok(PaneKey::Home)
    } else if same_text(key, "End") {
        Ok(PaneKey::End)
    } else {
        let mut e = "unsupported key `".to_owned();
        e.append(key);
        e.append("`");
        Err(e)
    }
}

/// No two supported names stand for the same key.
pub proof fn key_names_are_distinct(a: Seq<char>, b: Seq<char>)
    requires
        key_named(a) is Some,
        key_named(a) == key_named(b),
    ensures
        a == b,
{
}

/// Which name stands for which key: the nine names that the assistant is told of, each with its own
/// key, and no others.
pub proof fn nine_keys_have_names(name: Seq<char>)
    ensures
        name == "Enter"@ ==> key_named(name) == Some(PaneKey::Char('\r')),
        name == "Tab"@ ==> key_named(name) == Some(PaneKey::Char('\t')),
        name == "Escape"@ ==> key_named(name) == Some(PaneKey::Char('\u{1b}')),
        name == "UpArrow"@ ==> key_named(name) == Some(PaneKey::UpArrow),
        name == "DownArrow"@ ==> key_named(name) == Some(PaneKey::DownArrow),
        name == "LeftArrow"@ ==> key_named(name) == Some(PaneKey::LeftArrow),
        name == "RightArrow"@ ==> key_named(name) == Some(PaneKey::RightArrow),
        name == "Home"@ ==> key_named(name) == Some(PaneKey::Home),
        name == "End"@ ==> key_named(name) == Some(PaneKey::End),
        key_named(name) is Some ==> name == "Enter"@ || name == "Tab"@ || name == "Escape"@ || name
            == "UpArrow"@ || name == "DownArrow"@ || name == "LeftArrow"@ || name == "RightArrow"@
            || name == "Home"@ || name == "End"@,
{
    reveal_strlit("Enter");
    reveal_strlit("Tab");
    reveal_strlit("Escape");
    reveal_strlit("UpArrow");
    reveal_strlit("DownArrow");
    reveal_strlit("LeftArrow");
    reveal_strlit("RightArrow");
    reveal_strlit("Home");
    reveal_strlit("End");
    assert("Enter"@.len() == 5 && "Tab"@.len() == 3 && "Escape"@.len() == 6);
    assert("UpArrow"@.len() == 7 && "DownArrow"@.len() == 9 && "LeftArrow"@.len() == 9);
    assert("RightArrow"@.len() == 10 && "Home"@.len() == 4 && "End"@.len() == 3);
    assert("Tab"@[0] == 'T' && "End"@[0] == 'E');
    assert("DownArrow"@[0] == 'D' && "LeftArrow"@[0] == 'L');
}

/// Reading a name gives its key, or an error that quotes the name.
pub proof fn reading_a_key_name(name: &str, r: Result<PaneKey, String>)
    requires
        call_ensures(parse_pane_key, (name,), r),
    ensures
        r matches Ok(key) ==> key_named(name@) == Some(key),
        r matches Err(words) ==> key_named(name@) is None && words@ == "unsupported key `"@ + name@
            + "`"@,
{
}

} // verus!
