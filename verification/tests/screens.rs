use ai_chat::input::{locate_cursor, place_cursor, wrap_input};
use ai_chat::overlay::{AiChatOverlay, Key};
use ai_chat::screen::{opening, Frame, Layout};
use ai_chat::snapshot::{capture_pane_snapshot, snapshot_rows};
use ai_chat::style::{at, draw_separator, pad_right, AnsiColor, Change, Intensity, StyledLine};
use ai_chat::text::char_to_byte_idx;
use ai_chat::transcript::{render_transcript, style_entry, Role, TranscriptEntry};
use ai_chat::wrap::{split_paragraphs, wrap_preserving_newlines};

fn strings(list: &[&str]) -> Vec<String> {
    list.iter().map(|s| s.to_string()).collect()
}

#[test]
fn byte_offsets_follow_characters() {
    let s = "aé日b";
    assert_eq!(char_to_byte_idx(s, 0), 0);
    assert_eq!(char_to_byte_idx(s, 1), 1);
    assert_eq!(char_to_byte_idx(s, 2), 3);
    assert_eq!(char_to_byte_idx(s, 3), 6);
    assert_eq!(char_to_byte_idx(s, 4), 7);
    assert_eq!(char_to_byte_idx(s, 99), 7);
    for i in 0..=4 {
        assert!(s.is_char_boundary(char_to_byte_idx(s, i)));
    }
}

#[test]
fn text_is_padded_or_cut() {
    assert_eq!(pad_right("ab", 4), "ab  ");
    assert_eq!(pad_right("日本語", 2), "日本");
    assert_eq!(pad_right("ab", 2), "ab");
    assert_eq!(pad_right("", 0), "");
}

#[test]
fn paragraphs_are_wrapped_one_by_one() {
    assert_eq!(split_paragraphs("a\n\nb\n"), strings(&["a", "", "b", ""]));
    assert_eq!(split_paragraphs(""), strings(&[""]));
    assert_eq!(
        wrap_preserving_newlines("Memory safety without garbage collection.\n  \nend  ", 15),
        strings(&["Memory safety", "without garbage", "collection.", "", "end"])
    );
    assert_eq!(wrap_preserving_newlines("", 10), strings(&[""]));
}

#[test]
fn wrapping_keeps_the_text() {
    let texts = [
        "",
        "   ",
        "foo bar\tbaz  qux",
        "  indented, and a well-known hyphen--here - and\u{ad}soft",
        "日本語のテキスト and some latin",
        "averyveryverylongwordwithoutanyspaces",
        "a\r\nb\u{a0}c\u{3000}d",
        "\u{1b}[34mblue and long enough to break\u{1b}[0m",
        "ends in a hyphen -",
    ];
    let solid = |s: &str| s.chars().filter(|c| !c.is_whitespace()).collect::<String>();
    for width in 0..20 {
        for a in texts {
            let wrapped = wrap_preserving_newlines(a, width);
            assert!(!wrapped.is_empty());
            assert!(wrapped.iter().all(|line| !line.contains('\n')));
            assert_eq!(solid(&wrapped.concat()), solid(a));
            let typed = wrap_input(a, width).concat();
            assert_eq!(typed.replace(' ', ""), a.replace([' ', '\n'], ""));
            for b in texts {
                let mut parts = wrapped.clone();
                parts.extend(wrap_preserving_newlines(b, width));
                assert_eq!(wrap_preserving_newlines(&format!("{a}\n{b}"), width), parts);
            }
        }
    }
}

#[test]
fn input_is_wrapped() {
    assert_eq!(wrap_input("", 10), strings(&[""]));
    assert_eq!(wrap_input("foo bar baz", 5), strings(&["foo", "bar", "baz"]));
    assert_eq!(wrap_input("foo  ", 10), strings(&["foo"]));
}

#[test]
fn cursor_is_located_in_wrapped_lines() {
    let lines = strings(&["foo", "ba日", "z"]);
    assert_eq!(locate_cursor(&lines, 0), Some((0, 0)));
    assert_eq!(locate_cursor(&lines, 3), Some((0, 3)));
    assert_eq!(locate_cursor(&lines, 4), Some((1, 0)));
    assert_eq!(locate_cursor(&lines, 7), Some((1, 3)));
    assert_eq!(locate_cursor(&lines, 9), Some((2, 1)));
    assert_eq!(locate_cursor(&lines, 10), None);
    assert_eq!(place_cursor(&lines, 7), Some((1, 4)));
    assert_eq!(place_cursor(&lines, 5), Some((1, 1)));
    assert_eq!(place_cursor(&lines, 10), None);
}

#[test]
fn the_window_is_titled() {
    assert_eq!(opening(), vec![Change::Title("AI Chat".to_string())]);
}

#[test]
fn layout_accounts_for_every_row() {
    for rows in 0..200 {
        let l = Layout::new(rows * 3, rows);
        assert!(l.transcript_height >= 3 && l.input_height >= 2);
        assert_eq!(2 + l.transcript_height, l.split);
        assert_eq!(l.input_first_row + l.input_height, l.height);
    }
}

#[test]
fn printable_ascii_is_one_column_wide() {
    for a in ' '..='~' {
        for b in ' '..='~' {
            let lines = vec![format!("{a}{b}")];
            assert_eq!(place_cursor(&lines, 0), Some((0, 0)));
            assert_eq!(place_cursor(&lines, 1), Some((0, 1)));
            assert_eq!(place_cursor(&lines, 2), Some((0, 2)));
        }
    }
}

#[test]
fn changes_are_appended() {
    let mut changes = vec![Change::ClearScreen];
    at(&mut changes, 3, 4);
    draw_separator(&mut changes, 1, 2, 3);
    assert_eq!(
        changes,
        vec![
            Change::ClearScreen,
            Change::CursorPosition { x: 3, y: 4 },
            Change::CursorPosition { x: 1, y: 2 },
            Change::Foreground(Some(AnsiColor::Navy)),
            Change::Text("───".to_string()),
            Change::Foreground(None),
        ]
    );
}

#[test]
fn styled_lines_are_drawn() {
    let mut changes = Vec::new();
    StyledLine::default().emit(&mut changes);
    assert_eq!(changes, vec![]);
    StyledLine::plain("p".to_string()).emit(&mut changes);
    StyledLine::colored("c".to_string(), AnsiColor::Aqua, true).emit(&mut changes);
    StyledLine::colored("n".to_string(), AnsiColor::Red, false).emit(&mut changes);
    StyledLine::dim("d".to_string(), AnsiColor::Yellow).emit(&mut changes);
    assert_eq!(
        changes,
        vec![
            Change::Text("p".to_string()),
            Change::Intensity(Intensity::Normal),
            Change::Foreground(None),
            Change::Intensity(Intensity::Bold),
            Change::Foreground(Some(AnsiColor::Aqua)),
            Change::Text("c".to_string()),
            Change::Intensity(Intensity::Normal),
            Change::Foreground(None),
            Change::Foreground(Some(AnsiColor::Red)),
            Change::Text("n".to_string()),
            Change::Intensity(Intensity::Normal),
            Change::Foreground(None),
            Change::Intensity(Intensity::Half),
            Change::Foreground(Some(AnsiColor::Yellow)),
            Change::Text("d".to_string()),
            Change::Intensity(Intensity::Normal),
            Change::Foreground(None),
        ]
    );
}

#[test]
fn entries_are_styled_by_role() {
    let lines = strings(&["one", "two"]);
    assert_eq!(
        style_entry(Role::User, &lines),
        vec![
            StyledLine::default(),
            StyledLine::colored("  You".to_string(), AnsiColor::Aqua, true),
            StyledLine::plain("    one".to_string()),
            StyledLine::plain("    two".to_string()),
        ]
    );
    assert_eq!(
        style_entry(Role::Assistant, &lines)[1],
        StyledLine::colored("  AI".to_string(), AnsiColor::Lime, true)
    );
    assert_eq!(
        style_entry(Role::System, &lines),
        vec![
            StyledLine::dim("  one".to_string(), AnsiColor::Yellow),
            StyledLine::dim("  two".to_string(), AnsiColor::Yellow),
        ]
    );
}

#[test]
fn transcript_is_rendered_in_order() {
    assert_eq!(render_transcript(&vec![], 80), vec![StyledLine::default()]);
    let entries = vec![
        TranscriptEntry { role: Role::System, text: "ready".to_string() },
        TranscriptEntry { role: Role::User, text: "foo bar baz".to_string() },
    ];
    assert_eq!(
        render_transcript(&entries, 11),
        vec![
            StyledLine::dim("  ready".to_string(), AnsiColor::Yellow),
            StyledLine::default(),
            StyledLine::colored("  You".to_string(), AnsiColor::Aqua, true),
            StyledLine::plain("    foo bar".to_string()),
            StyledLine::plain("    baz".to_string()),
        ]
    );
}

#[test]
fn layout_splits_seven_to_three() {
    let l = Layout::new(80, 24);
    assert_eq!((l.width, l.height), (80, 24));
    assert_eq!((l.split, l.transcript_height), (16, 14));
    assert_eq!((l.input_first_row, l.input_height, l.input_text_width), (19, 5, 76));
    let l = Layout::new(0, 0);
    assert_eq!((l.width, l.height, l.split), (20, 10, 5));
    assert_eq!((l.input_first_row, l.input_height), (8, 2));
    assert_eq!(Layout::new(0, usize::MAX).split, usize::MAX / 10 * 7 + (usize::MAX % 10) * 7 / 10);
}

fn frame(count: usize, scroll_offset: usize) -> Frame {
    let mut lines = Vec::new();
    for i in 0..count {
        lines.push(StyledLine::plain(format!("line {i}")));
    }
    Frame {
        title: "zsh".to_string(),
        status: "ok".to_string(),
        directive: None,
        scroll_offset,
        lines,
        input: strings(&["hello"]),
        cursor: Some((0, 5)),
    }
}

fn shown(changes: &[Change]) -> Vec<String> {
    let mut texts = Vec::new();
    for change in changes {
        if let Change::Text(text) = change {
            if text.starts_with("line ") {
                texts.push(text.clone());
            }
        }
    }
    texts
}

#[test]
fn whole_screen_is_composed() {
    let changes = frame(1, 0).draw(20, 10);
    let at = |x: usize, y: usize| Change::CursorPosition { x, y };
    let text = |s: &str| Change::Text(s.to_string());
    let separator = |y: usize| {
        vec![
            at(0, y),
            Change::Foreground(Some(AnsiColor::Navy)),
            text("────────────────────"),
            Change::Foreground(None),
        ]
    };
    let mut expected = vec![
        Change::ClearScreen,
        Change::ShowCursor(false),
        at(0, 0),
        Change::Reverse(true),
        Change::Intensity(Intensity::Bold),
        text("  AI Chat — zsh     "),
        Change::Reverse(false),
        Change::Intensity(Intensity::Normal),
    ];
    expected.extend(separator(1));
    expected.extend(vec![
        at(0, 2),
        text("line 0"),
        Change::Intensity(Intensity::Normal),
        Change::Foreground(None),
        Change::ClearToEndOfLine,
        at(0, 3),
        Change::ClearToEndOfLine,
        at(0, 4),
        Change::ClearToEndOfLine,
    ]);
    expected.extend(separator(5));
    expected.extend(vec![
        at(0, 6),
        Change::Intensity(Intensity::Half),
        text("  ok  "),
        text(""),
        text("PgUp/PgDn: scroll  Esc: close  "),
        Change::Intensity(Intensity::Normal),
    ]);
    expected.extend(separator(7));
    expected.extend(vec![
        at(0, 8),
        Change::Foreground(Some(AnsiColor::Aqua)),
        Change::Intensity(Intensity::Bold),
        text("  ❯ "),
        Change::Intensity(Intensity::Normal),
        Change::Foreground(None),
        text("hello"),
        Change::ClearToEndOfLine,
        at(0, 9),
        Change::ClearToEndOfLine,
        at(9, 8),
        Change::ShowCursor(true),
    ]);
    assert_eq!(changes, expected);
}

#[test]
fn scrolling_moves_the_window() {
    assert_eq!(shown(&frame(6, 0).draw(20, 10)), strings(&["line 3", "line 4", "line 5"]));
    let changes = frame(6, 2).draw(40, 10);
    assert_eq!(shown(&changes), strings(&["line 1", "line 2", "line 3"]));
    assert!(changes.contains(&Change::Text(" ↑ 2 lines ".to_string())));
    assert!(changes.contains(&Change::CursorPosition { x: 28, y: 2 }));
    let changes = frame(16, 99).draw(20, 10);
    assert_eq!(shown(&changes), strings(&["line 0", "line 1", "line 2"]));
    assert!(changes.contains(&Change::Text(" ↑ 13 lines ".to_string())));
    assert_eq!(shown(&frame(2, 7).draw(20, 10)), strings(&["line 0", "line 1"]));
}

#[test]
fn status_row_is_filled() {
    let mut f = frame(1, 0);
    f.directive = Some("go".to_string());
    let changes = f.draw(60, 10);
    assert!(changes.contains(&Change::Text("  ok  /watch: go  ".to_string())));
    assert!(changes.contains(&Change::Text(" ".repeat(60 - 18 - 31))));
}

#[test]
fn long_input_stops_at_the_last_row() {
    let mut f = frame(1, 0);
    f.input = strings(&["a", "b", "c", "d"]);
    f.cursor = Some((3, 99));
    let changes = f.draw(20, 10);
    assert!(changes.contains(&Change::Text("    b".to_string())));
    assert!(!changes.contains(&Change::Text("    c".to_string())));
    assert_eq!(changes[changes.len() - 2], Change::CursorPosition { x: 19, y: 9 });
    f.cursor = None;
    let changes = f.draw(20, 10);
    assert_eq!(changes[changes.len() - 2], Change::CursorPosition { x: 0, y: 0 });
}

#[test]
fn every_move_stays_on_the_screen() {
    for (cols, rows) in [(0, 0), (20, 10), (80, 24), (33, 17)] {
        for count in 0..40 {
            let mut f = frame(count, count / 2);
            f.cursor = Some((count, count * 3));
            for change in f.draw(cols, rows) {
                if let Change::CursorPosition { x, y } = change {
                    assert!(x < cols.max(20) && y < rows.max(10));
                }
            }
        }
    }
}

fn cursor_of(changes: &[Change]) -> &Change {
    &changes[changes.len() - 2]
}

#[test]
fn overlay_is_rendered() {
    let mut o = AiChatOverlay::new(1, "zsh".to_string());
    assert_eq!(cursor_of(&o.render(80, 24)), &Change::CursorPosition { x: 4, y: 19 });
    o.handle_paste("日本x");
    assert_eq!(cursor_of(&o.render(80, 24)), &Change::CursorPosition { x: 9, y: 19 });
    o.handle_key_event(Key::LeftArrow, false);
    o.handle_key_event(Key::LeftArrow, false);
    assert_eq!(cursor_of(&o.render(80, 24)), &Change::CursorPosition { x: 6, y: 19 });
    let changes = o.render(80, 24);
    assert!(changes.contains(&Change::Text("日本x".to_string())));
    assert!(changes.contains(&Change::Text("  moonshotai/kimi-k2.5  ".to_string())));
    o.handle_key_event(Key::End, false);
    o.handle_paste("  ");
    assert_eq!(cursor_of(&o.render(80, 24)), &Change::CursorPosition { x: 0, y: 0 });
}

fn cells(lines: &[&str]) -> Vec<Vec<String>> {
    lines.iter().map(|l| l.chars().map(|c| c.to_string()).collect()).collect()
}

#[test]
fn snapshot_leaves_out_blank_lines() {
    assert_eq!(capture_pane_snapshot(&cells(&["a  ", "", "  b", "   ", "c"])), "a\n  b\nc");
    assert_eq!(capture_pane_snapshot(&cells(&["", "", "x", ""])), "\nx");
    assert_eq!(capture_pane_snapshot(&cells(&["", " "])), "");
    assert_eq!(capture_pane_snapshot(&[]), "");
}

#[test]
fn snapshot_covers_the_last_rows() {
    assert_eq!(snapshot_rows(100, 24), (76, 124));
    assert_eq!(snapshot_rows(0, 24), (-24, 24));
    assert_eq!(snapshot_rows(10, 200), (162, 210));
    assert_eq!(snapshot_rows(isize::MIN, 7), (isize::MIN, isize::MIN + 7));
}
