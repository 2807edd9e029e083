//! The overlay's screen: where everything goes and the changes that draw it.
//!
//! | Rows                   | Content                     |
//! |------------------------|-----------------------------|
//! | 0                      | header                      |
//! | 1                      | separator                   |
//! | 2 to split - 1         | transcript                  |
//! | split                  | separator                   |
//! | split + 1              | status and hints            |
//! | split + 2              | separator                   |
//! | split + 3 to the end   | input                       |

use crate::style::{AnsiColor, Change, Intensity, StyledLine};
use crate::{style, text};
use vstd::prelude::*;
use vstd::string::*;

verus! {

/// Where the parts of the screen are.
#[derive(Clone, Copy, Debug, PartialEq, Eq)]
pub struct Layout {
    pub width: usize,
    pub height: usize,
    pub split: usize,
    pub transcript_height: usize,
    pub input_first_row: usize,
    pub input_height: usize,
    pub input_text_width: usize,
}

/// The layout of a terminal of `cols` columns and `rows` rows: at least 20 columns and 10 rows are
/// assumed, and seven tenths of the rows go to the upper part, as far as five rows remain on either
/// side.
pub open spec fn layout_of(cols: usize, rows: usize) -> Layout {
    let width = text::max(cols as int, 20);
    let height = text::max(rows as int, 10);
    let split = text::min(text::max(height * 7 / 10, 5), height - 5);
    Layout {
        width: width as usize,
        height: height as usize,
        split: split as usize,
        transcript_height: (split - 2) as usize,
        input_first_row: (split + 3) as usize,
        input_height: (height - (split + 3)) as usize,
        input_text_width: (width - 4) as usize,
    }
}

impl Layout {
    /// The layout of a terminal of `cols` columns and `rows` rows.
    pub fn new(cols: usize, rows: usize) -> (r: Layout)
        ensures
            r == layout_of(cols, rows),
    {
        let width: usize = if cols > 20 {
            cols
        } else {
            20
        };
        let height: usize = if rows > 10 {
            rows
        } else {
            10
        };
        // Seven tenths, without forming the product.
        let share: usize = (height / 10) * 7 + (height % 10) * 7 / 10;
        assert(share == height * 7 / 10);
        let upper: usize = if share > 5 {
            share
        } else {
            5
        };
        let split: usize = if upper < height - 5 {
            upper
        } else {
            height - 5
        };
        Layout {
            width,
            height,
            split,
            transcript_height: split - 2,
            input_first_row: split + 3,
            input_height: height - (split + 3),
            input_text_width: width - 4,
        }
    }
}

/// What the screen shows.
#[derive(Debug, PartialEq, Eq)]
pub struct Frame {
    /// The title of the pane.
    pub title: String,
    /// The status text.
    pub status: String,
    /// What automation is told to do, while it is on.
    pub directive: Option<String>,
    /// How many lines the transcript is scrolled up from its end.
    pub scroll_offset: usize,
    /// The lines of the transcript.
    pub lines: Vec<StyledLine>,
    /// The lines of the input.
    pub input: Vec<String>,
    /// The line of the input that the cursor is in and the columns in front of it there.
    pub cursor: Option<(usize, usize)>,
}

/// The meaning of a [`Frame`].
pub ghost struct FrameView {
    pub title: Seq<char>,
    pub status: Seq<char>,
    pub directive: Option<Seq<char>>,
    pub scroll_offset: int,
    pub lines: Seq<Seq<style::SpanView>>,
    pub input: Seq<Seq<char>>,
    pub cursor: Option<(int, int)>,
}

/// The text of an optional string.
pub open spec fn optional_text(s: Option<String>) -> Option<Seq<char>> {
    match s {
        Some(s) => Some(s@),
        None => None,
    }
}

impl View for Frame {
    type V = FrameView;

    open spec fn view(&self) -> FrameView {
        FrameView {
            title: self.title@,
            status: self.status@,
            directive: optional_text(self.directive),
            scroll_offset: self.scroll_offset as int,
            lines: style::line_views(self.lines@),
            input: text::texts(self.input@),
            cursor: match self.cursor {
                Some((row, columns)) => Some((row as int, columns as int)),
                None => None,
            },
        }
    }
}

/// How far the transcript is really scrolled: no farther than to its first line.
pub open spec fn scroll(total: int, height: int, offset: int) -> int {
    text::min(offset, text::max(total - height, 0))
}

/// How many lines of the transcript are shown.
pub open spec fn shown(total: int, height: int) -> int {
    text::min(total, height)
}

/// The first line of the transcript that is shown.
pub open spec fn first_shown(total: int, height: int, offset: int) -> int {
    text::max(total - height - scroll(total, height, offset), 0)
}

/// The header: the title in bold reverse video, across the whole row.
pub open spec fn header(width: nat, title: Seq<char>) -> Seq<style::ChangeView> {
    seq![
        style::move_to(0, 0),
        style::ChangeView::Reverse(true),
        style::ChangeView::Intensity(Intensity::Bold),
        style::ChangeView::Text(style::padded("  AI Chat — "@ + title, width)),
        style::ChangeView::Reverse(false),
        style::ChangeView::Intensity(Intensity::Normal),
    ]
}

/// A line drawn in row `row`, with the rest of the row cleared.
pub open spec fn line_row(line: Seq<style::SpanView>, row: int) -> Seq<style::ChangeView> {
    seq![style::move_to(0, row)] + style::line_changes(line) + seq![
        style::ChangeView::ClearToEndOfLine,
    ]
}

/// Lines drawn one below the other from row 2 on.
pub open spec fn line_rows(lines: Seq<Seq<style::SpanView>>) -> Seq<style::ChangeView> {
    Seq::new(lines.len(), |i: int| line_row(lines[i], 2 + i)).flatten()
}

/// A cleared row.
pub open spec fn blank_row(row: int) -> Seq<style::ChangeView> {
    seq![style::move_to(0, row), style::ChangeView::ClearToEndOfLine]
}

/// The cleared rows from `from` up to `to`.
pub open spec fn blank_rows(from: int, to: int) -> Seq<style::ChangeView> {
    Seq::new(text::max(to - from, 0) as nat, |i: int| blank_row(from + i)).flatten()
}

/// How the number of lines below the shown ones is told.
pub open spec fn scroll_label(lines: nat) -> Seq<char> {
    " ↑ "@ + text::decimal(lines) + " lines "@
}

/// The mark in the upper right corner of the transcript, while it is scrolled.
pub open spec fn scroll_mark(width: int, lines: nat) -> Seq<style::ChangeView> {
    if lines == 0 {
        Seq::empty()
    } else {
        seq![
            style::move_to(text::max(width - scroll_label(lines).len() - 1, 0), 2),
            style::ChangeView::Intensity(Intensity::Half),
            style::ChangeView::Text(scroll_label(lines)),
            style::ChangeView::Intensity(Intensity::Normal),
        ]
    }
}

/// The left part of the status row: the status, and the directive while automation is on.
pub open spec fn status_left(status: Seq<char>, directive: Option<Seq<char>>) -> Seq<char> {
    "  "@ + status + "  "@ + match directive {
        Some(d) => "/watch: "@ + d + "  "@,
        None => Seq::empty(),
    }
}

/// The right part of the status row.
pub open spec fn status_right() -> Seq<char> {
    "PgUp/PgDn: scroll  Esc: close"@ + "  "@
}

/// The status row: its left part, its right part, and between them as many spaces as fill the row.
pub open spec fn status_row(
    width: int,
    row: int,
    status: Seq<char>,
    directive: Option<Seq<char>>,
) -> Seq<style::ChangeView> {
    let left = status_left(status, directive);
    let gap = text::max(width - (left.len() + status_right().len()), 0) as nat;
    seq![
        style::move_to(0, row),
        style::ChangeView::Intensity(Intensity::Half),
        style::ChangeView::Text(left),
        style::ChangeView::Text(text::repeated(' ', gap)),
        style::ChangeView::Text(status_right()),
        style::ChangeView::Intensity(Intensity::Normal),
    ]
}

/// The first row of the input: the prompt and the first line.
pub open spec fn prompt_row(row: int, line: Seq<char>) -> Seq<style::ChangeView> {
    seq![
        style::move_to(0, row),
        style::ChangeView::Foreground(Some(AnsiColor::Aqua)),
        style::ChangeView::Intensity(Intensity::Bold),
        style::ChangeView::Text("  ❯ "@),
        style::ChangeView::Intensity(Intensity::Normal),
        style::ChangeView::Foreground(None),
        style::ChangeView::Text(line),
        style::ChangeView::ClearToEndOfLine,
    ]
}

/// A further row of the input, its text below that of the first.
pub open spec fn continuation_row(row: int, line: Seq<char>) -> Seq<style::ChangeView> {
    seq![
        style::move_to(0, row),
        style::ChangeView::Text("    "@ + line),
        style::ChangeView::ClearToEndOfLine,
    ]
}

/// The input in rows `first` to `height - 1`: its lines as far as they fit, then cleared rows.
pub open spec fn input_rows(input: Seq<Seq<char>>, first: int, height: int) -> Seq<
    style::ChangeView,
> {
    let fitting = text::min(input.len() as int, height - first);
    prompt_row(first, input[0]) + Seq::new(
        (fitting - 1) as nat,
        |i: int| continuation_row(first + 1 + i, input[i + 1]),
    ).flatten() + blank_rows(first + input.len(), height)
}

/// Where the cursor goes: behind the columns in front of it, four columns in for the prompt, but
/// never off the screen; the upper left corner where no line of the input holds it.
pub open spec fn cursor_position(
    cursor: Option<(int, int)>,
    first: int,
    width: int,
    height: int,
) -> style::ChangeView {
    match cursor {
        Some((row, columns)) => style::move_to(
            text::min(4 + columns, width - 1),
            text::min(first + row, height - 1),
        ),
        None => style::move_to(0, 0),
    }
}

/// All changes that draw a frame.
pub open spec fn screen(frame: FrameView, layout: Layout) -> Seq<style::ChangeView> {
    let total = frame.lines.len() as int;
    let height = layout.transcript_height as int;
    let lo = first_shown(total, height, frame.scroll_offset);
    seq![style::ChangeView::ClearScreen, style::ChangeView::ShowCursor(false)] + header(
        layout.width as nat,
        frame.title,
    ) + style::separator(0, 1, layout.width as nat) + line_rows(
        frame.lines.subrange(lo, lo + shown(total, height)),
    ) + blank_rows(2 + shown(total, height), 2 + height) + scroll_mark(
        layout.width as int,
        scroll(total, height, frame.scroll_offset) as nat,
    ) + style::separator(0, layout.split as int, layout.width as nat) + status_row(
        layout.width as int,
        layout.split + 1,
        frame.status,
        frame.directive,
    ) + style::separator(0, layout.split + 2, layout.width as nat) + input_rows(
        frame.input,
        layout.input_first_row as int,
        layout.height as int,
    ) + seq![
        cursor_position(
            frame.cursor,
            layout.input_first_row as int,
            layout.width as int,
            layout.height as int,
        ),
        style::ChangeView::ShowCursor(true),
    ]
}

/// The changes that are made once, before anything is drawn: the window is given its title.
pub fn opening() -> (changes: Vec<Change>)
    ensures
        style::change_views(changes@) == seq![style::ChangeView::Title("AI Chat"@)],
{
    let mut changes: Vec<Change> = Vec::new();
    style::put(&mut changes, Change::Title("AI Chat".to_owned()));
    assert(style::change_views(changes@) =~= seq![style::ChangeView::Title("AI Chat"@)]);
    changes
}

fn draw_header(changes: &mut Vec<Change>, width: usize, title: &str)
    ensures
        style::change_views(final(changes)@) == style::change_views(old(changes)@) + header(
            width as nat,
            title@,
        ),
{
    style::at(changes, 0, 0);
    style::put(changes, Change::Reverse(true));
    style::put(changes, Change::Intensity(Intensity::Bold));
    let label = "  AI Chat — ".to_owned().concat(title);
    style::put(changes, Change::Text(style::pad_right(label.as_str(), width)));
    style::put(changes, Change::Reverse(false));
    style::put(changes, Change::Intensity(Intensity::Normal));
    assert(style::change_views(changes@) =~= style::change_views(old(changes)@) + header(
        width as nat,
        title@,
    ));
}

fn draw_lines(changes: &mut Vec<Change>, lines: &Vec<StyledLine>, lo: usize, count: usize)
    requires
        lo + count <= lines@.len(),
        count + 2 <= usize::MAX,
    ensures
        style::change_views(final(changes)@) == style::change_views(old(changes)@) + line_rows(
            style::line_views(lines@).subrange(lo as int, lo + count),
        ),
{
    let ghost start = style::change_views(changes@);
    let ghost part = style::line_views(lines@).subrange(lo as int, lo + count);
    let ghost drawn = Seq::new(part.len(), |i: int| line_row(part[i], 2 + i));
    let total: usize = lines.len();
    let mut i: usize = 0;
    assert(drawn.take(0) =~= Seq::<Seq<style::ChangeView>>::empty());
    while i < count
        invariant
            i <= count,
            total == lines@.len(),
            lo + count <= total,
            count + 2 <= usize::MAX,
            part == style::line_views(lines@).subrange(lo as int, lo + count),
            drawn == Seq::new(part.len(), |i: int| line_row(part[i], 2 + i)),
            style::change_views(changes@) =~= start + drawn.take(i as int).flatten(),
        decreases count - i,
    {
        let ghost before = style::change_views(changes@);
        style::at(changes, 0, 2 + i);
        lines[lo + i].emit(changes);
        style::put(changes, Change::ClearToEndOfLine);
        assert(part[i as int] == lines@[lo + i]@);
        assert(style::change_views(changes@) =~= before + line_row(part[i as int], 2 + i));
        proof {
            assert(drawn.take(i + 1) =~= drawn.take(i as int).push(drawn[i as int]));
            drawn.take(i as int).lemma_flatten_push(drawn[i as int]);
        }
        i = i + 1;
    }
    assert(drawn.take(count as int) =~= drawn);
}

fn draw_blank_rows(changes: &mut Vec<Change>, from: usize, to: usize)
    ensures
        style::change_views(final(changes)@) == style::change_views(old(changes)@) + blank_rows(
            from as int,
            to as int,
        ),
{
    let ghost start = style::change_views(changes@);
    let ghost drawn = Seq::new(
        text::max(to - from, 0) as nat,
        |i: int| blank_row(from + i),
    );
    let mut row: usize = from;
    assert(drawn.take(0) =~= Seq::<Seq<style::ChangeView>>::empty());
    while row < to
        invariant
            from <= row,
            row <= text::max(from as int, to as int),
            drawn == Seq::new(text::max(to - from, 0) as nat, |i: int| blank_row(from + i)),
            style::change_views(changes@) =~= start + drawn.take(row - from).flatten(),
        decreases to - row,
    {
        let ghost before = style::change_views(changes@);
        let ghost i = row - from;
        style::at(changes, 0, row);
        style::put(changes, Change::ClearToEndOfLine);
        assert(style::change_views(changes@) =~= before + blank_row(row as int));
        proof {
            assert(drawn.take(i + 1) =~= drawn.take(i).push(drawn[i]));
            drawn.take(i).lemma_flatten_push(drawn[i]);
        }
        row = row + 1;
    }
    assert(drawn.take(row - from) =~= drawn);
}

fn draw_scroll_mark(changes: &mut Vec<Change>, width: usize, lines: usize)
    ensures
        style::change_views(final(changes)@) == style::change_views(old(changes)@) + scroll_mark(
            width as int,
            lines as nat,
        ),
{
    if lines > 0 {
        let label = " ↑ ".to_owned().concat(text::decimal_text(lines).as_str()).concat(" lines ");
        let columns: usize = label.as_str().unicode_len();
        let x: usize = width.saturating_sub(columns).saturating_sub(1);
        style::at(changes, x, 2);
        style::put(changes, Change::Intensity(Intensity::Half));
        style::put(changes, Change::Text(label));
        style::put(changes, Change::Intensity(Intensity::Normal));
    }
    assert(style::change_views(changes@) =~= style::change_views(old(changes)@) + scroll_mark(
        width as int,
        lines as nat,
    ));
}

fn draw_status(
    changes: &mut Vec<Change>,
    width: usize,
    row: usize,
    status: &str,
    directive: &Option<String>,
)
    ensures
        style::change_views(final(changes)@) == style::change_views(old(changes)@) + status_row(
            width as int,
            row as int,
            status@,
            optional_text(*directive),
        ),
{
    style::at(changes, 0, row);
    style::put(changes, Change::Intensity(Intensity::Half));
    let mut left = "  ".to_owned().concat(status).concat("  ");
    if let Some(d) = directive {
        let label = "/watch: ".to_owned().concat(d.as_str()).concat("  ");
        left.append(label.as_str());
    }
    assert(left@ =~= status_left(status@, optional_text(*directive)));
    let right = "PgUp/PgDn: scroll  Esc: close".to_owned().concat("  ");
    let left_columns: usize = left.as_str().unicode_len();
    let right_columns: usize = right.as_str().unicode_len();
    let gap: usize = width.saturating_sub(left_columns).saturating_sub(right_columns);
    style::put(changes, Change::Text(left));
    style::put(changes, Change::Text(text::repeat_char(' ', gap)));
    style::put(changes, Change::Text(right));
    style::put(changes, Change::Intensity(Intensity::Normal));
    assert(style::change_views(changes@) =~= style::change_views(old(changes)@) + status_row(
        width as int,
        row as int,
        status@,
        optional_text(*directive),
    ));
}

fn draw_input(changes: &mut Vec<Change>, input: &Vec<String>, first: usize, height: usize)
    requires
        input@.len() >= 1,
        first < height,
    ensures
        style::change_views(final(changes)@) == style::change_views(old(changes)@) + input_rows(
            text::texts(input@),
            first as int,
            height as int,
        ),
{
    let ghost start = style::change_views(changes@);
    let ghost lines = text::texts(input@);
    let room: usize = height - first;
    let fitting: usize = if input.len() < room {
        input.len()
    } else {
        room
    };
    style::at(changes, 0, first);
    style::put(changes, Change::Foreground(Some(AnsiColor::Aqua)));
    style::put(changes, Change::Intensity(Intensity::Bold));
    style::put(changes, Change::Text("  ❯ ".to_owned()));
    style::put(changes, Change::Intensity(Intensity::Normal));
    style::put(changes, Change::Foreground(None));
    style::put(changes, Change::Text(input[0].clone()));
    style::put(changes, Change::ClearToEndOfLine);
    assert(style::change_views(changes@) =~= start + prompt_row(first as int, lines[0]));
    let ghost above = style::change_views(changes@);
    let ghost drawn = Seq::new(
        (fitting - 1) as nat,
        |i: int| continuation_row(first + 1 + i, lines[i + 1]),
    );
    let mut i: usize = 1;
    assert(drawn.take(0) =~= Seq::<Seq<style::ChangeView>>::empty());
    while i < fitting
        invariant
            1 <= i <= fitting,
            fitting <= room,
            room == height - first,
            fitting <= input@.len(),
            lines == text::texts(input@),
            drawn == Seq::new(
                (fitting - 1) as nat,
                |i: int| continuation_row(first + 1 + i, lines[i + 1]),
            ),
            style::change_views(changes@) =~= above + drawn.take(i - 1).flatten(),
        decreases fitting - i,
    {
        let ghost before = style::change_views(changes@);
        let ghost k = i - 1;
        style::at(changes, 0, first + i);
        style::put(changes, Change::Text("    ".to_owned().concat(input[i].as_str())));
        style::put(changes, Change::ClearToEndOfLine);
        assert(style::change_views(changes@) =~= before + continuation_row(
            first + i,
            lines[i as int],
        ));
        proof {
            assert(drawn.take(k + 1) =~= drawn.take(k).push(drawn[k]));
            drawn.take(k).lemma_flatten_push(drawn[k]);
        }
        i = i + 1;
    }
    assert(drawn.take(fitting - 1) =~= drawn);
    draw_blank_rows(changes, first + fitting, height);
    proof {
        if fitting < input@.len() {
            assert(blank_rows(first + fitting, height as int) =~= blank_rows(
                first + lines.len(),
                height as int,
            ));
        }
        assert(style::change_views(changes@) =~= start + input_rows(
            lines,
            first as int,
            height as int,
        ));
    }
}

impl Frame {
    /// The changes that draw the frame on a terminal of `cols` columns and `rows` rows.
    pub fn draw(&self, cols: usize, rows: usize) -> (changes: Vec<Change>)
        requires
            self.input@.len() >= 1,
        ensures
            style::change_views(changes@) == screen(self@, layout_of(cols, rows)),
    {
        let layout = Layout::new(cols, rows);
        let width: usize = layout.width;
        let height: usize = layout.transcript_height;
        let total: usize = self.lines.len();
        let room: usize = total.saturating_sub(height);
        let scrolled: usize = if self.scroll_offset < room {
            self.scroll_offset
        } else {
            room
        };
        let lo: usize = total.saturating_sub(height).saturating_sub(scrolled);
        let count: usize = if total < height {
            total
        } else {
            height
        };
        let mut changes: Vec<Change> = Vec::new();
        style::put(&mut changes, Change::ClearScreen);
        style::put(&mut changes, Change::ShowCursor(false));
        assert(style::change_views(changes@) =~= seq![
            style::ChangeView::ClearScreen,
            style::ChangeView::ShowCursor(false),
        ]);
        draw_header(&mut changes, width, self.title.as_str());
        style::draw_separator(&mut changes, 0, 1, width);
        draw_lines(&mut changes, &self.lines, lo, count);
        draw_blank_rows(&mut changes, 2 + count, 2 + height);
        draw_scroll_mark(&mut changes, width, scrolled);
        style::draw_separator(&mut changes, 0, layout.split, width);
        draw_status(&mut changes, width, layout.split + 1, self.status.as_str(), &self.directive);
        style::draw_separator(&mut changes, 0, layout.split + 2, width);
        draw_input(&mut changes, &self.input, layout.input_first_row, layout.height);
        let ghost drawn = style::change_views(changes@);
        let ghost spot = cursor_position(
            self@.cursor,
            layout.input_first_row as int,
            width as int,
            layout.height as int,
        );
        match self.cursor {
            Some((row, columns)) => {
                let x: usize = columns.saturating_add(4);
                let y: usize = layout.input_first_row.saturating_add(row);
                style::at(
                    &mut changes,
                    if x < width - 1 {
                        x
                    } else {
                        width - 1
                    },
                    if y < layout.height - 1 {
                        y
                    } else {
                        layout.height - 1
                    },
                );
            },
            None => {
                style::at(&mut changes, 0, 0);
            },
        }
        assert(style::change_views(changes@) == drawn.push(spot));
        style::put(&mut changes, Change::ShowCursor(true));
        assert(drawn.push(spot).push(style::ChangeView::ShowCursor(true)) =~= drawn + seq![
            spot,
            style::ChangeView::ShowCursor(true),
        ]);
        changes
    }
}

/// Whether every move of the cursor stays within `width` columns and `height` rows.
pub open spec fn stays_within(changes: Seq<style::ChangeView>, width: int, height: int) -> bool {
    forall|i: int|
        0 <= i < changes.len() ==> (#[trigger] changes[i] matches style::ChangeView::CursorPosition {
            x,
            y,
        } ==> 0 <= x < width && 0 <= y < height)
}

proof fn concat_stays_within(
    a: Seq<style::ChangeView>,
    b: Seq<style::ChangeView>,
    width: int,
    height: int,
)
    requires
        stays_within(a, width, height),
        stays_within(b, width, height),
    ensures
        stays_within(a + b, width, height),
{
    assert forall|i: int| 0 <= i < (a + b).len() implies (#[trigger] (a
        + b)[i] matches style::ChangeView::CursorPosition { x, y } ==> 0 <= x < width && 0 <= y
        < height) by {
        if i < a.len() {
            assert((a + b)[i] == a[i]);
        } else {
            assert((a + b)[i] == b[i - a.len()]);
        }
    }
}

proof fn flatten_stays_within(parts: Seq<Seq<style::ChangeView>>, width: int, height: int)
    requires
        forall|i: int| 0 <= i < parts.len() ==> stays_within(#[trigger] parts[i], width, height),
    ensures
        stays_within(parts.flatten(), width, height),
    decreases parts.len(),
{
    if parts.len() > 0 {
        flatten_stays_within(parts.drop_first(), width, height);
        concat_stays_within(parts.first(), parts.drop_first().flatten(), width, height);
    }
}

proof fn line_row_stays_within(line: Seq<style::SpanView>, row: int, width: int, height: int)
    requires
        width >= 1,
        0 <= row < height,
    ensures
        stays_within(line_row(line, row), width, height),
{
    let parts = Seq::new(line.len(), |i: int| style::span_changes(line[i]));
    flatten_stays_within(parts, width, height);
    concat_stays_within(
        seq![style::move_to(0, row)],
        style::line_changes(line),
        width,
        height,
    );
    concat_stays_within(
        seq![style::move_to(0, row)] + style::line_changes(line),
        seq![style::ChangeView::ClearToEndOfLine],
        width,
        height,
    );
}

proof fn blank_rows_stay_within(from: int, to: int, width: int, height: int)
    requires
        width >= 1,
        0 <= from,
        to <= height,
    ensures
        stays_within(blank_rows(from, to), width, height),
{
    let parts = Seq::new(text::max(to - from, 0) as nat, |i: int| blank_row(from + i));
    flatten_stays_within(parts, width, height);
}

proof fn input_rows_stay_within(input: Seq<Seq<char>>, first: int, width: int, height: int)
    requires
        input.len() >= 1,
        width >= 1,
        0 <= first < height,
    ensures
        stays_within(input_rows(input, first, height), width, height),
{
    let fitting = text::min(input.len() as int, height - first);
    let parts = Seq::new(
        (fitting - 1) as nat,
        |i: int| continuation_row(first + 1 + i, input[i + 1]),
    );
    flatten_stays_within(parts, width, height);
    blank_rows_stay_within(first + input.len(), height, width, height);
    concat_stays_within(prompt_row(first, input[0]), parts.flatten(), width, height);
    concat_stays_within(
        prompt_row(first, input[0]) + parts.flatten(),
        blank_rows(first + input.len(), height),
        width,
        height,
    );
}

/// Whatever is shown, and however small the terminal says it is, the cursor never leaves the screen
/// of at least 20 columns and 10 rows that is drawn on.
pub proof fn drawing_stays_on_screen(frame: FrameView, cols: usize, rows: usize)
    requires
        frame.input.len() >= 1,
        frame.scroll_offset >= 0,
        frame.cursor matches Some((row, columns)) ==> row >= 0 && columns >= 0,
    ensures
        stays_within(
            screen(frame, layout_of(cols, rows)),
            text::max(cols as int, 20),
            text::max(rows as int, 10),
        ),
{
    let layout = layout_of(cols, rows);
    let w = layout.width as int;
    let h = layout.height as int;
    let total = frame.lines.len() as int;
    let th = layout.transcript_height as int;
    let lo = first_shown(total, th, frame.scroll_offset);
    let part = frame.lines.subrange(lo, lo + shown(total, th));
    let s0 = seq![style::ChangeView::ClearScreen, style::ChangeView::ShowCursor(false)];
    let s1 = header(layout.width as nat, frame.title);
    let s2 = style::separator(0, 1, layout.width as nat);
    let s3 = line_rows(part);
    let s4 = blank_rows(2 + shown(total, th), 2 + th);
    let s5 = scroll_mark(w, scroll(total, th, frame.scroll_offset) as nat);
    let s6 = style::separator(0, layout.split as int, layout.width as nat);
    let s7 = status_row(w, layout.split + 1, frame.status, frame.directive);
    let s8 = style::separator(0, layout.split + 2, layout.width as nat);
    let s9 = input_rows(frame.input, layout.input_first_row as int, h);
    let s10 = seq![
        cursor_position(frame.cursor, layout.input_first_row as int, w, h),
        style::ChangeView::ShowCursor(true),
    ];
    let parts = Seq::new(part.len(), |i: int| line_row(part[i], 2 + i));
    assert forall|i: int| 0 <= i < parts.len() implies stays_within(#[trigger] parts[i], w, h) by {
        line_row_stays_within(part[i], 2 + i, w, h);
    }
    flatten_stays_within(parts, w, h);
    blank_rows_stay_within(2 + shown(total, th), 2 + th, w, h);
    input_rows_stay_within(frame.input, layout.input_first_row as int, w, h);
    concat_stays_within(s0, s1, w, h);
    concat_stays_within(s0 + s1, s2, w, h);
    concat_stays_within(s0 + s1 + s2, s3, w, h);
    concat_stays_within(s0 + s1 + s2 + s3, s4, w, h);
    concat_stays_within(s0 + s1 + s2 + s3 + s4, s5, w, h);
    concat_stays_within(s0 + s1 + s2 + s3 + s4 + s5, s6, w, h);
    concat_stays_within(s0 + s1 + s2 + s3 + s4 + s5 + s6, s7, w, h);
    concat_stays_within(s0 + s1 + s2 + s3 + s4 + s5 + s6 + s7, s8, w, h);
    concat_stays_within(s0 + s1 + s2 + s3 + s4 + s5 + s6 + s7 + s8, s9, w, h);
    concat_stays_within(s0 + s1 + s2 + s3 + s4 + s5 + s6 + s7 + s8 + s9, s10, w, h);
}

/// The lines that are shown are a stretch of the transcript; without scrolling it is its end, and
/// however far the scrolling goes, it never goes past the first line.
pub proof fn shown_lines_are_a_stretch(total: int, height: int, offset: int)
    requires
        total >= 0,
        height >= 1,
        offset >= 0,
    ensures
        0 <= first_shown(total, height, offset),
        first_shown(total, height, offset) + shown(total, height) <= total,
        offset == 0 ==> first_shown(total, height, offset) + shown(total, height) == total,
        offset >= total ==> first_shown(total, height, offset) == 0,
        first_shown(total, height, offset) + shown(total, height) == total - scroll(
            total,
            height,
            offset,
        ),
{
}

/// The parts of the screen follow each other without a gap: the transcript has at least three rows,
/// the input at least two, and all rows are accounted for.
pub proof fn layout_covers_the_screen(cols: usize, rows: usize)
    ensures
        ({
            let l = layout_of(cols, rows);
            &&& l.transcript_height >= 3
            &&& l.input_height >= 2
            &&& 2 + l.transcript_height == l.split
            &&& l.split + 3 == l.input_first_row
            &&& l.input_first_row + l.input_height == l.height
            &&& l.input_text_width >= 16
        }),
{
}

/// The screen that is drawn on has at least 20 columns and 10 rows; seven tenths of the rows, rounded
/// down, are above the middle separator, unless that leaves fewer than five below it.
pub proof fn rows_are_split_seven_to_three(cols: usize, rows: usize, layout: Layout)
    requires
        call_ensures(Layout::new, (cols, rows), layout),
    ensures
        layout == layout_of(cols, rows),
        cols >= 20 ==> layout.width == cols,
        cols < 20 ==> layout.width == 20,
        rows >= 10 ==> layout.height == rows,
        rows < 10 ==> layout.height == 10,
        layout.split + 5 <= layout.height,
        10 * layout.split <= 7 * layout.height,
        10 * layout.split + 10 > 7 * layout.height || layout.split + 5 == layout.height,
        layout.transcript_height == layout.split - 2,
        layout.input_first_row == layout.split + 3,
        layout.input_height == layout.height - layout.split - 3,
        layout.input_text_width == layout.width - 4,
{
}

/// A frame means what it holds.
pub proof fn meaning_of_a_frame(frame: Frame)
    ensures
        frame@.title == frame.title@,
        frame@.status == frame.status@,
        frame.directive is Some <==> frame@.directive is Some,
        frame.directive matches Some(d) ==> frame@.directive == Some(d@),
        frame@.scroll_offset == frame.scroll_offset,
        frame@.lines.len() == frame.lines@.len(),
        forall|i: int|
            0 <= i < frame.lines@.len() ==> #[trigger] frame@.lines[i] == frame.lines@[i]@,
        frame@.input.len() == frame.input@.len(),
        forall|i: int|
            0 <= i < frame.input@.len() ==> #[trigger] frame@.input[i] == frame.input@[i]@,
        frame.cursor matches Some((row, columns)) ==> frame@.cursor == Some(
            (row as int, columns as int),
        ),
        frame.cursor is None ==> frame@.cursor is None,
{
}

/// Before anything is drawn the window is given its title, and nothing else.
pub proof fn the_window_is_titled_first(changes: Vec<Change>)
    requires
        call_ensures(opening, (), changes),
    ensures
        changes@.len() == 1,
        changes@[0] matches Change::Title(title) && title@ == "AI Chat"@,
{
    let views = style::change_views(changes@);
    assert(views.len() == 1);
    assert(views[0] == changes@[0]@);
}

} // verus!
