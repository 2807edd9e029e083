//! What a list of changes leaves on the screen: a small model of a terminal, and what the overlay's
//! screen looks like in it.

use crate::overlay::AiChatOverlay;
use crate::style::{AnsiColor, ChangeView, Intensity};
use crate::{screen, style, text};
use vstd::prelude::*;

verus! {

/// How text is drawn.
pub ghost struct Pen {
    pub reverse: bool,
    pub intensity: Intensity,
    pub fg: Option<AnsiColor>,
}

/// What is left in a row: text, with the column that was moved to last before it was drawn, or that
/// the rest of the row was cleared.
pub ghost enum Stroke {
    Drawn { x: int, text: Seq<char>, pen: Pen },
    Cleared,
}

/// Where the terminal is about to draw, and how.
pub ghost struct Drawing {
    pub x: int,
    pub row: int,
    pub pen: Pen,
}

/// The pen that a cleared screen begins with.
pub open spec fn plain_pen() -> Pen {
    Pen { reverse: false, intensity: Intensity::Normal, fg: None }
}

/// Where and how the terminal draws after a change.
pub open spec fn after_change(d: Drawing, change: ChangeView) -> Drawing {
    match change {
        ChangeView::ClearScreen => Drawing { x: 0, row: 0, pen: plain_pen() },
        ChangeView::CursorPosition { x, y } => Drawing { x, row: y, ..d },
        ChangeView::Reverse(reverse) => Drawing { pen: Pen { reverse, ..d.pen }, ..d },
        ChangeView::Intensity(intensity) => Drawing { pen: Pen { intensity, ..d.pen }, ..d },
        ChangeView::Foreground(fg) => Drawing { pen: Pen { fg, ..d.pen }, ..d },
        _ => d,
    }
}

/// Where and how the terminal draws after a list of changes.
pub open spec fn after_changes(changes: Seq<ChangeView>, d: Drawing) -> Drawing
    decreases changes.len(),
{
    if changes.len() == 0 {
        d
    } else {
        after_change(after_changes(changes.drop_last(), d), changes.last())
    }
}

/// What a list of changes leaves in row `y`.
pub open spec fn row_of(changes: Seq<ChangeView>, d: Drawing, y: int) -> Seq<Stroke>
    decreases changes.len(),
{
    if changes.len() == 0 {
        Seq::empty()
    } else {
        let before = row_of(changes.drop_last(), d, y);
        let now = after_changes(changes.drop_last(), d);
        match changes.last() {
            ChangeView::ClearScreen => Seq::empty(),
            ChangeView::Text(text) => if now.row == y {
                before.push(Stroke::Drawn { x: now.x, text, pen: now.pen })
            } else {
                before
            },
            ChangeView::ClearToEndOfLine => if now.row == y {
                before.push(Stroke::Cleared)
            } else {
                before
            },
            _ => before,
        }
    }
}

broadcast proof fn after_one_more(changes: Seq<ChangeView>, change: ChangeView, d: Drawing)
    ensures
        #[trigger] after_changes(changes.push(change), d) == after_change(
            after_changes(changes, d),
            change,
        ),
{
    assert(changes.push(change).drop_last() =~= changes);
}

broadcast proof fn row_of_one_more(
    changes: Seq<ChangeView>,
    change: ChangeView,
    d: Drawing,
    y: int,
)
    ensures
        #[trigger] row_of(changes.push(change), d, y) == ({
            let before = row_of(changes, d, y);
            let now = after_changes(changes, d);
            match change {
                ChangeView::ClearScreen => Seq::empty(),
                ChangeView::Text(text) => if now.row == y {
                    before.push(Stroke::Drawn { x: now.x, text, pen: now.pen })
                } else {
                    before
                },
                ChangeView::ClearToEndOfLine => if now.row == y {
                    before.push(Stroke::Cleared)
                } else {
                    before
                },
                _ => before,
            }
        }),
{
    assert(changes.push(change).drop_last() =~= changes);
}

broadcast proof fn nothing_yet(d: Drawing, y: int)
    ensures
        #[trigger] row_of(Seq::empty(), d, y) == Seq::<Stroke>::empty(),
        after_changes(Seq::empty(), d) == d,
{
}

broadcast group group_one_by_one {
    after_one_more,
    row_of_one_more,
    nothing_yet,
}

/// Whether a list of changes never clears the screen.
pub open spec fn clears_nothing(changes: Seq<ChangeView>) -> bool {
    forall|i: int| 0 <= i < changes.len() ==> !(#[trigger] changes[i] is ClearScreen)
}

proof fn one_after_the_other(a: Seq<ChangeView>, b: Seq<ChangeView>, d: Drawing, y: int)
    requires
        clears_nothing(b),
    ensures
        after_changes(a + b, d) == after_changes(b, after_changes(a, d)),
        row_of(a + b, d, y) == row_of(a, d, y) + row_of(b, after_changes(a, d), y),
    decreases b.len(),
{
    if b.len() == 0 {
        assert(a + b =~= a);
        assert(row_of(a, d, y) + row_of(b, after_changes(a, d), y) =~= row_of(a, d, y));
    } else {
        let front = b.drop_last();
        assert((a + b).drop_last() =~= a + front);
        assert forall|i: int| 0 <= i < front.len() implies !(#[trigger] front[i] is ClearScreen) by {
            assert(b[i] == front[i]);
        }
        one_after_the_other(a, front, d, y);
        assert(row_of(a + b, d, y) =~= row_of(a, d, y) + row_of(b, after_changes(a, d), y));
    }
}

/// Whether a list of changes, with a plain pen, leaves `rows(y)` in every row `y` and a plain pen
/// behind.
pub open spec fn draws(changes: Seq<ChangeView>, rows: spec_fn(int) -> Seq<Stroke>) -> bool {
    &&& clears_nothing(changes)
    &&& forall|d: Drawing, y: int|
        #![trigger row_of(changes, d, y)]
        d.pen == plain_pen() ==> row_of(changes, d, y) == rows(y)
    &&& forall|d: Drawing|
        #![trigger after_changes(changes, d)]
        d.pen == plain_pen() ==> after_changes(changes, d).pen == plain_pen()
}

/// A picture with one row.
pub open spec fn one_row(row: int, strokes: Seq<Stroke>) -> spec_fn(int) -> Seq<Stroke> {
    |y: int|
        if y == row {
            strokes
        } else {
            Seq::empty()
        }
}

/// One picture and then another.
pub open spec fn over(
    first: spec_fn(int) -> Seq<Stroke>,
    second: spec_fn(int) -> Seq<Stroke>,
) -> spec_fn(int) -> Seq<Stroke> {
    |y: int| first(y) + second(y)
}

proof fn draws_both(
    a: Seq<ChangeView>,
    first: spec_fn(int) -> Seq<Stroke>,
    b: Seq<ChangeView>,
    second: spec_fn(int) -> Seq<Stroke>,
)
    requires
        draws(a, first),
        draws(b, second),
    ensures
        draws(a + b, over(first, second)),
{
    assert forall|i: int| 0 <= i < (a + b).len() implies !(#[trigger] (a + b)[i] is ClearScreen) by {
        if i < a.len() {
            assert((a + b)[i] == a[i]);
        } else {
            assert((a + b)[i] == b[i - a.len()]);
        }
    }
    assert forall|d: Drawing, y: int|
        #![trigger row_of(a + b, d, y)]
        d.pen == plain_pen() implies row_of(a + b, d, y) == over(first, second)(y) by {
        one_after_the_other(a, b, d, y);
        assert(row_of(a, d, y) == first(y));
        assert(row_of(b, after_changes(a, d), y) == second(y));
    }
    assert forall|d: Drawing|
        #![trigger after_changes(a + b, d)]
        d.pen == plain_pen() implies after_changes(a + b, d).pen == plain_pen() by {
        one_after_the_other(a, b, d, 0);
        assert(after_changes(a, d).pen == plain_pen());
    }
}

/// The picture of consecutive rows from `base` on.
pub open spec fn stack(base: int, rows: Seq<Seq<Stroke>>) -> spec_fn(int) -> Seq<Stroke> {
    |y: int|
        if base <= y < base + rows.len() {
            rows[y - base]
        } else {
            Seq::empty()
        }
}

proof fn draws_stack(parts: Seq<Seq<ChangeView>>, base: int, rows: Seq<Seq<Stroke>>)
    requires
        parts.len() == rows.len(),
        forall|i: int|
            0 <= i < parts.len() ==> draws(#[trigger] parts[i], one_row(base + i, rows[i])),
    ensures
        draws(parts.flatten(), stack(base, rows)),
    decreases parts.len(),
{
    broadcast use group_one_by_one;

    if parts.len() == 0 {
        assert(parts.flatten() =~= Seq::<ChangeView>::empty());
    } else {
        let n = parts.len() - 1;
        let front = parts.drop_last();
        let last = parts.last();
        assert forall|i: int| 0 <= i < front.len() implies draws(
            #[trigger] front[i],
            one_row(base + i, rows.drop_last()[i]),
        ) by {
            assert(front[i] == parts[i]);
        }
        draws_stack(front, base, rows.drop_last());
        assert(draws(parts[n], one_row(base + n, rows[n])));
        draws_both(
            front.flatten(),
            stack(base, rows.drop_last()),
            last,
            one_row(base + n, rows[n]),
        );
        assert(parts =~= front.push(last));
        front.lemma_flatten_push(last);
        let both = over(stack(base, rows.drop_last()), one_row(base + n, rows[n]));
        assert forall|y: int| #[trigger] both(y) == stack(base, rows)(y) by {
            assert(both(y) =~= stack(base, rows)(y));
        }
        assert(draws(parts.flatten(), stack(base, rows)));
    }
}

/// A stroke of text in the plain pen, from the left edge on.
pub open spec fn plain_stroke(text: Seq<char>) -> Stroke {
    Stroke::Drawn { x: 0, text, pen: plain_pen() }
}

/// The header row.
pub open spec fn header_strokes(width: nat, title: Seq<char>) -> Seq<Stroke> {
    seq![
        Stroke::Drawn {
            x: 0,
            text: style::padded("  AI Chat — "@ + title, width),
            pen: Pen { reverse: true, intensity: Intensity::Bold, fg: None },
        },
    ]
}

/// A separator row.
pub open spec fn separator_strokes(width: nat) -> Seq<Stroke> {
    seq![
        Stroke::Drawn {
            x: 0,
            text: text::repeated('─', width),
            pen: Pen { fg: Some(AnsiColor::Navy), ..plain_pen() },
        },
    ]
}

/// The stroke of one stretch of a styled line.
pub open spec fn span_stroke(span: style::SpanView) -> Stroke {
    Stroke::Drawn {
        x: 0,
        text: span.text,
        pen: Pen {
            reverse: false,
            intensity: if span.bold {
                Intensity::Bold
            } else if span.dim {
                Intensity::Half
            } else {
                Intensity::Normal
            },
            fg: span.fg,
        },
    }
}

/// The row of a styled line: its stretches in their styles, and the rest of the row cleared.
pub open spec fn line_strokes(line: Seq<style::SpanView>) -> Seq<Stroke> {
    Seq::new(line.len(), |i: int| span_stroke(line[i])).push(Stroke::Cleared)
}

/// The mark that tells how far the transcript is scrolled; none where it is not.
pub open spec fn mark_strokes(width: int, lines: nat) -> Seq<Stroke> {
    let label = " ↑ "@ + text::decimal(lines) + " lines "@;
    if lines == 0 {
        Seq::empty()
    } else {
        seq![
            Stroke::Drawn {
                x: text::max(width - label.len() - 1, 0),
                text: label,
                pen: Pen { intensity: Intensity::Half, ..plain_pen() },
            },
        ]
    }
}

/// The status row: the status, the directive while automation is on, spaces as far as there is room,
/// and the hints.
pub open spec fn status_strokes(
    width: int,
    status: Seq<char>,
    directive: Option<Seq<char>>,
) -> Seq<Stroke> {
    let pen = Pen { intensity: Intensity::Half, ..plain_pen() };
    let left = "  "@ + status + "  "@ + (if directive is Some {
        "/watch: "@ + directive->0 + "  "@
    } else {
        Seq::empty()
    });
    let right = "PgUp/PgDn: scroll  Esc: close"@ + "  "@;
    let gap = text::max(width - left.len() - right.len(), 0) as nat;
    seq![
        Stroke::Drawn { x: 0, text: left, pen },
        Stroke::Drawn { x: 0, text: text::repeated(' ', gap), pen },
        Stroke::Drawn { x: 0, text: right, pen },
    ]
}

/// The first row of the input: the prompt, and the first line behind it.
pub open spec fn prompt_strokes(line: Seq<char>) -> Seq<Stroke> {
    seq![
        Stroke::Drawn {
            x: 0,
            text: "  ❯ "@,
            pen: Pen { reverse: false, intensity: Intensity::Bold, fg: Some(AnsiColor::Aqua) },
        },
        plain_stroke(line),
        Stroke::Cleared,
    ]
}

proof fn header_draws(width: nat, title: Seq<char>)
    ensures
        draws(screen::header(width, title), one_row(0, header_strokes(width, title))),
{
    broadcast use group_one_by_one;

    let part = screen::header(width, title);
    assert(part =~= Seq::<ChangeView>::empty().push(style::move_to(0, 0)).push(ChangeView::Reverse(true)).push(ChangeView::Intensity(Intensity::Bold)).push(ChangeView::Text(style::padded("  AI Chat — "@ + title, width))).push(ChangeView::Reverse(false)).push(ChangeView::Intensity(Intensity::Normal)));
    assert forall|d: Drawing, y: int|
        #![trigger row_of(part, d, y)]
        d.pen == plain_pen() implies row_of(part, d, y) == one_row(
        0,
        header_strokes(width, title),
    )(y) by {
        assert(row_of(part, d, y) =~= one_row(0, header_strokes(width, title))(y));
    }
}

proof fn separator_draws(row: int, width: nat)
    ensures
        draws(style::separator(0, row, width), one_row(row, separator_strokes(width))),
{
    broadcast use group_one_by_one;

    let part = style::separator(0, row, width);
    assert(part =~= Seq::<ChangeView>::empty().push(style::move_to(0, row)).push(ChangeView::Foreground(Some(AnsiColor::Navy))).push(ChangeView::Text(text::repeated('─', width))).push(ChangeView::Foreground(None)));
    assert forall|d: Drawing, y: int|
        #![trigger row_of(part, d, y)]
        d.pen == plain_pen() implies row_of(part, d, y) == one_row(row, separator_strokes(width))(
        y,
    ) by {
        assert(row_of(part, d, y) =~= one_row(row, separator_strokes(width))(y));
    }
}

proof fn blank_draws(row: int)
    ensures
        draws(screen::blank_row(row), one_row(row, seq![Stroke::Cleared])),
{
    broadcast use group_one_by_one;

    let part = screen::blank_row(row);
    assert(part =~= Seq::<ChangeView>::empty().push(style::move_to(0, row)).push(ChangeView::ClearToEndOfLine));
    assert forall|d: Drawing, y: int|
        #![trigger row_of(part, d, y)]
        d.pen == plain_pen() implies row_of(part, d, y) == one_row(row, seq![Stroke::Cleared])(
        y,
    ) by {
        assert(row_of(part, d, y) =~= one_row(row, seq![Stroke::Cleared])(y));
    }
}

proof fn continuation_draws(row: int, line: Seq<char>)
    ensures
        draws(
            screen::continuation_row(row, line),
            one_row(row, seq![plain_stroke("    "@ + line), Stroke::Cleared]),
        ),
{
    broadcast use group_one_by_one;

    let part = screen::continuation_row(row, line);
    assert(part =~= Seq::<ChangeView>::empty().push(style::move_to(0, row)).push(ChangeView::Text("    "@ + line)).push(ChangeView::ClearToEndOfLine));
    assert(seq![plain_stroke("    "@ + line), Stroke::Cleared] =~= Seq::<Stroke>::empty().push(
        plain_stroke("    "@ + line),
    ).push(Stroke::Cleared));
    let strokes = seq![plain_stroke("    "@ + line), Stroke::Cleared];
    assert forall|d: Drawing, y: int|
        #![trigger row_of(part, d, y)]
        d.pen == plain_pen() implies row_of(part, d, y) == one_row(row, strokes)(y) by {
        assert(row_of(part, d, y) =~= one_row(row, strokes)(y));
    }
}

proof fn prompt_draws(row: int, line: Seq<char>)
    ensures
        draws(screen::prompt_row(row, line), one_row(row, prompt_strokes(line))),
{
    broadcast use group_one_by_one;

    let part = screen::prompt_row(row, line);
    assert(part =~= Seq::<ChangeView>::empty().push(style::move_to(0, row)).push(ChangeView::Foreground(Some(AnsiColor::Aqua))).push(ChangeView::Intensity(Intensity::Bold)).push(ChangeView::Text("  ❯ "@)).push(ChangeView::Intensity(Intensity::Normal)).push(ChangeView::Foreground(None)).push(ChangeView::Text(line)).push(ChangeView::ClearToEndOfLine));
    assert forall|d: Drawing, y: int|
        #![trigger row_of(part, d, y)]
        d.pen == plain_pen() implies row_of(part, d, y) == one_row(row, prompt_strokes(line))(
        y,
    ) by {
        assert(row_of(part, d, y) =~= one_row(row, prompt_strokes(line))(y));
    }
}

proof fn mark_draws(width: int, lines: nat)
    ensures
        draws(screen::scroll_mark(width, lines), one_row(2, mark_strokes(width, lines))),
{
    broadcast use group_one_by_one;

    let part = screen::scroll_mark(width, lines);
    let label = screen::scroll_label(lines);
    if lines > 0 {
        assert(part =~= Seq::<ChangeView>::empty().push(
            style::move_to(text::max(width - label.len() - 1, 0), 2),
        ).push(ChangeView::Intensity(Intensity::Half)).push(ChangeView::Text(label)).push(
            ChangeView::Intensity(Intensity::Normal),
        ));
    }
    assert forall|d: Drawing, y: int|
        #![trigger row_of(part, d, y)]
        d.pen == plain_pen() implies row_of(part, d, y) == one_row(2, mark_strokes(width, lines))(
        y,
    ) by {
        assert(row_of(part, d, y) =~= one_row(2, mark_strokes(width, lines))(y));
    }
}

proof fn status_draws(width: int, row: int, status: Seq<char>, directive: Option<Seq<char>>)
    ensures
        draws(
            screen::status_row(width, row, status, directive),
            one_row(row, status_strokes(width, status, directive)),
        ),
{
    broadcast use group_one_by_one;

    let part = screen::status_row(width, row, status, directive);
    let left = screen::status_left(status, directive);
    let right = screen::status_right();
    let gap = text::repeated(' ', text::max(width - (left.len() + right.len()), 0) as nat);
    assert(part =~= Seq::<ChangeView>::empty().push(style::move_to(0, row)).push(ChangeView::Intensity(Intensity::Half)).push(ChangeView::Text(left)).push(ChangeView::Text(gap)).push(ChangeView::Text(right)).push(ChangeView::Intensity(Intensity::Normal)));
    assert forall|d: Drawing, y: int|
        #![trigger row_of(part, d, y)]
        d.pen == plain_pen() implies row_of(part, d, y) == one_row(
        row,
        status_strokes(width, status, directive),
    )(y) by {
        assert(row_of(part, d, y) =~= one_row(row, status_strokes(width, status, directive))(y));
    }
}

proof fn span_draws(span: style::SpanView, d: Drawing, y: int)
    requires
        d.pen == plain_pen(),
        d.x == 0,
    ensures
        clears_nothing(style::span_changes(span)),
        row_of(style::span_changes(span), d, y) == (if d.row == y {
            seq![span_stroke(span)]
        } else {
            Seq::empty()
        }),
        after_changes(style::span_changes(span), d) == d,
{
    broadcast use group_one_by_one;

    let part = style::span_changes(span);
    let none = Seq::<ChangeView>::empty();
    let strength = if span.bold {
        none.push(ChangeView::Intensity(Intensity::Bold))
    } else if span.dim {
        none.push(ChangeView::Intensity(Intensity::Half))
    } else {
        none
    };
    let colored = if span.fg is Some {
        strength.push(ChangeView::Foreground(span.fg))
    } else {
        strength
    };
    assert(part =~= colored.push(ChangeView::Text(span.text)).push(
        ChangeView::Intensity(Intensity::Normal),
    ).push(ChangeView::Foreground(None)));
    let pen = after_changes(colored, d).pen;
    assert(after_changes(strength, d).row == d.row && after_changes(strength, d).x == 0);
    assert(row_of(strength, d, y) =~= Seq::<Stroke>::empty());
    assert(row_of(colored, d, y) =~= Seq::<Stroke>::empty());
    assert(span_stroke(span) == (Stroke::Drawn { x: 0, text: span.text, pen }));
}

proof fn spans_draw(line: Seq<style::SpanView>, d: Drawing, y: int)
    requires
        d.pen == plain_pen(),
        d.x == 0,
    ensures
        clears_nothing(style::line_changes(line)),
        row_of(style::line_changes(line), d, y) == (if d.row == y {
            Seq::new(line.len(), |i: int| span_stroke(line[i]))
        } else {
            Seq::empty()
        }),
        after_changes(style::line_changes(line), d) == d,
    decreases line.len(),
{
    let strokes = Seq::new(line.len(), |i: int| span_stroke(line[i]));
    let all = Seq::new(line.len(), |i: int| style::span_changes(line[i]));
    if line.len() == 0 {
        assert(all =~= Seq::<Seq<ChangeView>>::empty());
        assert(style::line_changes(line) =~= Seq::<ChangeView>::empty());
        assert(strokes =~= Seq::<Stroke>::empty());
    } else {
        let front = line.drop_last();
        let span = line.last();
        let base = style::line_changes(front);
        let tail = style::span_changes(span);
        spans_draw(front, d, y);
        span_draws(span, d, y);
        let parts = Seq::new(front.len(), |i: int| style::span_changes(front[i]));
        assert(all =~= parts.push(tail));
        parts.lemma_flatten_push(tail);
        assert(style::line_changes(line) == base + tail);
        assert forall|i: int| 0 <= i < (base + tail).len() implies !(#[trigger] (base
            + tail)[i] is ClearScreen) by {
            if i < base.len() {
                assert((base + tail)[i] == base[i]);
            } else {
                assert((base + tail)[i] == tail[i - base.len()]);
            }
        }
        one_after_the_other(base, tail, d, y);
        let before = Seq::new(front.len(), |i: int| span_stroke(front[i]));
        assert(strokes =~= before + seq![span_stroke(span)]);
        if d.row != y {
            assert(row_of(style::line_changes(line), d, y) =~= Seq::<Stroke>::empty());
        }
    }
}

proof fn line_draws(line: Seq<style::SpanView>, row: int)
    ensures
        draws(screen::line_row(line, row), one_row(row, line_strokes(line))),
{
    broadcast use group_one_by_one;

    let part = screen::line_row(line, row);
    let start = seq![style::move_to(0, row)];
    let middle = style::line_changes(line);
    let whole = (start + middle).push(ChangeView::ClearToEndOfLine);
    assert(part =~= whole);
    let d0 = Drawing { x: 0, row, pen: plain_pen() };
    spans_draw(line, d0, row);
    assert forall|i: int| 0 <= i < part.len() implies !(#[trigger] part[i] is ClearScreen) by {
        if 0 < i < part.len() - 1 {
            assert(part[i] == middle[i - 1]);
        }
    }
    assert forall|d: Drawing, y: int|
        #![trigger row_of(part, d, y)]
        d.pen == plain_pen() implies row_of(part, d, y) == one_row(row, line_strokes(line))(y) by {
        one_after_the_other(start, middle, d, y);
        assert(after_changes(start, d) == d0);
        spans_draw(line, d0, y);
        assert(row_of(part, d, y) =~= one_row(row, line_strokes(line))(y));
    }
    assert forall|d: Drawing|
        #![trigger after_changes(part, d)]
        d.pen == plain_pen() implies after_changes(part, d).pen == plain_pen() by {
        one_after_the_other(start, middle, d, 0);
        assert(after_changes(start, d) == d0);
    }
}

/// The rows of the screen, one by one.
pub open spec fn expected_row(frame: screen::FrameView, cols: usize, rows: usize, y: int) -> Seq<
    Stroke,
> {
    let layout = screen::layout_of(cols, rows);
    let width = layout.width as int;
    let split = layout.split as int;
    let height = split - 2;
    let total = frame.lines.len() as int;
    let scrolled = text::min(frame.scroll_offset, text::max(total - height, 0));
    let first = text::max(total - height - scrolled, 0);
    let mark = if y == 2 {
        mark_strokes(width, scrolled as nat)
    } else {
        Seq::empty()
    };
    if y == 0 {
        header_strokes(width as nat, frame.title)
    } else if y == 1 || y == split || y == split + 2 {
        separator_strokes(width as nat)
    } else if 2 <= y < split {
        if y - 2 < total {
            line_strokes(frame.lines[first + (y - 2)]) + mark
        } else {
            seq![Stroke::Cleared]
        }
    } else if y == split + 1 {
        status_strokes(width, frame.status, frame.directive)
    } else if y == split + 3 {
        prompt_strokes(frame.input[0])
    } else if split + 3 < y < layout.height {
        if y - (split + 3) < frame.input.len() {
            seq![plain_stroke("    "@ + frame.input[y - (split + 3)]), Stroke::Cleared]
        } else {
            seq![Stroke::Cleared]
        }
    } else {
        Seq::empty()
    }
}

proof fn lines_draw(lines: Seq<Seq<style::SpanView>>)
    ensures
        draws(
            screen::line_rows(lines),
            stack(2, Seq::new(lines.len(), |i: int| line_strokes(lines[i]))),
        ),
{
    let parts = Seq::new(lines.len(), |i: int| screen::line_row(lines[i], 2 + i));
    let rows = Seq::new(lines.len(), |i: int| line_strokes(lines[i]));
    assert forall|i: int| 0 <= i < parts.len() implies draws(
        #[trigger] parts[i],
        one_row(2 + i, rows[i]),
    ) by {
        line_draws(lines[i], 2 + i);
    }
    draws_stack(parts, 2, rows);
}

proof fn blanks_draw(from: int, to: int)
    ensures
        draws(
            screen::blank_rows(from, to),
            stack(from, Seq::new(text::max(to - from, 0) as nat, |i: int| seq![Stroke::Cleared])),
        ),
{
    let n = text::max(to - from, 0) as nat;
    let parts = Seq::new(n, |i: int| screen::blank_row(from + i));
    let rows = Seq::new(n, |i: int| seq![Stroke::Cleared]);
    assert forall|i: int| 0 <= i < parts.len() implies draws(
        #[trigger] parts[i],
        one_row(from + i, rows[i]),
    ) by {
        blank_draws(from + i);
    }
    draws_stack(parts, from, rows);
}

/// The rows of the input from row `first` on, on a screen of `height` rows.
pub open spec fn input_row(input: Seq<Seq<char>>, first: int, height: int, y: int) -> Seq<Stroke> {
    if y == first {
        prompt_strokes(input[0])
    } else if first < y < height {
        if y - first < input.len() {
            seq![plain_stroke("    "@ + input[y - first]), Stroke::Cleared]
        } else {
            seq![Stroke::Cleared]
        }
    } else {
        Seq::empty()
    }
}

proof fn input_draws(input: Seq<Seq<char>>, first: int, height: int)
    requires
        input.len() >= 1,
        first < height,
    ensures
        draws(
            screen::input_rows(input, first, height),
            |y: int| input_row(input, first, height, y),
        ),
{
    let fitting = text::min(input.len() as int, height - first);
    let n = (fitting - 1) as nat;
    let parts = Seq::new(n, |i: int| screen::continuation_row(first + 1 + i, input[i + 1]));
    let rows = Seq::new(n, |i: int| seq![plain_stroke("    "@ + input[i + 1]), Stroke::Cleared]);
    assert forall|i: int| 0 <= i < parts.len() implies draws(
        #[trigger] parts[i],
        one_row(first + 1 + i, rows[i]),
    ) by {
        continuation_draws(first + 1 + i, input[i + 1]);
    }
    draws_stack(parts, first + 1, rows);
    prompt_draws(first, input[0]);
    blanks_draw(first + input.len(), height);
    let a = one_row(first, prompt_strokes(input[0]));
    let b = stack(first + 1, rows);
    let blanks = Seq::new(
        text::max(height - (first + input.len()), 0) as nat,
        |i: int| seq![Stroke::Cleared],
    );
    let c = stack(first + input.len(), blanks);
    draws_both(screen::prompt_row(first, input[0]), a, parts.flatten(), b);
    draws_both(
        screen::prompt_row(first, input[0]) + parts.flatten(),
        over(a, b),
        screen::blank_rows(first + input.len(), height),
        c,
    );
    let whole = |y: int| input_row(input, first, height, y);
    assert forall|y: int| #[trigger] over(over(a, b), c)(y) == whole(y) by {
        assert(over(over(a, b), c)(y) =~= whole(y));
    }
    assert(draws(screen::input_rows(input, first, height), whole));
}

proof fn upper_draws(frame: screen::FrameView, layout: screen::Layout)
    requires
        frame.scroll_offset >= 0,
        layout.transcript_height >= 1,
    ensures
        ({
            let total = frame.lines.len() as int;
            let height = layout.transcript_height as int;
            let width = layout.width as int;
            let scrolled = text::min(frame.scroll_offset, text::max(total - height, 0));
            let first = text::max(total - height - scrolled, 0);
            let lo = screen::first_shown(total, height, frame.scroll_offset);
            let count = screen::shown(total, height);
            draws(
                screen::line_rows(frame.lines.subrange(lo, lo + count)) + screen::blank_rows(
                    2 + count,
                    2 + height,
                ) + screen::scroll_mark(
                    width,
                    screen::scroll(total, height, frame.scroll_offset) as nat,
                ),
                |y: int| transcript_row(frame.lines, first, scrolled, height, width, y),
            )
        }),
{
    let total = frame.lines.len() as int;
    let height = layout.transcript_height as int;
    let width = layout.width as int;
    let scrolled = text::min(frame.scroll_offset, text::max(total - height, 0));
    let first = text::max(total - height - scrolled, 0);
    let lo = screen::first_shown(total, height, frame.scroll_offset);
    let count = screen::shown(total, height);
    let part = frame.lines.subrange(lo, lo + count);
    let rows = Seq::new(part.len(), |i: int| line_strokes(part[i]));
    let blanks = Seq::new(
        text::max(2 + height - (2 + count), 0) as nat,
        |i: int| seq![Stroke::Cleared],
    );
    lines_draw(part);
    blanks_draw(2 + count, 2 + height);
    mark_draws(width, scrolled as nat);
    let a = stack(2, rows);
    let b = stack(2 + count, blanks);
    let c = one_row(2, mark_strokes(width, scrolled as nat));
    draws_both(screen::line_rows(part), a, screen::blank_rows(2 + count, 2 + height), b);
    draws_both(
        screen::line_rows(part) + screen::blank_rows(2 + count, 2 + height),
        over(a, b),
        screen::scroll_mark(width, scrolled as nat),
        c,
    );
    let whole = |y: int| transcript_row(frame.lines, first, scrolled, height, width, y);
    assert forall|y: int| #[trigger] over(over(a, b), c)(y) == whole(y) by {
        assert(over(over(a, b), c)(y) =~= whole(y));
    }
}

/// The rows of the transcript, which begin in row 2: as many lines from `first` on as there is room
/// for, and in the topmost row the mark that tells how far it is scrolled.
pub open spec fn transcript_row(
    lines: Seq<Seq<style::SpanView>>,
    first: int,
    scrolled: int,
    height: int,
    width: int,
    y: int,
) -> Seq<Stroke> {
    (if 2 <= y < 2 + height {
        if y - 2 < lines.len() {
            line_strokes(lines[first + (y - 2)])
        } else {
            seq![Stroke::Cleared]
        }
    } else {
        Seq::empty()
    }) + (if y == 2 {
        mark_strokes(width, scrolled as nat)
    } else {
        Seq::empty()
    })
}

/// What the screen looks like, row by row: the header; the transcript between two separators, as
/// much of it as there is room for and as far up as it is scrolled; the status; and below another
/// separator the input behind its prompt, as much of it as there is room for.
pub proof fn the_screen_looks_like_this(
    frame: screen::FrameView,
    cols: usize,
    rows: usize,
    d: Drawing,
    y: int,
)
    requires
        frame.input.len() >= 1,
        frame.scroll_offset >= 0,
    ensures
        row_of(screen::screen(frame, screen::layout_of(cols, rows)), d, y) == expected_row(
            frame,
            cols,
            rows,
            y,
        ),
{
    let layout = screen::layout_of(cols, rows);
    screen::layout_covers_the_screen(cols, rows);
    let w = layout.width as nat;
    let split = layout.split as int;
    let total = frame.lines.len() as int;
    let height = layout.transcript_height as int;
    let scrolled = text::min(frame.scroll_offset, text::max(total - height, 0));
    let first = text::max(total - height - scrolled, 0);
    let lo = screen::first_shown(total, height, frame.scroll_offset);
    let count = screen::shown(total, height);
    let start = seq![ChangeView::ClearScreen, ChangeView::ShowCursor(false)];
    let s1 = screen::header(w, frame.title);
    let s2 = style::separator(0, 1, w);
    let l1 = screen::line_rows(frame.lines.subrange(lo, lo + count));
    let l2 = screen::blank_rows(2 + count, 2 + height);
    let l3 = screen::scroll_mark(
        w as int,
        screen::scroll(total, height, frame.scroll_offset) as nat,
    );
    let s3 = l1 + l2 + l3;
    let s4 = style::separator(0, split, w);
    let s5 = screen::status_row(w as int, split + 1, frame.status, frame.directive);
    let s6 = style::separator(0, split + 2, w);
    let s7 = screen::input_rows(
        frame.input,
        layout.input_first_row as int,
        layout.height as int,
    );
    let end = seq![
        screen::cursor_position(
            frame.cursor,
            layout.input_first_row as int,
            w as int,
            layout.height as int,
        ),
        ChangeView::ShowCursor(true),
    ];
    header_draws(w, frame.title);
    separator_draws(1, w);
    upper_draws(frame, layout);
    separator_draws(split, w);
    status_draws(w as int, split + 1, frame.status, frame.directive);
    separator_draws(split + 2, w);
    input_draws(frame.input, layout.input_first_row as int, layout.height as int);
    let p1 = one_row(0, header_strokes(w, frame.title));
    let p2 = one_row(1, separator_strokes(w));
    let p3 = |y: int| transcript_row(frame.lines, first, scrolled, height, w as int, y);
    let p4 = one_row(split, separator_strokes(w));
    let p5 = one_row(split + 1, status_strokes(w as int, frame.status, frame.directive));
    let p6 = one_row(split + 2, separator_strokes(w));
    let p7 = |y: int|
        input_row(frame.input, layout.input_first_row as int, layout.height as int, y);
    draws_both(s1, p1, s2, p2);
    draws_both(s1 + s2, over(p1, p2), s3, p3);
    let q3 = over(over(p1, p2), p3);
    draws_both(s1 + s2 + s3, q3, s4, p4);
    draws_both(s1 + s2 + s3 + s4, over(q3, p4), s5, p5);
    let q5 = over(over(q3, p4), p5);
    draws_both(s1 + s2 + s3 + s4 + s5, q5, s6, p6);
    draws_both(s1 + s2 + s3 + s4 + s5 + s6, over(q5, p6), s7, p7);
    let body = s1 + s2 + s3 + s4 + s5 + s6 + s7;
    let whole = screen::screen(frame, layout);
    assert(whole =~= start + body + end);
    begins_clear(d, y);
    one_after_the_other(start, body, d, y);
    ends_quietly(end, after_changes(start + body, d), y);
    one_after_the_other(start + body, end, d, y);
    let seen = over(over(q5, p6), p7)(y);
    assert(row_of(body, after_changes(start, d), y) == seen);
    assert(row_of(whole, d, y) =~= seen);
    assert(seen =~= p1(y) + p2(y) + p3(y) + p4(y) + p5(y) + p6(y) + p7(y));
    assert(seen =~= expected_row(frame, cols, rows, y));
}

proof fn begins_clear(d: Drawing, y: int)
    ensures
        ({
            let start = seq![ChangeView::ClearScreen, ChangeView::ShowCursor(false)];
            &&& row_of(start, d, y) == Seq::<Stroke>::empty()
            &&& after_changes(start, d).pen == plain_pen()
        }),
{
    broadcast use group_one_by_one;

    assert(seq![ChangeView::ClearScreen, ChangeView::ShowCursor(false)] =~= Seq::<
        ChangeView,
    >::empty().push(ChangeView::ClearScreen).push(ChangeView::ShowCursor(false)));
}

proof fn ends_quietly(end: Seq<ChangeView>, d: Drawing, y: int)
    requires
        end.len() == 2,
        end[0] is CursorPosition,
        end[1] is ShowCursor,
    ensures
        clears_nothing(end),
        row_of(end, d, y) == Seq::<Stroke>::empty(),
{
    broadcast use group_one_by_one;

    assert(end =~= Seq::<ChangeView>::empty().push(end[0]).push(end[1]));
}

/// The drawing begins by clearing the screen and hiding the cursor, and ends by showing it where the
/// input has it, four columns in and below the separator, as far as the screen goes; or in the upper
/// left corner where no line of the input holds it.
pub proof fn the_cursor_ends_in_the_input(frame: screen::FrameView, cols: usize, rows: usize)
    requires
        frame.input.len() >= 1,
    ensures
        ({
            let layout = screen::layout_of(cols, rows);
            let drawn = screen::screen(frame, layout);
            &&& drawn.len() > 4
            &&& drawn[0] is ClearScreen
            &&& drawn[1] == ChangeView::ShowCursor(false)
            &&& drawn.last() == ChangeView::ShowCursor(true)
            &&& drawn[drawn.len() - 2] == (match frame.cursor {
                Some((row, columns)) => ChangeView::CursorPosition {
                    x: text::min(4 + columns, layout.width - 1),
                    y: text::min(layout.split + 3 + row, layout.height - 1),
                },
                None => ChangeView::CursorPosition { x: 0, y: 0 },
            })
        }),
{
}

/// The changes that an overlay draws itself with leave just that on the screen.
pub proof fn drawing_leaves_the_screen(
    frame: &screen::Frame,
    cols: usize,
    rows: usize,
    changes: Vec<style::Change>,
    d: Drawing,
    y: int,
)
    requires
        call_ensures(screen::Frame::draw, (frame, cols, rows), changes),
        frame.input@.len() >= 1,
    ensures
        row_of(style::change_views(changes@), d, y) == expected_row(frame@, cols, rows, y),
{
    assert(text::texts(frame.input@).len() == frame.input@.len());
    the_screen_looks_like_this(frame@, cols, rows, d, y);
}

/// An overlay leaves on the screen what its state shows.
pub proof fn an_overlay_leaves_its_state_on_the_screen(
    o: &AiChatOverlay,
    cols: usize,
    rows: usize,
    changes: Vec<style::Change>,
    d: Drawing,
    y: int,
)
    requires
        call_ensures(AiChatOverlay::render, (o, cols, rows), changes),
        o@.well_formed(),
    ensures
        row_of(style::change_views(changes@), d, y) == expected_row(
            o@.frame(cols, rows),
            cols,
            rows,
            y,
        ),
        style::change_views(changes@) == screen::screen(
            o@.frame(cols, rows),
            screen::layout_of(cols, rows),
        ),
{
    the_screen_looks_like_this(o@.frame(cols, rows), cols, rows, d, y);
}

} // verus!
