//! Changes to the screen, and lines of styled text.

use crate::text;
use vstd::prelude::*;
use vstd::string::*;

verus! {

/// A color of the terminal's palette.
#[derive(Clone, Copy, Debug, PartialEq, Eq, Structural)]
pub enum AnsiColor {
    Black,
    Maroon,
    Green,
    Olive,
    Navy,
    Purple,
    Teal,
    Silver,
    Grey,
    Red,
    Lime,
    Yellow,
    Blue,
    Fuchsia,
    Aqua,
    White,
}

/// How strong text is drawn.
#[derive(Clone, Copy, Debug, PartialEq, Eq, Structural)]
pub enum Intensity {
    Normal,
    Bold,
    Half,
}

/// A change to the screen, in the terminal's default colors unless it says otherwise.
#[derive(Debug, PartialEq, Eq)]
pub enum Change {
    Title(String),
    ClearScreen,
    ShowCursor(bool),
    CursorPosition { x: usize, y: usize },
    Reverse(bool),
    Intensity(Intensity),
    Foreground(Option<AnsiColor>),
    Text(String),
    ClearToEndOfLine,
}

/// The meaning of a [`Change`].
pub ghost enum ChangeView {
    Title(Seq<char>),
    ClearScreen,
    ShowCursor(bool),
    CursorPosition { x: int, y: int },
    Reverse(bool),
    Intensity(Intensity),
    Foreground(Option<AnsiColor>),
    Text(Seq<char>),
    ClearToEndOfLine,
}

impl View for Change {
    type V = ChangeView;

    open spec fn view(&self) -> ChangeView {
        match self {
            Change::Title(title) => ChangeView::Title(title@),
            Change::ClearScreen => ChangeView::ClearScreen,
            Change::ShowCursor(visible) => ChangeView::ShowCursor(*visible),
            Change::CursorPosition { x, y } => ChangeView::CursorPosition {
                x: *x as int,
                y: *y as int,
            },
            Change::Reverse(on) => ChangeView::Reverse(*on),
            Change::Intensity(intensity) => ChangeView::Intensity(*intensity),
            Change::Foreground(color) => ChangeView::Foreground(*color),
            Change::Text(text) => ChangeView::Text(text@),
            Change::ClearToEndOfLine => ChangeView::ClearToEndOfLine,
        }
    }
}

/// The meanings of a list of changes.
pub open spec fn change_views(changes: Seq<Change>) -> Seq<ChangeView> {
    Seq::new(changes.len(), |i: int| changes[i]@)
}

/// Appends one change.
pub(crate) fn put(changes: &mut Vec<Change>, change: Change)
    ensures
        change_views(final(changes)@) == change_views(old(changes)@).push(change@),
{
    changes.push(change);
    assert(change_views(changes@) =~= change_views(old(changes)@).push(change@));
}

/// Moving the cursor to column `x` of row `y`.
pub open spec fn move_to(x: int, y: int) -> ChangeView {
    ChangeView::CursorPosition { x, y }
}

/// Appends a move of the cursor to column `x` of row `y`.
pub fn at(changes: &mut Vec<Change>, x: usize, y: usize)
    ensures
        change_views(final(changes)@) == change_views(old(changes)@).push(
            move_to(x as int, y as int),
        ),
{
    put(changes, Change::CursorPosition { x, y });
}

/// A line across `width` columns of row `y`, from column `x` on.
pub open spec fn separator(x: int, y: int, width: nat) -> Seq<ChangeView> {
    seq![
        move_to(x, y),
        ChangeView::Foreground(Some(AnsiColor::Navy)),
        ChangeView::Text(text::repeated('─', width)),
        ChangeView::Foreground(None),
    ]
}

/// Appends a line across `width` columns of row `y`, from column `x` on.
pub fn draw_separator(changes: &mut Vec<Change>, x: usize, y: usize, width: usize)
    ensures
        change_views(final(changes)@) == change_views(old(changes)@) + separator(
            x as int,
            y as int,
            width as nat,
        ),
{
    at(changes, x, y);
    put(changes, Change::Foreground(Some(AnsiColor::Navy)));
    put(changes, Change::Text(text::repeat_char('─', width)));
    put(changes, Change::Foreground(None));
    assert(change_views(changes@) =~= change_views(old(changes)@) + separator(
        x as int,
        y as int,
        width as nat,
    ));
}

/// `s` cut or filled up with spaces to exactly `width` characters.
pub open spec fn padded(s: Seq<char>, width: nat) -> Seq<char> {
    if s.len() >= width {
        s.take(width as int)
    } else {
        s + text::repeated(' ', (width - s.len()) as nat)
    }
}

/// `s` cut or filled up with spaces to exactly `width` characters.
pub fn pad_right(s: &str, width: usize) -> (r: String)
    ensures
        r@ == padded(s@, width as nat),
        r@.len() == width,
{
    let len: usize = s.unicode_len();
    if len >= width {
        let (front, _) = text::cut_at(s, width);
        front.to_owned()
    } else {
        s.to_owned().concat(text::repeat_char(' ', width - len).as_str())
    }
}

/// A stretch of text in one style.
#[derive(Debug, PartialEq, Eq)]
pub struct StyledSpan {
    pub text: String,
    pub fg: Option<AnsiColor>,
    pub bold: bool,
    pub dim: bool,
}

/// A line made of styled stretches.
#[derive(Debug, PartialEq, Eq)]
pub struct StyledLine(pub Vec<StyledSpan>);

/// The meaning of a [`StyledSpan`].
pub ghost struct SpanView {
    pub text: Seq<char>,
    pub fg: Option<AnsiColor>,
    pub bold: bool,
    pub dim: bool,
}

impl View for StyledSpan {
    type V = SpanView;

    open spec fn view(&self) -> SpanView {
        SpanView { text: self.text@, fg: self.fg, bold: self.bold, dim: self.dim }
    }
}

impl View for StyledLine {
    type V = Seq<SpanView>;

    open spec fn view(&self) -> Seq<SpanView> {
        Seq::new(self.0@.len(), |i: int| self.0@[i]@)
    }
}

/// The meanings of a list of lines.
pub open spec fn line_views(lines: Seq<StyledLine>) -> Seq<Seq<SpanView>> {
    Seq::new(lines.len(), |i: int| lines[i]@)
}

/// A line of plain text.
pub open spec fn plain_line(text: Seq<char>) -> Seq<SpanView> {
    seq![SpanView { text, fg: None, bold: false, dim: false }]
}

/// A line of colored text.
pub open spec fn colored_line(text: Seq<char>, fg: AnsiColor, bold: bool) -> Seq<SpanView> {
    seq![SpanView { text, fg: Some(fg), bold, dim: false }]
}

/// A line of dim text.
pub open spec fn dim_line(text: Seq<char>, fg: AnsiColor) -> Seq<SpanView> {
    seq![SpanView { text, fg: Some(fg), bold: false, dim: true }]
}

/// The changes that draw one stretch: its intensity and color, its text, then the defaults again.
pub open spec fn span_changes(span: SpanView) -> Seq<ChangeView> {
    (if span.bold {
        seq![ChangeView::Intensity(Intensity::Bold)]
    } else if span.dim {
        seq![ChangeView::Intensity(Intensity::Half)]
    } else {
        Seq::empty()
    }) + (match span.fg {
        Some(fg) => seq![ChangeView::Foreground(Some(fg))],
        None => Seq::empty(),
    }) + seq![
        ChangeView::Text(span.text),
        ChangeView::Intensity(Intensity::Normal),
        ChangeView::Foreground(None),
    ]
}

/// The changes that draw a line: those of its stretches, in order.
pub open spec fn line_changes(line: Seq<SpanView>) -> Seq<ChangeView> {
    Seq::new(line.len(), |i: int| span_changes(line[i])).flatten()
}

impl StyledLine {
    fn single(span: StyledSpan) -> (line: Self)
        ensures
            line@ == seq![span@],
    {
        let mut spans: Vec<StyledSpan> = Vec::new();
        spans.push(span);
        let line = StyledLine(spans);
        assert(line@ =~= seq![span@]);
        line
    }

    /// A line of plain text.
    pub fn plain(text: String) -> (line: Self)
        ensures
            line@ == plain_line(text@),
    {
        StyledLine::single(StyledSpan { text, fg: None, bold: false, dim: false })
    }

    /// A line of colored text.
    pub fn colored(text: String, fg: AnsiColor, bold: bool) -> (line: Self)
        ensures
            line@ == colored_line(text@, fg, bold),
    {
        StyledLine::single(StyledSpan { text, fg: Some(fg), bold, dim: false })
    }

    /// A line of dim text.
    pub fn dim(text: String, fg: AnsiColor) -> (line: Self)
        ensures
            line@ == dim_line(text@, fg),
    {
        StyledLine::single(StyledSpan { text, fg: Some(fg), bold: false, dim: true })
    }

    /// Appends the changes that draw the line.
    pub fn emit(&self, changes: &mut Vec<Change>)
        ensures
            change_views(final(changes)@) == change_views(old(changes)@) + line_changes(self@),
    {
        let ghost start = change_views(changes@);
        let ghost drawn = Seq::new(self@.len(), |i: int| span_changes(self@[i]));
        let mut i: usize = 0;
        assert(drawn.take(0) =~= Seq::<Seq<ChangeView>>::empty());
        while i < self.0.len()
            invariant
                i <= self.0@.len(),
                self@.len() == self.0@.len(),
                drawn == Seq::new(self@.len(), |i: int| span_changes(self@[i])),
                change_views(changes@) =~= start + drawn.take(i as int).flatten(),
            decreases self.0@.len() - i,
        {
            let ghost before = change_views(changes@);
            let span = &self.0[i];
            assert(self@[i as int] == span@);
            if span.bold {
                put(changes, Change::Intensity(Intensity::Bold));
            } else if span.dim {
                put(changes, Change::Intensity(Intensity::Half));
            }
            if let Some(fg) = span.fg {
                put(changes, Change::Foreground(Some(fg)));
            }
            put(changes, Change::Text(span.text.clone()));
            put(changes, Change::Intensity(Intensity::Normal));
            put(changes, Change::Foreground(None));
            assert(change_views(changes@) =~= before + span_changes(span@));
            proof {
                assert(drawn.take(i + 1) =~= drawn.take(i as int).push(drawn[i as int]));
                drawn.take(i as int).lemma_flatten_push(drawn[i as int]);
            }
            i = i + 1;
        }
        assert(drawn.take(self.0@.len() as int) =~= drawn);
    }
}

/// A line without text.
impl Default for StyledLine {
    fn default() -> (line: Self)
        ensures
            line@ == Seq::<SpanView>::empty(),
    {
        let line = StyledLine(Vec::new());
        assert(line@ =~= Seq::<SpanView>::empty());
        line
    }
}

/// Padded text has exactly the asked-for length: it begins like the text, and behind its end there
/// are spaces.
pub proof fn padding_keeps_the_front(s: Seq<char>, width: nat)
    ensures
        padded(s, width).len() == width,
        forall|i: int| 0 <= i < width && i < s.len() ==> #[trigger] padded(s, width)[i] == s[i],
        forall|i: int| s.len() <= i < width ==> #[trigger] padded(s, width)[i] == ' ',
{
}

/// Padding a text gives that.
pub proof fn padding_gives_padded_text(s: &str, width: usize, r: String)
    requires
        call_ensures(pad_right, (s, width), r),
    ensures
        r@.len() == width,
        forall|i: int| 0 <= i < width && i < s@.len() ==> #[trigger] r@[i] == s@[i],
        forall|i: int| s@.len() <= i < width ==> #[trigger] r@[i] == ' ',
{
    padding_keeps_the_front(s@, width as nat);
}

/// A separator is a line of the asked-for length where it was asked for, in its own color, and the
/// color is put back.
pub proof fn separators_are_lines(x: int, y: int, width: nat)
    ensures
        separator(x, y, width).len() == 4,
        separator(x, y, width)[0] == (ChangeView::CursorPosition { x, y }),
        separator(x, y, width)[1] == ChangeView::Foreground(Some(AnsiColor::Navy)),
        separator(x, y, width)[2] matches ChangeView::Text(line) && line.len() == width && forall|
            i: int,
        |
            0 <= i < width ==> #[trigger] line[i] == '─',
        separator(x, y, width)[3] == ChangeView::Foreground(None),
{
}

/// Lines of one style hold their text in one stretch, in that style.
pub proof fn lines_of_one_style(
    text: String,
    fg: AnsiColor,
    bold: bool,
    plain: StyledLine,
    colored: StyledLine,
    dim: StyledLine,
    empty: StyledLine,
)
    requires
        call_ensures(StyledLine::plain, (text,), plain),
        call_ensures(StyledLine::colored, (text, fg, bold), colored),
        call_ensures(StyledLine::dim, (text, fg), dim),
        call_ensures(StyledLine::default, (), empty),
    ensures
        plain.0@.len() == 1 && plain.0@[0].text@ == text@ && plain.0@[0].fg is None
            && !plain.0@[0].bold && !plain.0@[0].dim,
        colored.0@.len() == 1 && colored.0@[0].text@ == text@ && colored.0@[0].fg == Some(fg)
            && colored.0@[0].bold == bold && !colored.0@[0].dim,
        dim.0@.len() == 1 && dim.0@[0].text@ == text@ && dim.0@[0].fg == Some(fg)
            && !dim.0@[0].bold && dim.0@[0].dim,
        empty.0@.len() == 0,
{
    assert(plain@.len() == 1 && colored@.len() == 1 && dim@.len() == 1 && empty@.len() == 0);
    assert(plain@[0] == plain.0@[0]@);
    assert(colored@[0] == colored.0@[0]@);
    assert(dim@[0] == dim.0@[0]@);
}

/// A line is drawn stretch by stretch: each sets its intensity and color where it has its own, shows
/// its text, and sets both back. Bold goes before dim.
pub proof fn lines_are_drawn_stretch_by_stretch(line: Seq<SpanView>, span: SpanView)
    ensures
        line_changes(Seq::empty()) == Seq::<ChangeView>::empty(),
        ({
            let strength = if span.bold {
                seq![ChangeView::Intensity(Intensity::Bold)]
            } else if span.dim {
                seq![ChangeView::Intensity(Intensity::Half)]
            } else {
                Seq::empty()
            };
            let color = if span.fg is Some {
                seq![ChangeView::Foreground(span.fg)]
            } else {
                Seq::empty()
            };
            line_changes(line.push(span)) == line_changes(line) + (strength + color + seq![
                ChangeView::Text(span.text),
                ChangeView::Intensity(Intensity::Normal),
                ChangeView::Foreground(None),
            ])
        }),
{
    let longer = line.push(span);
    let before = Seq::new(line.len(), |i: int| span_changes(line[i]));
    let after = Seq::new(longer.len(), |i: int| span_changes(longer[i]));
    assert(after =~= before.push(span_changes(span)));
    before.lemma_flatten_push(span_changes(span));
    let none = Seq::<SpanView>::empty();
    assert(Seq::new(none.len(), |i: int| span_changes(none[i])) =~= Seq::<
        Seq<ChangeView>,
    >::empty());
}

/// A change means what it holds.
pub proof fn meaning_of_a_change(change: Change)
    ensures
        change matches Change::Title(title) ==> change@ == ChangeView::Title(title@),
        change is ClearScreen ==> change@ is ClearScreen,
        change matches Change::ShowCursor(on) ==> change@ == ChangeView::ShowCursor(on),
        change matches Change::CursorPosition { x, y } ==> change@ == (
        ChangeView::CursorPosition { x: x as int, y: y as int }),
        change matches Change::Reverse(on) ==> change@ == ChangeView::Reverse(on),
        change matches Change::Intensity(i) ==> change@ == ChangeView::Intensity(i),
        change matches Change::Foreground(fg) ==> change@ == ChangeView::Foreground(fg),
        change matches Change::Text(text) ==> change@ == ChangeView::Text(text@),
        change is ClearToEndOfLine ==> change@ is ClearToEndOfLine,
{
}

/// A styled line means its stretches in order, each with its text and style.
pub proof fn meaning_of_a_line(line: StyledLine, i: int)
    requires
        0 <= i < line.0@.len(),
    ensures
        line@.len() == line.0@.len(),
        line@[i].text == line.0@[i].text@,
        line@[i].fg == line.0@[i].fg,
        line@[i].bold == line.0@[i].bold,
        line@[i].dim == line.0@[i].dim,
{
}

} // verus!
