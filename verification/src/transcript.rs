//! The conversation so far, and the lines that show it.

use crate::style::{AnsiColor, StyledLine};
use crate::{style, text, wrap};
use vstd::prelude::*;
use vstd::string::*;

verus! {

/// Who speaks.
#[derive(Clone, Copy, Debug, PartialEq, Eq, Structural)]
pub enum Role {
    User,
    Assistant,
    System,
}

/// One contribution to the conversation.
#[derive(Debug, PartialEq, Eq)]
pub struct TranscriptEntry {
    pub role: Role,
    pub text: String,
}

/// The meaning of a [`TranscriptEntry`].
pub ghost struct EntryView {
    pub role: Role,
    pub text: Seq<char>,
}

impl View for TranscriptEntry {
    type V = EntryView;

    open spec fn view(&self) -> EntryView {
        EntryView { role: self.role, text: self.text@ }
    }
}

/// The meanings of a list of entries.
pub open spec fn entry_views(entries: Seq<TranscriptEntry>) -> Seq<EntryView> {
    Seq::new(entries.len(), |i: int| entries[i]@)
}

/// The lines that stand above the text of an entry: a blank one and the speaker's name; none for
/// the system.
pub open spec fn entry_head(role: Role) -> Seq<Seq<style::SpanView>> {
    match role {
        Role::User => seq![
            Seq::empty(),
            style::colored_line("  You"@, AnsiColor::Aqua, true),
        ],
        Role::Assistant => seq![
            Seq::empty(),
            style::colored_line("  AI"@, AnsiColor::Lime, true),
        ],
        Role::System => Seq::empty(),
    }
}

/// One line of the text of an entry: indented, and dim for the system.
pub open spec fn entry_line(role: Role, line: Seq<char>) -> Seq<style::SpanView> {
    match role {
        Role::System => style::dim_line("  "@ + line, AnsiColor::Yellow),
        _ => style::plain_line("    "@ + line),
    }
}

/// The lines that show an entry whose text is broken into `lines`.
pub open spec fn entry_lines(role: Role, lines: Seq<Seq<char>>) -> Seq<Seq<style::SpanView>> {
    entry_head(role) + Seq::new(lines.len(), |i: int| entry_line(role, lines[i]))
}

/// The lines that show an entry whose text is broken into `lines`.
pub fn style_entry(role: Role, lines: &Vec<String>) -> (r: Vec<StyledLine>)
    ensures
        style::line_views(r@) == entry_lines(role, text::texts(lines@)),
{
    let mut r: Vec<StyledLine> = Vec::new();
    match role {
        Role::User => {
            r.push(StyledLine::default());
            r.push(StyledLine::colored("  You".to_owned(), AnsiColor::Aqua, true));
        },
        Role::Assistant => {
            r.push(StyledLine::default());
            r.push(StyledLine::colored("  AI".to_owned(), AnsiColor::Lime, true));
        },
        Role::System => {},
    }
    assert(style::line_views(r@) =~= entry_head(role));
    let mut i: usize = 0;
    while i < lines.len()
        invariant
            i <= lines@.len(),
            style::line_views(r@) =~= entry_head(role) + Seq::new(
                i as nat,
                |k: int| entry_line(role, text::texts(lines@)[k]),
            ),
        decreases lines@.len() - i,
    {
        let ghost before = style::line_views(r@);
        let line = lines[i].as_str();
        assert(text::texts(lines@)[i as int] == line@);
        let styled = match role {
            Role::System => StyledLine::dim("  ".to_owned().concat(line), AnsiColor::Yellow),
            _ => StyledLine::plain("    ".to_owned().concat(line)),
        };
        r.push(styled);
        assert(style::line_views(r@) =~= before.push(styled@));
        i = i + 1;
    }
    assert(style::line_views(r@) =~= entry_lines(role, text::texts(lines@)));
    r
}

/// How many columns are left for text on a screen of `width` columns.
pub open spec fn text_width(width: nat) -> nat {
    text::max(width - 4, 1) as nat
}

/// The lines that show the conversation on a screen of `width` columns: those of its entries in
/// order, or one blank line where there are none.
pub open spec fn transcript_lines(entries: Seq<EntryView>, width: nat) -> Seq<Seq<style::SpanView>> {
    let all = Seq::new(
        entries.len(),
        |i: int|
            entry_lines(
                entries[i].role,
                wrap::wrapped_paragraphs(entries[i].text, text_width(width)),
            ),
    ).flatten();
    if all.len() == 0 {
        seq![Seq::empty()]
    } else {
        all
    }
}

/// The lines that show the conversation on a screen of `width` columns.
pub fn render_transcript(transcript: &Vec<TranscriptEntry>, width: usize) -> (lines: Vec<StyledLine>)
    ensures
        style::line_views(lines@) == transcript_lines(entry_views(transcript@), width as nat),
{
    let columns: usize = if width > 5 {
        width - 4
    } else {
        1
    };
    let ghost entries = entry_views(transcript@);
    let ghost parts = Seq::new(
        entries.len(),
        |i: int|
            entry_lines(
                entries[i].role,
                wrap::wrapped_paragraphs(entries[i].text, text_width(width as nat)),
            ),
    );
    let mut lines: Vec<StyledLine> = Vec::new();
    let mut i: usize = 0;
    assert(parts.take(0) =~= Seq::<Seq<Seq<style::SpanView>>>::empty());
    while i < transcript.len()
        invariant
            i <= transcript@.len(),
            columns == text_width(width as nat),
            entries == entry_views(transcript@),
            parts == Seq::new(
                entries.len(),
                |i: int|
                    entry_lines(
                        entries[i].role,
                        wrap::wrapped_paragraphs(entries[i].text, text_width(width as nat)),
                    ),
            ),
            style::line_views(lines@) =~= parts.take(i as int).flatten(),
        decreases transcript@.len() - i,
    {
        let ghost before = style::line_views(lines@);
        let entry = &transcript[i];
        assert(entries[i as int] == entry@);
        let broken = wrap::wrap_preserving_newlines(entry.text.as_str(), columns);
        let mut more = style_entry(entry.role, &broken);
        let ghost added = style::line_views(more@);
        lines.append(&mut more);
        assert(style::line_views(lines@) =~= before + added);
        proof {
            assert(parts.take(i + 1) =~= parts.take(i as int).push(parts[i as int]));
            parts.take(i as int).lemma_flatten_push(parts[i as int]);
        }
        i = i + 1;
    }
    assert(parts.take(transcript@.len() as int) =~= parts);
    if lines.len() == 0 {
        lines.push(StyledLine::default());
        assert(style::line_views(lines@) =~= seq![Seq::<style::SpanView>::empty()]);
    }
    lines
}

/// How many lines stand above the text of an entry.
pub open spec fn head_lines(role: Role) -> nat {
    match role {
        Role::System => 0,
        _ => 2,
    }
}

/// The lines of an entry show its text: behind the head there is one line for each line of it, with
/// one stretch that ends in that line and is otherwise indentation.
pub proof fn entries_show_their_text(role: Role, lines: Seq<Seq<char>>, i: int)
    requires
        0 <= i < lines.len(),
    ensures
        ({
            let shown = entry_lines(role, lines);
            let line = shown[head_lines(role) + i];
            &&& shown.len() == head_lines(role) + lines.len()
            &&& line.len() == 1
            &&& role == Role::System ==> line[0].text == seq![' ', ' '] + lines[i] && line[0].fg
                == Some(AnsiColor::Yellow) && line[0].dim && !line[0].bold
            &&& role != Role::System ==> line[0].text == seq![' ', ' ', ' ', ' '] + lines[i]
                && line[0].fg is None && !line[0].dim && !line[0].bold
        }),
{
    reveal_strlit("  ");
    reveal_strlit("    ");
    assert("  "@ =~= seq![' ', ' ']);
    assert("    "@ =~= seq![' ', ' ', ' ', ' ']);
}

/// The head of an entry names who speaks, below a blank line; the system goes without.
pub proof fn heads_name_the_speaker(role: Role, lines: Seq<Seq<char>>)
    ensures
        entry_lines(role, lines).len() == head_lines(role) + lines.len(),
        role != Role::System ==> ({
            let name = entry_lines(role, lines)[1];
            &&& entry_lines(role, lines)[0].len() == 0
            &&& name.len() == 1
            &&& name[0].bold && !name[0].dim
            &&& role == Role::User ==> name[0].text == "  You"@ && name[0].fg == Some(
                AnsiColor::Aqua,
            )
            &&& role == Role::Assistant ==> name[0].text == "  AI"@ && name[0].fg == Some(
                AnsiColor::Lime,
            )
        }),
{
}

/// What an entry shows behind its head is its text, whole and in order, white space aside.
pub proof fn entries_hold_their_text(role: Role, lines: Seq<Seq<char>>)
    ensures
        text::without_white(
            Seq::new(
                lines.len(),
                |i: int| entry_lines(role, lines)[head_lines(role) + i][0].text,
            ).flatten(),
        ) == text::without_white(lines.flatten()),
    decreases lines.len(),
{
    let shown = Seq::new(
        lines.len(),
        |i: int| entry_lines(role, lines)[head_lines(role) + i][0].text,
    );
    if lines.len() == 0 {
        assert(shown =~= lines);
    } else {
        let front = lines.drop_last();
        let last = lines.last();
        let before = Seq::new(
            front.len(),
            |i: int| entry_lines(role, front)[head_lines(role) + i][0].text,
        );
        entries_hold_their_text(role, front);
        assert forall|i: int| 0 <= i < front.len() implies shown[i] == before[i] by {
            entries_show_their_text(role, lines, i);
            entries_show_their_text(role, front, i);
        }
        let n = lines.len() - 1;
        entries_show_their_text(role, lines, n);
        let indent = shown[n].take(shown[n].len() - last.len());
        assert(shown[n] =~= indent + last);
        assert(text::all_white(indent));
        text::trim_of_white(indent);
        text::without_white_of_blank(indent);
        text::without_white_of_concat(indent, last);
        assert(text::without_white(shown[n]) =~= text::without_white(last));
        assert(shown =~= before.push(shown[n]));
        assert(lines =~= front.push(last));
        before.lemma_flatten_push(shown[n]);
        front.lemma_flatten_push(last);
        text::without_white_of_concat(before.flatten(), shown[n]);
        text::without_white_of_concat(front.flatten(), last);
    }
}

/// Styling an entry gives lines whose stretches hold that text.
pub proof fn styled_entries_show_their_text(
    role: Role,
    lines: &Vec<String>,
    r: Vec<StyledLine>,
    i: int,
)
    requires
        call_ensures(style_entry, (role, lines), r),
        0 <= i < lines@.len(),
    ensures
        r@.len() == head_lines(role) + lines@.len(),
        ({
            let spans = r@[head_lines(role) + i].0@;
            &&& spans.len() == 1
            &&& spans[0].text@.len() >= lines@[i]@.len()
            &&& spans[0].text@.skip(spans[0].text@.len() - lines@[i]@.len()) == lines@[i]@
        }),
{
    let k = head_lines(role) + i;
    entries_show_their_text(role, text::texts(lines@), i);
    heads_name_the_speaker(role, text::texts(lines@));
    assert(style::line_views(r@).len() == r@.len());
    assert(style::line_views(r@)[k] == r@[k]@);
    assert(text::texts(lines@)[i] == lines@[i]@);
    style::meaning_of_a_line(r@[k], 0);
    let shown = r@[k].0@[0].text@;
    assert(shown.skip(shown.len() - lines@[i]@.len()) =~= lines@[i]@);
}

proof fn entries_take_lines(entries: Seq<EntryView>, width: nat)
    requires
        forall|i: int|
            0 <= i < entries.len() ==> wrap::wrapped_paragraphs(
                (#[trigger] entries[i]).text,
                text_width(width),
            ).len() >= 1,
        entries.len() > 0,
    ensures
        ({
            let all = Seq::new(
                entries.len(),
                |i: int|
                    entry_lines(
                        entries[i].role,
                        wrap::wrapped_paragraphs(entries[i].text, text_width(width)),
                    ),
            ).flatten();
            all.len() >= 1
        }),
{
    let parts = Seq::new(
        entries.len(),
        |i: int|
            entry_lines(
                entries[i].role,
                wrap::wrapped_paragraphs(entries[i].text, text_width(width)),
            ),
    );
    assert(parts[0].len() >= wrap::wrapped_paragraphs(entries[0].text, text_width(width)).len());
    assert(parts.flatten().len() >= parts[0].len());
}

/// The conversation is shown entry by entry, in order: one more entry adds its lines below, its text
/// wrapped to what four columns of indentation leave of the width.
pub proof fn the_conversation_is_shown_in_order(
    entries: Seq<EntryView>,
    entry: EntryView,
    width: nat,
)
    requires
        forall|i: int|
            0 <= i < entries.len() ==> wrap::wrapped_paragraphs(
                (#[trigger] entries[i]).text,
                (width - 4) as nat,
            ).len() >= 1,
        wrap::wrapped_paragraphs(entry.text, (width - 4) as nat).len() >= 1,
        width >= 5,
    ensures
        ({
            let added = entry_lines(
                entry.role,
                wrap::wrapped_paragraphs(entry.text, (width - 4) as nat),
            );
            &&& entries.len() == 0 ==> transcript_lines(entries.push(entry), width) == added
            &&& entries.len() > 0 ==> transcript_lines(entries.push(entry), width)
                == transcript_lines(entries, width) + added
        }),
        transcript_lines(Seq::empty(), width) == seq![Seq::<style::SpanView>::empty()],
{
    let longer = entries.push(entry);
    let lines_of = |e: EntryView|
        entry_lines(e.role, wrap::wrapped_paragraphs(e.text, text_width(width)));
    let before = Seq::new(
        entries.len(),
        |i: int|
            entry_lines(
                entries[i].role,
                wrap::wrapped_paragraphs(entries[i].text, text_width(width)),
            ),
    );
    let after = Seq::new(
        longer.len(),
        |i: int|
            entry_lines(
                longer[i].role,
                wrap::wrapped_paragraphs(longer[i].text, text_width(width)),
            ),
    );
    assert(after =~= before.push(lines_of(entry)));
    before.lemma_flatten_push(lines_of(entry));
    if entries.len() > 0 {
        entries_take_lines(entries, width);
    } else {
        assert(before =~= Seq::<Seq<Seq<style::SpanView>>>::empty());
        assert(after.flatten() =~= lines_of(entry));
    }
    let none = Seq::<EntryView>::empty();
    assert(Seq::new(
        none.len(),
        |i: int|
            entry_lines(
                none[i].role,
                wrap::wrapped_paragraphs(none[i].text, text_width(width)),
            ),
    ) =~= Seq::<Seq<Seq<style::SpanView>>>::empty());
}

/// An entry means who speaks and what is said, and a conversation its entries in order.
pub proof fn meaning_of_an_entry(entries: Seq<TranscriptEntry>, i: int)
    requires
        0 <= i < entries.len(),
    ensures
        entry_views(entries).len() == entries.len(),
        entry_views(entries)[i].role == entries[i].role,
        entry_views(entries)[i].text == entries[i].text@,
{
}

} // verus!
