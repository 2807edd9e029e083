//! The plain-text picture of the pane that the model gets to see.

use crate::text;
use vstd::prelude::*;
use vstd::string::*;

verus! {

/// How many rows of context a snapshot covers.
pub const CONTEXT_LINES: usize = 48;

/// The first row of a snapshot and the row behind its last one, for a viewport of
/// `viewport_rows` rows whose first row is `physical_top`.
pub fn snapshot_rows(physical_top: isize, viewport_rows: usize) -> (r: (isize, isize))
    requires
        viewport_rows <= isize::MAX,
        physical_top + viewport_rows <= isize::MAX,
    ensures
        r.1 == physical_top + viewport_rows,
        r.0 == text::max(r.1 - CONTEXT_LINES, isize::MIN as int),
{
    let bottom: isize = physical_top + viewport_rows as isize;
    let wanted: isize = CONTEXT_LINES as isize;
    let top: isize = if bottom >= isize::MIN + wanted {
        bottom - wanted
    } else {
        isize::MIN
    };
    (top, bottom)
}

/// The text of a line, given the texts of its cells.
pub open spec fn line_text(cells: Seq<String>) -> Seq<char> {
    text::texts(cells).flatten()
}

/// The texts of a list of lines.
pub open spec fn line_texts(lines: Seq<Vec<String>>) -> Seq<Seq<char>> {
    Seq::new(lines.len(), |i: int| line_text(lines[i]@))
}

/// What has been gathered after `lines`: each line is put behind what came before, all white space
/// at the end is cut off, and a line feed follows.
pub open spec fn gathered(lines: Seq<Seq<char>>) -> Seq<char>
    decreases lines.len(),
{
    if lines.len() == 0 {
        Seq::empty()
    } else {
        text::trim_end(gathered(lines.drop_last()) + lines.last()).push('\n')
    }
}

/// The snapshot of `lines`: what has been gathered, without the white space at its end.
pub open spec fn snapshot_of(lines: Seq<Seq<char>>) -> Seq<char> {
    text::trim_end(gathered(lines))
}

/// The snapshot of the pane, given for each logical line the texts of its visible cells.
pub fn capture_pane_snapshot(lines: &[Vec<String>]) -> (snapshot: String)
    ensures
        snapshot@ == snapshot_of(line_texts(lines@)),
{
    let mut all = String::new();
    let mut i: usize = 0;
    while i < lines.len()
        invariant
            i <= lines@.len(),
            all@ =~= gathered(line_texts(lines@).take(i as int)),
        decreases lines@.len() - i,
    {
        let ghost before = all@;
        let cells = &lines[i];
        let mut j: usize = 0;
        assert(text::texts(cells@).take(0) =~= Seq::<Seq<char>>::empty());
        while j < cells.len()
            invariant
                j <= cells@.len(),
                all@ =~= before + text::texts(cells@).take(j as int).flatten(),
            decreases cells@.len() - j,
        {
            let ghost done = text::texts(cells@).take(j as int);
            all.append(cells[j].as_str());
            j = j + 1;
            proof {
                assert(text::texts(cells@).take(j as int) =~= done.push(cells@[j - 1]@));
                done.lemma_flatten_push(cells@[j - 1]@);
            }
        }
        assert(text::texts(cells@).take(cells@.len() as int) =~= text::texts(cells@));
        all = text::trimmed_end(all.as_str());
        all.push('\n');
        i = i + 1;
        proof {
            let seen = line_texts(lines@).take(i as int);
            assert(seen.drop_last() =~= line_texts(lines@).take(i - 1));
            assert(seen.last() == line_text(cells@));
        }
    }
    assert(line_texts(lines@).take(lines@.len() as int) =~= line_texts(lines@));
    text::trimmed_end(all.as_str())
}

/// The lines that hold more than white space, each without the white space at its end.
pub open spec fn kept_lines(lines: Seq<Seq<char>>) -> Seq<Seq<char>>
    decreases lines.len(),
{
    if lines.len() == 0 {
        Seq::empty()
    } else if text::all_white(lines.last()) {
        kept_lines(lines.drop_last())
    } else {
        kept_lines(lines.drop_last()).push(text::trim_end(lines.last()))
    }
}

/// What stands in front of the first kept line: a line feed where the first line is blank.
pub open spec fn lead(lines: Seq<Seq<char>>) -> Seq<char> {
    if lines.len() > 0 && text::all_white(lines[0]) {
        seq!['\n']
    } else {
        Seq::empty()
    }
}

/// The kept lines, a line feed between neighbours; nothing where all lines are blank.
pub open spec fn condensed(lines: Seq<Seq<char>>) -> Seq<char> {
    if kept_lines(lines).len() == 0 {
        Seq::empty()
    } else {
        lead(lines) + text::joined(kept_lines(lines), seq!['\n'])
    }
}

proof fn trim_end_of_white(s: Seq<char>)
    requires
        text::all_white(s),
    ensures
        text::trim_end(s) == Seq::<char>::empty(),
{
    text::trim_end_skips_white(Seq::empty(), s);
    assert(Seq::<char>::empty() + s =~= s);
}

proof fn trim_end_keeps_front(front: Seq<char>, s: Seq<char>)
    requires
        !text::all_white(s),
    ensures
        text::trim_end(front + s) == front + text::trim_end(s),
        text::trim_end(s).len() > 0,
        !text::is_white(text::trim_end(s).last()),
    decreases s.len(),
{
    assert((front + s).last() == s.last());
    if text::is_white(s.last()) {
        assert((front + s).drop_last() =~= front + s.drop_last());
        if text::all_white(s.drop_last()) {
            assert forall|i: int| 0 <= i < s.len() implies text::is_white(#[trigger] s[i]) by {
                if i < s.len() - 1 {
                    assert(s.drop_last()[i] == s[i]);
                }
            }
        }
        trim_end_keeps_front(front, s.drop_last());
    }
}

proof fn condensed_ends_in_text(lines: Seq<Seq<char>>)
    ensures
        condensed(lines).len() > 0 ==> !text::is_white(condensed(lines).last()),
        text::trim_end(condensed(lines)) == condensed(lines),
        kept_lines(lines).len() > 0 ==> kept_lines(lines).last().len() > 0 && !text::is_white(
            kept_lines(lines).last().last(),
        ),
    decreases lines.len(),
{
    if lines.len() > 0 {
        condensed_ends_in_text(lines.drop_last());
        if !text::all_white(lines.last()) {
            trim_end_keeps_front(Seq::empty(), lines.last());
        }
        let kept = kept_lines(lines);
        if kept.len() > 0 {
            let whole = text::joined(kept, seq!['\n']);
            assert(whole.len() > 0 && whole.last() == kept.last().last());
        }
    }
}

proof fn no_kept_line_means_blank(lines: Seq<Seq<char>>)
    requires
        lines.len() > 0,
        kept_lines(lines).len() == 0,
    ensures
        text::all_white(lines[0]),
    decreases lines.len(),
{
    if lines.len() > 1 {
        no_kept_line_means_blank(lines.drop_last());
    }
}

proof fn gathered_is_condensed(lines: Seq<Seq<char>>)
    requires
        lines.len() > 0,
    ensures
        gathered(lines) == condensed(lines).push('\n'),
    decreases lines.len(),
{
    let rest = lines.drop_last();
    let last = lines.last();
    let sep = seq!['\n'];
    condensed_ends_in_text(rest);
    if rest.len() == 0 {
        assert(gathered(rest) + last =~= last);
        if text::all_white(last) {
            trim_end_of_white(last);
        } else {
            trim_end_keeps_front(Seq::empty(), last);
            assert(kept_lines(lines) =~= seq![text::trim_end(last)]);
            assert(lead(lines) + text::trim_end(last) =~= text::trim_end(last));
        }
        assert(gathered(lines) =~= condensed(lines).push('\n'));
    } else {
        gathered_is_condensed(rest);
        assert(lead(lines) == lead(rest));
        let before = condensed(rest);
        if text::all_white(last) {
            let tail = sep + last;
            assert(text::all_white(tail));
            assert(gathered(rest) + last =~= before + tail);
            text::trim_end_skips_white(before, tail);
        } else {
            assert(gathered(rest) + last =~= (before + sep) + last);
            trim_end_keeps_front(before + sep, last);
            let kept = kept_lines(lines);
            assert(kept.drop_last() =~= kept_lines(rest));
            assert(kept.last() == text::trim_end(last));
            if kept_lines(rest).len() == 0 {
                no_kept_line_means_blank(rest);
                assert(before + sep + text::trim_end(last) =~= lead(lines) + text::joined(kept, sep));
            } else {
                assert(before + sep + text::trim_end(last) =~= lead(lines) + text::joined(kept, sep));
            }
        }
    }
}

/// A snapshot holds the lines with text in order, each without the white space at its end, one line
/// feed between neighbours; blank lines are left out, but for one line feed in front where the
/// first line is blank.
pub proof fn snapshot_leaves_out_blank_lines(lines: Seq<Seq<char>>)
    ensures
        snapshot_of(lines) == condensed(lines),
{
    condensed_ends_in_text(lines);
    if lines.len() > 0 {
        gathered_is_condensed(lines);
        assert(text::all_white(seq!['\n']));
        assert(condensed(lines).push('\n') =~= condensed(lines) + seq!['\n']);
        text::trim_end_skips_white(condensed(lines), seq!['\n']);
    } else {
        assert(snapshot_of(lines) =~= condensed(lines));
    }
}

/// One more line adds its text on a line of its own, without the white space at its end; a blank
/// line adds nothing.
pub proof fn a_snapshot_grows_line_by_line(lines: Seq<Seq<char>>, line: Seq<char>)
    ensures
        snapshot_of(Seq::empty()) == Seq::<char>::empty(),
        text::all_white(line) ==> snapshot_of(lines.push(line)) == snapshot_of(lines),
        !text::all_white(line) && lines.len() == 0 ==> snapshot_of(lines.push(line))
            == text::trim_end(line),
        !text::all_white(line) && lines.len() > 0 ==> snapshot_of(lines.push(line)) == snapshot_of(
            lines,
        ) + seq!['\n'] + text::trim_end(line),
{
    let all = lines.push(line);
    let sep = seq!['\n'];
    snapshot_leaves_out_blank_lines(Seq::empty());
    snapshot_leaves_out_blank_lines(lines);
    snapshot_leaves_out_blank_lines(all);
    assert(all.drop_last() =~= lines);
    if lines.len() > 0 {
        assert(lead(all) == lead(lines));
    }
    if !text::all_white(line) {
        let kept = kept_lines(lines);
        let last = text::trim_end(line);
        assert(kept_lines(all) == kept.push(last));
        text::joining_adds(kept, last, sep);
        if kept.len() == 0 {
            assert(kept.push(last) =~= seq![last]);
            if lines.len() > 0 {
                no_kept_line_means_blank(lines);
                assert(snapshot_of(all) =~= snapshot_of(lines) + sep + last);
            } else {
                assert(snapshot_of(all) =~= last);
            }
        } else {
            assert(snapshot_of(all) =~= snapshot_of(lines) + sep + last);
        }
    }
}

/// White space aside, a snapshot holds the text of all its lines, in order.
pub proof fn a_snapshot_keeps_all_text(lines: Seq<Seq<char>>)
    ensures
        text::without_white(snapshot_of(lines)) == text::without_white(lines.flatten()),
    decreases lines.len(),
{
    if lines.len() == 0 {
        a_snapshot_grows_line_by_line(lines, Seq::empty());
        assert(lines =~= Seq::<Seq<char>>::empty());
    } else {
        let rest = lines.drop_last();
        let line = lines.last();
        assert(lines =~= rest.push(line));
        a_snapshot_keeps_all_text(rest);
        a_snapshot_grows_line_by_line(rest, line);
        rest.lemma_flatten_push(line);
        text::without_white_of_concat(rest.flatten(), line);
        if text::all_white(line) {
            text::trim_of_white(line);
            text::without_white_of_blank(line);
        } else {
            let kept = text::trim_end(line);
            let cut = line.skip(kept.len() as int);
            text::trim_end_cuts_white(line);
            assert(line =~= kept + cut);
            text::trim_of_white(cut);
            text::without_white_of_blank(cut);
            text::without_white_of_concat(kept, cut);
            if rest.len() > 0 {
                text::trim_of_white(seq!['\n']);
                text::without_white_of_blank(seq!['\n']);
                text::without_white_of_concat(snapshot_of(rest), seq!['\n']);
                text::without_white_of_concat(snapshot_of(rest) + seq!['\n'], kept);
            } else {
                assert(rest =~= Seq::<Seq<char>>::empty());
            }
        }
        assert(text::without_white(snapshot_of(lines)) =~= text::without_white(lines.flatten()));
    }
}

/// The snapshot of a pane is that of its lines, and a line reads as its cells one after the other.
pub proof fn lines_read_cell_by_cell(
    lines: &[Vec<String>],
    snapshot: String,
    cells: Seq<String>,
    cell: String,
)
    requires
        call_ensures(capture_pane_snapshot, (lines,), snapshot),
    ensures
        snapshot@ == snapshot_of(line_texts(lines@)),
        line_texts(lines@).len() == lines@.len(),
        forall|i: int|
            0 <= i < lines@.len() ==> #[trigger] line_texts(lines@)[i] == line_text(lines@[i]@),
        line_text(Seq::empty()) == Seq::<char>::empty(),
        line_text(cells.push(cell)) == line_text(cells) + cell@,
{
    assert(text::texts(Seq::empty()) =~= Seq::<Seq<char>>::empty());
    assert(text::texts(cells.push(cell)) =~= text::texts(cells).push(cell@));
    text::texts(cells).lemma_flatten_push(cell@);
}

/// A snapshot covers the last rows of the viewport and what is above it: 48 rows, unless that many
/// do not have a number.
pub proof fn snapshots_cover_the_last_rows(
    physical_top: isize,
    viewport_rows: usize,
    r: (isize, isize),
)
    requires
        call_ensures(snapshot_rows, (physical_top, viewport_rows), r),
        viewport_rows <= isize::MAX,
        physical_top + viewport_rows <= isize::MAX,
    ensures
        r.1 == physical_top + viewport_rows,
        r.1 - 48 >= isize::MIN ==> r.0 == r.1 - 48,
        r.1 - 48 < isize::MIN ==> r.0 == isize::MIN,
{
}

} // verus!
