//! Breaking text into lines, and how wide text is on the screen.

use crate::text;
use vstd::prelude::*;
use vstd::seq_lib::*;
use vstd::string::*;
use vstd::utf8;

verus! {

/// The lines that `textwrap::wrap` breaks `s` into for lines of `width` columns.
pub uninterp spec fn wrapped(s: Seq<char>, width: nat) -> Seq<Seq<char>>;

/// How many columns `termwiz::cell::unicode_column_width` counts for `s`, by the latest version of
/// Unicode that it knows.
pub uninterp spec fn column_width(s: Seq<char>) -> nat;

/// `s` without the spaces at its end.
pub open spec fn without_trailing_spaces(s: Seq<char>) -> Seq<char>
    decreases s.len(),
{
    if s.len() > 0 && s.last() == ' ' {
        without_trailing_spaces(s.drop_last())
    } else {
        s
    }
}

/// Whether `s` is a single line of fewer than `width` bytes.
pub open spec fn is_short_line(s: Seq<char>, width: nat) -> bool {
    !s.contains('\n') && utf8::encode_utf8(s).len() < width
}

/// `s` without its spaces and line feeds.
pub open spec fn solid(s: Seq<char>) -> Seq<char>
    decreases s.len(),
{
    if s.len() == 0 {
        Seq::empty()
    } else if s.last() == ' ' || s.last() == '\n' {
        solid(s.drop_last())
    } else {
        solid(s.drop_last()).push(s.last())
    }
}

/// Whether no line of the list holds a line feed.
pub open spec fn single_lines(lines: Seq<Seq<char>>) -> bool {
    forall|i: int| 0 <= i < lines.len() ==> !(#[trigger] lines[i]).contains('\n')
}

/// `textwrap::wrap` with its default options for lines of `width` columns: the lines that it breaks
/// `s` into, of which there is always at least one. It breaks at every line feed, so that no line
/// holds one. Spaces and line feeds aside, the lines hold the characters of `s`, all of them and in
/// order: a break takes away nothing else and puts nothing in. A single line of fewer bytes than
/// `width` stays one line and loses the spaces at its end; how breaks are picked elsewhere is left
/// to the name.
#[verifier::external_body]
pub(crate) fn wrap_text(s: &str, width: usize) -> (lines: Vec<String>)
    ensures
        text::texts(lines@) == wrapped(s@, width as nat),
        lines@.len() >= 1,
        single_lines(text::texts(lines@)),
        solid(text::texts(lines@).flatten()) == solid(s@),
        is_short_line(s@, width as nat) ==> text::texts(lines@) == seq![
            without_trailing_spaces(s@),
        ],
{
    textwrap::wrap(s, width).into_iter().map(|line| line.into_owned()).collect()
}

/// Whether `s` holds nothing but the printable characters of ASCII.
pub open spec fn is_printable_ascii(s: Seq<char>) -> bool {
    forall|i: int| 0 <= i < s.len() ==> 0x20 <= (#[trigger] s[i]) as u32 <= 0x7e
}

/// `termwiz::cell::unicode_column_width` without a Unicode version of its own: the number of
/// terminal columns that `s` takes up. Each printable character of ASCII takes up one; how wide
/// other text is is left to the name.
#[verifier::external_body]
pub(crate) fn text_columns(s: &str) -> (columns: usize)
    ensures
        columns == column_width(s@),
        is_printable_ascii(s@) ==> columns == s@.len(),
{
    termwiz::cell::unicode_column_width(s, None)
}

/// The stretches of `s` between its line feeds.
pub open spec fn paragraphs(s: Seq<char>) -> Seq<Seq<char>>
    decreases s.len(),
{
    if s.len() == 0 {
        seq![Seq::empty()]
    } else if s.last() == '\n' {
        paragraphs(s.drop_last()).push(Seq::empty())
    } else {
        let before = paragraphs(s.drop_last());
        before.update(before.len() - 1, before.last().push(s.last()))
    }
}

/// The lines of one paragraph: one empty line where it is blank, else what it is wrapped into.
pub open spec fn paragraph_lines(paragraph: Seq<char>, width: nat) -> Seq<Seq<char>> {
    if text::trim(paragraph).len() == 0 {
        seq![Seq::empty()]
    } else {
        wrapped(paragraph, width)
    }
}

/// The lines of all paragraphs of `s`, one paragraph after the other.
pub open spec fn wrapped_paragraphs(s: Seq<char>, width: nat) -> Seq<Seq<char>> {
    let parts = paragraphs(s);
    Seq::new(parts.len(), |i: int| paragraph_lines(parts[i], width)).flatten()
}

/// The stretches of `s` between its line feeds.
pub fn split_paragraphs(s: &str) -> (parts: Vec<String>)
    ensures
        text::texts(parts@) == paragraphs(s@),
        parts@.len() >= 1,
{
    let chars = text::to_chars(s);
    let mut parts: Vec<String> = Vec::new();
    let mut current = String::new();
    let mut i: usize = 0;
    assert(chars@.take(0) =~= Seq::<char>::empty());
    while i < chars.len()
        invariant
            chars@ == s@,
            i <= chars@.len(),
            text::texts(parts@).push(current@) =~= paragraphs(chars@.take(i as int)),
        decreases chars@.len() - i,
    {
        let ghost seen = chars@.take(i as int);
        let c = chars[i];
        i = i + 1;
        assert(chars@.take(i as int).drop_last() =~= seen);
        assert(chars@.take(i as int).last() == c);
        if c == '\n' {
            let ghost closed = text::texts(parts@).push(current@);
            parts.push(current);
            current = String::new();
            assert(text::texts(parts@) =~= closed);
        } else {
            current.push(c);
        }
    }
    assert(chars@.take(chars@.len() as int) =~= chars@);
    let ghost closed = text::texts(parts@).push(current@);
    parts.push(current);
    assert(text::texts(parts@) =~= closed);
    parts
}

proof fn single_paragraph(s: Seq<char>)
    requires
        !s.contains('\n'),
    ensures
        paragraphs(s) == seq![s],
    decreases s.len(),
{
    if s.len() > 0 {
        let front = s.drop_last();
        assert forall|i: int| 0 <= i < front.len() implies front[i] != '\n' by {
            assert(s[i] == front[i]);
        }
        assert(s.contains(s.last()));
        single_paragraph(front);
        assert(front.push(s.last()) =~= s);
        assert(seq![front].update(0, s) =~= seq![s]);
    } else {
        assert(s =~= Seq::<char>::empty());
    }
}

proof fn without_white_of_solid(s: Seq<char>)
    ensures
        text::without_white(solid(s)) == text::without_white(s),
    decreases s.len(),
{
    if s.len() > 0 {
        without_white_of_solid(s.drop_last());
        if s.last() != ' ' && s.last() != '\n' {
            assert(solid(s).drop_last() =~= solid(s.drop_last()));
        }
    }
}

proof fn paragraphs_keep_text(s: Seq<char>)
    ensures
        paragraphs(s).len() >= 1,
        text::without_white(paragraphs(s).flatten()) == text::without_white(s),
    decreases s.len(),
{
    let parts = paragraphs(s);
    if s.len() == 0 {
        parts.lemma_flatten_one_element();
        assert(s =~= Seq::<char>::empty());
    } else {
        let before = paragraphs(s.drop_last());
        paragraphs_keep_text(s.drop_last());
        if s.last() == '\n' {
            before.lemma_flatten_push(Seq::empty());
            assert(parts.flatten() =~= before.flatten());
        } else {
            let front = before.drop_last();
            assert(before =~= front.push(before.last()));
            assert(parts =~= front.push(before.last().push(s.last())));
            front.lemma_flatten_push(before.last());
            front.lemma_flatten_push(before.last().push(s.last()));
            assert(parts.flatten() =~= before.flatten().push(s.last()));
            assert(parts.flatten().drop_last() =~= before.flatten());
        }
    }
}

proof fn paragraphs_of_joined(a: Seq<char>, b: Seq<char>)
    ensures
        paragraphs(a + seq!['\n'] + b) == paragraphs(a) + paragraphs(b),
        paragraphs(b).len() >= 1,
    decreases b.len(),
{
    let whole = a + seq!['\n'] + b;
    if b.len() == 0 {
        assert(whole.drop_last() =~= a);
        assert(paragraphs(whole) =~= paragraphs(a) + paragraphs(b));
    } else {
        assert(whole.drop_last() =~= a + seq!['\n'] + b.drop_last());
        assert(whole.last() == b.last());
        paragraphs_of_joined(a, b.drop_last());
        assert(paragraphs(whole) =~= paragraphs(a) + paragraphs(b));
    }
}

/// Two texts joined by a line feed are wrapped one after the other.
pub proof fn wrapping_adds(a: Seq<char>, b: Seq<char>, width: nat)
    ensures
        wrapped_paragraphs(a + seq!['\n'] + b, width) == wrapped_paragraphs(a, width)
            + wrapped_paragraphs(b, width),
{
    let whole = paragraphs(a + seq!['\n'] + b);
    let front = paragraphs(a);
    let back = paragraphs(b);
    paragraphs_of_joined(a, b);
    let front_lines = Seq::new(front.len(), |i: int| paragraph_lines(front[i], width));
    let back_lines = Seq::new(back.len(), |i: int| paragraph_lines(back[i], width));
    assert(Seq::new(whole.len(), |i: int| paragraph_lines(whole[i], width)) =~= front_lines
        + back_lines);
    lemma_flatten_concat(front_lines, back_lines);
}

/// Breaks `s` at its line feeds, then wraps each paragraph to `width` columns. Blank paragraphs
/// become empty lines, so that there is at least one line for each paragraph, and one in any case. No
/// line holds a line feed, and but for white space the lines hold the text, whole and in order.
pub fn wrap_preserving_newlines(s: &str, width: usize) -> (lines: Vec<String>)
    ensures
        text::texts(lines@) == wrapped_paragraphs(s@, width as nat),
        lines@.len() >= paragraphs(s@).len() >= 1,
        single_lines(text::texts(lines@)),
        text::without_white(text::texts(lines@).flatten()) == text::without_white(s@),
        is_short_line(s@, width as nat) && text::trim(s@).len() > 0 ==> text::texts(lines@) == seq![
            without_trailing_spaces(s@),
        ],
{
    proof {
        if is_short_line(s@, width as nat) {
            single_paragraph(s@);
        }
    }
    let parts = split_paragraphs(s);
    let ghost rows = Seq::new(
        parts@.len(),
        |i: int| paragraph_lines(paragraphs(s@)[i], width as nat),
    );
    let mut lines: Vec<String> = Vec::new();
    let mut i: usize = 0;
    assert(rows.take(0) =~= Seq::<Seq<Seq<char>>>::empty());
    assert(text::texts(lines@) =~= paragraphs(s@).take(0));
    while i < parts.len()
        invariant
            i <= parts@.len(),
            i <= lines@.len(),
            text::texts(parts@) == paragraphs(s@),
            rows == Seq::new(
                parts@.len(),
                |i: int| paragraph_lines(paragraphs(s@)[i], width as nat),
            ),
            text::texts(lines@) =~= rows.take(i as int).flatten(),
            single_lines(text::texts(lines@)),
            text::without_white(text::texts(lines@).flatten()) == text::without_white(
                paragraphs(s@).take(i as int).flatten(),
            ),
            is_short_line(s@, width as nat) ==> paragraphs(s@) == seq![s@],
            i > 0 && is_short_line(s@, width as nat) && text::trim(s@).len() > 0
                ==> text::texts(lines@) == seq![without_trailing_spaces(s@)],
        decreases parts@.len() - i,
    {
        let ghost before = text::texts(lines@);
        let part = parts[i].as_str();
        assert(text::texts(parts@)[i as int] == part@);
        if text::trimmed(part).as_str().is_empty() {
            lines.push(String::new());
            proof {
                let added = seq![Seq::<char>::empty()];
                assert(text::texts(lines@) =~= before + added);
                lemma_flatten_concat(before, added);
                added.lemma_flatten_one_element();
                text::without_white_of_blank(part@);
                assert(text::texts(lines@).flatten() =~= before.flatten());
            }
        } else {
            let mut more = wrap_text(part, width);
            let ghost added = text::texts(more@);
            lines.append(&mut more);
            assert(text::texts(lines@) =~= before + added);
            proof {
                lemma_flatten_concat(before, added);
                without_white_of_solid(added.flatten());
                without_white_of_solid(part@);
                text::without_white_of_concat(before.flatten(), added.flatten());
            }
        }
        assert(text::texts(lines@) =~= before + rows[i as int]);
        proof {
            let seen = paragraphs(s@).take(i as int);
            assert(paragraphs(s@).take(i + 1) =~= seen.push(part@));
            seen.lemma_flatten_push(part@);
            text::without_white_of_concat(seen.flatten(), part@);
        }
        proof {
            assert(rows.take(i + 1) =~= rows.take(i as int).push(rows[i as int]));
            rows.take(i as int).lemma_flatten_push(rows[i as int]);
        }
        i = i + 1;
    }
    assert(rows.take(parts@.len() as int) =~= rows);
    assert(text::texts(parts@).len() == parts@.len());
    proof {
        assert(paragraphs(s@).take(parts@.len() as int) =~= paragraphs(s@));
        paragraphs_keep_text(s@);
    }
    lines
}

/// The paragraphs of a text hold no line feed, and with one put back between neighbours they are the
/// text again.
pub proof fn paragraphs_join_back(s: Seq<char>)
    ensures
        paragraphs(s).len() >= 1,
        single_lines(paragraphs(s)),
        text::joined(paragraphs(s), seq!['\n']) == s,
    decreases s.len(),
{
    let sep = seq!['\n'];
    let parts = paragraphs(s);
    if s.len() == 0 {
        assert(text::joined(parts, sep) =~= s);
    } else {
        let before = paragraphs(s.drop_last());
        paragraphs_join_back(s.drop_last());
        let front = before.drop_last();
        let last = before.last();
        assert(before =~= front.push(last));
        if s.last() == '\n' {
            text::joining_adds(before, Seq::empty(), sep);
            assert(text::joined(parts, sep) =~= s);
        } else {
            let longer = last.push(s.last());
            assert(parts =~= front.push(longer));
            text::joining_adds(front, last, sep);
            text::joining_adds(front, longer, sep);
            if front.len() == 0 {
                assert(before =~= seq![last]);
                assert(parts =~= seq![longer]);
            }
            assert(text::joined(parts, sep) =~= text::joined(before, sep).push(s.last()));
            assert(text::joined(parts, sep) =~= s);
            assert forall|i: int| 0 <= i < parts.len() implies !(#[trigger] parts[i]).contains(
                '\n',
            ) by {
                if i < front.len() {
                    assert(parts[i] == before[i]);
                } else {
                    assert(!before[before.len() - 1].contains('\n'));
                    if longer.contains('\n') {
                        let k = choose|k: int| 0 <= k < longer.len() && longer[k] == '\n';
                        assert(last[k] == '\n');
                    }
                }
            }
        }
    }
}

/// A text of one paragraph becomes one empty line where it is blank, and is wrapped as it is where
/// it is not.
pub proof fn one_paragraph_is_wrapped_as_it_is(s: Seq<char>, width: nat)
    requires
        !s.contains('\n'),
    ensures
        text::all_white(s) ==> wrapped_paragraphs(s, width) == seq![Seq::<char>::empty()],
        !text::all_white(s) ==> wrapped_paragraphs(s, width) == wrapped(s, width),
{
    single_paragraph(s);
    text::trim_of_white(s);
    let lines = Seq::new(
        paragraphs(s).len(),
        |i: int| paragraph_lines(paragraphs(s)[i], width),
    );
    lines.lemma_flatten_one_element();
}

/// Taking the spaces off the end of a text takes off nothing but spaces, and all of them.
pub proof fn only_trailing_spaces_go(s: Seq<char>)
    ensures
        without_trailing_spaces(s).len() <= s.len(),
        without_trailing_spaces(s) == s.take(without_trailing_spaces(s).len() as int),
        forall|i: int| without_trailing_spaces(s).len() <= i < s.len() ==> #[trigger] s[i] == ' ',
        without_trailing_spaces(s).len() > 0 ==> without_trailing_spaces(s).last() != ' ',
    decreases s.len(),
{
    if s.len() > 0 && s.last() == ' ' {
        let front = s.drop_last();
        only_trailing_spaces_go(front);
        let n = without_trailing_spaces(s).len() as int;
        assert(s.take(n) =~= front.take(n));
        assert forall|i: int| n <= i < s.len() implies #[trigger] s[i] == ' ' by {
            if i < front.len() {
                assert(front[i] == s[i]);
            }
        }
    } else {
        assert(s.take(s.len() as int) =~= s);
    }
}

/// Splitting and wrapping give what is said of the text.
pub proof fn wrapping_follows_the_text(
    s: &str,
    width: usize,
    parts: Vec<String>,
    lines: Vec<String>,
)
    requires
        call_ensures(split_paragraphs, (s,), parts),
        call_ensures(wrap_preserving_newlines, (s, width), lines),
    ensures
        text::joined(text::texts(parts@), seq!['\n']) == s@,
        text::texts(lines@) == wrapped_paragraphs(s@, width as nat),
        lines@.len() >= parts@.len() >= 1,
        text::without_white(text::texts(lines@).flatten()) == text::without_white(s@),
{
    paragraphs_join_back(s@);
    assert(text::texts(parts@).len() == parts@.len());
}

} // verus!
