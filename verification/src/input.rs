//! The input on the screen: its lines, and where the cursor is in them.

use crate::{text, wrap};
use vstd::prelude::*;
use vstd::string::*;

verus! {

/// The lines that the input is broken into: one empty line where there is none.
pub open spec fn input_lines(input: Seq<char>, width: nat) -> Seq<Seq<char>> {
    if input.len() == 0 {
        seq![Seq::empty()]
    } else {
        wrap::wrapped(input, width)
    }
}

/// The lines that the input is broken into. They hold all that was typed, in order, but for spaces
/// and line feeds.
pub fn wrap_input(input: &str, width: usize) -> (lines: Vec<String>)
    ensures
        text::texts(lines@) == input_lines(input@, width as nat),
        lines@.len() >= 1,
        wrap::single_lines(text::texts(lines@)),
        wrap::solid(text::texts(lines@).flatten()) == wrap::solid(input@),
        wrap::is_short_line(input@, width as nat) ==> text::texts(lines@) == seq![
            wrap::without_trailing_spaces(input@),
        ],
{
    if input.is_empty() {
        let mut lines: Vec<String> = Vec::new();
        lines.push(String::new());
        assert(input@ =~= Seq::<char>::empty());
        assert(text::texts(lines@) =~= seq![Seq::<char>::empty()]);
        proof {
            text::texts(lines@).lemma_flatten_one_element();
        }
        lines
    } else {
        wrap::wrap_text(input, width)
    }
}

/// The line, counted from `row` on, and the character in it that is `position` characters away from
/// the start of line `row`, where a break between two lines counts as one character; `None` where
/// the last line ends before it.
pub open spec fn locate(lines: Seq<Seq<char>>, row: int, position: int) -> Option<(int, int)>
    decreases lines.len() - row,
{
    if row < 0 || row >= lines.len() {
        None
    } else if position <= lines[row].len() {
        Some((row, position))
    } else {
        locate(lines, row + 1, position - lines[row].len() - 1)
    }
}

/// The line that holds the cursor and the character in it that the cursor stands on.
pub fn locate_cursor(lines: &Vec<String>, position: usize) -> (spot: Option<(usize, usize)>)
    ensures
        match spot {
            Some((row, chars)) => locate(text::texts(lines@), 0, position as int) == Some(
                (row as int, chars as int),
            ) && row < lines@.len() && chars <= lines@[row as int]@.len(),
            None => locate(text::texts(lines@), 0, position as int) is None,
        },
{
    let ghost all = text::texts(lines@);
    let mut remaining: usize = position;
    let mut row: usize = 0;
    while row < lines.len()
        invariant
            row <= lines@.len(),
            all == text::texts(lines@),
            locate(all, 0, position as int) == locate(all, row as int, remaining as int),
        decreases lines@.len() - row,
    {
        let chars: usize = lines[row].as_str().unicode_len();
        assert(all[row as int].len() == chars);
        if remaining <= chars {
            return Some((row, remaining));
        }
        remaining = remaining - chars - 1;
        row = row + 1;
    }
    None
}

/// Where the cursor is shown: the line of the input and the columns in front of it there.
pub open spec fn cursor_spot(lines: Seq<Seq<char>>, position: int) -> Option<(int, int)> {
    match locate(lines, 0, position) {
        Some((row, chars)) => Some((row, wrap::column_width(lines[row].take(chars)) as int)),
        None => None,
    }
}

/// Where the cursor is shown.
pub fn place_cursor(lines: &Vec<String>, position: usize) -> (spot: Option<(usize, usize)>)
    ensures
        match spot {
            Some((row, columns)) => cursor_spot(text::texts(lines@), position as int) == Some(
                (row as int, columns as int),
            ),
            None => cursor_spot(text::texts(lines@), position as int) is None,
        },
        spot matches Some((row, columns)) ==> (locate(
            text::texts(lines@),
            0,
            position as int,
        ) matches Some((_, chars)) && (wrap::is_printable_ascii(lines@[row as int]@.take(chars))
            ==> columns == chars)),
{
    match locate_cursor(lines, position) {
        Some((row, chars)) => {
            let (front, _) = text::cut_at(lines[row].as_str(), chars);
            assert(text::texts(lines@)[row as int] == lines@[row as int]@);
            Some((row, wrap::text_columns(front)))
        },
        None => None,
    }
}

/// Whether the input stays on one line of `width` columns as it is, one column for each character.
pub open spec fn fits_plainly(input: Seq<char>, width: nat) -> bool {
    &&& wrap::is_short_line(input, width)
    &&& wrap::is_printable_ascii(input)
    &&& input.len() > 0 ==> input.last() != ' '
}

/// How many characters the lines from `row` on hold, a break between two lines counting as one.
pub open spec fn length_from(lines: Seq<Seq<char>>, row: int) -> int
    decreases lines.len() - row,
{
    if row < 0 || row >= lines.len() {
        -1
    } else {
        lines[row].len() + 1 + length_from(lines, row + 1)
    }
}

/// The cursor is found exactly when it is not past the last line, and then what lies from its spot
/// to the end is what lies behind its position.
pub proof fn cursor_is_found(lines: Seq<Seq<char>>, row: int, position: int)
    requires
        0 <= row < lines.len(),
        0 <= position,
    ensures
        locate(lines, row, position) is Some <==> position <= length_from(lines, row),
        locate(lines, row, position) matches Some((r, chars)) ==> row <= r < lines.len() && 0
            <= chars <= lines[r].len() && length_from(lines, r) - chars == length_from(lines, row)
            - position,
    decreases lines.len() - row,
{
    reveal_with_fuel(locate, 2);
    reveal_with_fuel(length_from, 2);
    if row + 1 < lines.len() {
        cursor_is_found(lines, row + 1, 0);
        if position > lines[row].len() {
            cursor_is_found(lines, row + 1, position - lines[row].len() - 1);
        }
    }
}

/// Where the input stays on one line as it is, the cursor is shown behind the characters in front
/// of it.
pub proof fn cursor_follows_the_text(input: Seq<char>, width: nat, cursor: int)
    requires
        input_lines(input, width) == seq![input],
        0 <= cursor <= input.len(),
    ensures
        cursor_spot(input_lines(input, width), cursor) == Some(
            (0int, wrap::column_width(input.take(cursor)) as int),
        ),
{
}

/// Without input there is one empty line; other input is wrapped as it is.
pub proof fn input_is_wrapped_as_it_is(input: &str, width: usize, lines: Vec<String>)
    requires
        call_ensures(wrap_input, (input, width), lines),
    ensures
        text::texts(lines@) == input_lines(input@, width as nat),
        input@.len() == 0 ==> lines@.len() == 1 && lines@[0]@ == Seq::<char>::empty(),
        input@.len() > 0 ==> text::texts(lines@) == wrap::wrapped(input@, width as nat),
{
    assert(text::texts(lines@).len() == lines@.len());
    assert(text::texts(lines@)[0] == lines@[0]@);
}

/// The cursor is shown where as many characters lie in front of it as its position says, breaks
/// between lines included: behind the columns of those in its line. Past the last line it is not
/// shown.
pub proof fn the_cursor_is_shown_at_its_position(lines: Seq<Seq<char>>, position: int)
    requires
        lines.len() >= 1,
        position >= 0,
    ensures
        cursor_spot(lines, position) is Some <==> position <= length_from(lines, 0),
        cursor_spot(lines, position) matches Some((row, columns)) ==> 0 <= row < lines.len()
            && exists|chars: int|
            0 <= chars <= lines[row].len() && position == length_from(lines, 0) - length_from(
                lines,
                row,
            ) + chars && columns == wrap::column_width(#[trigger] lines[row].take(chars)),
{
    cursor_is_found(lines, 0, position);
    if let Some((row, chars)) = locate(lines, 0, position) {
        assert(wrap::column_width(lines[row].take(chars)) == wrap::column_width(
            lines[row].take(chars),
        ));
    }
}

/// How long lines are from one on: each counts its characters, and one more for the break to the
/// next.
pub proof fn lengths_count_characters_and_breaks(lines: Seq<Seq<char>>, row: int)
    requires
        0 <= row < lines.len(),
    ensures
        row == lines.len() - 1 ==> length_from(lines, row) == lines[row].len(),
        row < lines.len() - 1 ==> length_from(lines, row) == lines[row].len() + 1 + length_from(
            lines,
            row + 1,
        ),
{
    reveal_with_fuel(length_from, 2);
}

/// Placing the cursor gives that spot.
pub proof fn placing_gives_the_spot(
    lines: &Vec<String>,
    position: usize,
    located: Option<(usize, usize)>,
    placed: Option<(usize, usize)>,
)
    requires
        call_ensures(locate_cursor, (lines, position), located),
        call_ensures(place_cursor, (lines, position), placed),
    ensures
        placed is Some <==> located is Some,
        located matches Some((row, chars)) ==> placed matches Some((shown, columns)) && shown == row
            && columns == wrap::column_width(lines@[row as int]@.take(chars as int)),
{
}

} // verus!
