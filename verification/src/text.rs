//! Text operations on Unicode scalar values, and their mathematical meaning.

use vstd::prelude::*;
use vstd::string::*;
use vstd::utf8::*;

verus! {

/// The code points with the Unicode property White_Space.
pub open spec fn is_white(c: char) -> bool {
    let n = c as u32;
    ||| 0x9 <= n <= 0xd
    ||| n == 0x20
    ||| n == 0x85
    ||| n == 0xa0
    ||| n == 0x1680
    ||| 0x2000 <= n <= 0x200a
    ||| n == 0x2028
    ||| n == 0x2029
    ||| n == 0x202f
    ||| n == 0x205f
    ||| n == 0x3000
}

/// `c` with the letters `A` to `Z` mapped to `a` to `z`.
pub open spec fn lower_char(c: char) -> char {
    if 'A' <= c <= 'Z' {
        ((c as u32) + 32) as char
    } else {
        c
    }
}

/// Every character of `s` mapped by [`lower_char`].
pub open spec fn ascii_lower(s: Seq<char>) -> Seq<char> {
    Seq::new(s.len(), |i: int| lower_char(s[i]))
}

/// `s` without the white space at its end.
pub open spec fn trim_end(s: Seq<char>) -> Seq<char>
    decreases s.len(),
{
    if s.len() > 0 && is_white(s.last()) {
        trim_end(s.drop_last())
    } else {
        s
    }
}

/// `s` without the white space at its start.
pub open spec fn trim_start(s: Seq<char>) -> Seq<char>
    decreases s.len(),
{
    if s.len() > 0 && is_white(s[0]) {
        trim_start(s.drop_first())
    } else {
        s
    }
}

/// `s` without the white space at either end.
pub open spec fn trim(s: Seq<char>) -> Seq<char> {
    trim_end(trim_start(s))
}

/// Whether `needle` stands in `s` at position `i`.
pub open spec fn occurs_at(s: Seq<char>, needle: Seq<char>, i: int) -> bool {
    &&& 0 <= i
    &&& i + needle.len() <= s.len()
    &&& s.subrange(i, i + needle.len()) =~= needle
}

/// Whether `needle` stands somewhere in `s`.
pub open spec fn contains_text(s: Seq<char>, needle: Seq<char>) -> bool {
    exists|i: int| occurs_at(s, needle, i)
}

/// `std`'s `char::is_whitespace`: whether the character has the Unicode property White_Space,
/// here written out as its code points.
pub assume_specification[ char::is_whitespace ](c: char) -> (r: bool)
    ensures
        r == is_white(c),
;

/// `std`'s `char::to_ascii_lowercase`: `A` to `Z` become `a` to `z`, every other character stays.
pub assume_specification[ char::to_ascii_lowercase ](c: &char) -> (r: char)
    ensures
        r == lower_char(*c),
;

/// `std`'s `String::push`: appends one character.
pub assume_specification[ String::push ](s: &mut String, c: char)
    ensures
        final(s)@ == old(s)@.push(c),
;

/// The characters of `s`, in order.
pub(crate) fn to_chars(s: &str) -> (chars: Vec<char>)
    ensures
        chars@ == s@,
{
    let mut chars: Vec<char> = Vec::new();
    for c in it: s.chars()
        invariant
            it.seq() == s@,
            chars@ == s@.take(it.index() as int),
    {
        chars.push(c);
        assert(s@.take(it.index() + 1) =~= s@.take(it.index() as int).push(c));
    }
    assert(s@.take(s@.len() as int) =~= s@);
    chars
}

/// The text of `chars[from..to]`.
pub(crate) fn from_chars(chars: &Vec<char>, from: usize, to: usize) -> (s: String)
    requires
        from <= to <= chars@.len(),
    ensures
        s@ == chars@.subrange(from as int, to as int),
{
    let mut s = String::new();
    let mut i: usize = from;
    while i < to
        invariant
            from <= i <= to <= chars@.len(),
            s@ == chars@.subrange(from as int, i as int),
        decreases to - i,
    {
        s.push(chars[i]);
        i = i + 1;
        assert(s@ =~= chars@.subrange(from as int, i as int));
    }
    s
}

/// Whether the two texts are the same.
pub(crate) fn same_text(a: &str, b: &str) -> (r: bool)
    ensures
        r == (a@ == b@),
{
    a.to_owned() == b.to_owned()
}

/// `s` with its ASCII letters in lower case.
pub(crate) fn lowered(s: &str) -> (r: Vec<char>)
    ensures
        r@ == ascii_lower(s@),
{
    let chars = to_chars(s);
    let mut r: Vec<char> = Vec::new();
    let mut i: usize = 0;
    while i < chars.len()
        invariant
            chars@ == s@,
            i <= chars@.len(),
            r@ == ascii_lower(s@).take(i as int),
        decreases chars@.len() - i,
    {
        r.push(chars[i].to_ascii_lowercase());
        i = i + 1;
        assert(r@ =~= ascii_lower(s@).take(i as int));
    }
    assert(r@ =~= ascii_lower(s@));
    r
}

/// Whether `needle` stands in `hay` at position `at`.
fn stands_at(hay: &Vec<char>, needle: &Vec<char>, at: usize) -> (r: bool)
    requires
        at + needle@.len() <= hay@.len(),
    ensures
        r == occurs_at(hay@, needle@, at as int),
{
    let total: usize = hay.len();
    let mut j: usize = 0;
    while j < needle.len()
        invariant
            total == hay@.len(),
            at + needle@.len() <= hay@.len(),
            j <= needle@.len(),
            forall|k: int| 0 <= k < j ==> hay@[at + k] == needle@[k],
        decreases needle@.len() - j,
    {
        if hay[at + j] != needle[j] {
            proof {
                let part = hay@.subrange(at as int, at + needle@.len());
                assert(part[j as int] != needle@[j as int]);
            }
            return false;
        }
        j = j + 1;
    }
    true
}

/// Whether `needle` stands somewhere in `hay`.
pub(crate) fn holds_text(hay: &Vec<char>, needle: &str) -> (r: bool)
    ensures
        r == contains_text(hay@, needle@),
{
    let wanted = to_chars(needle);
    let mut i: usize = 0;
    while i <= hay.len() && wanted.len() <= hay.len() - i
        invariant
            wanted@ == needle@,
            forall|k: int| 0 <= k < i ==> !occurs_at(hay@, needle@, k),
            i <= hay@.len() + 1,
        decreases hay@.len() + 1 - i,
    {
        if stands_at(hay, &wanted, i) {
            return true;
        }
        i = i + 1;
    }
    false
}

/// `s` without the white space at its end.
pub(crate) fn trimmed_end(s: &str) -> (r: String)
    ensures
        r@ == trim_end(s@),
{
    let chars = to_chars(s);
    let end = end_of_text(&chars, 0);
    let r = from_chars(&chars, 0, end);
    assert(s@.subrange(0, s@.len() as int) =~= s@);
    r
}

/// `s` without the white space at either end.
pub(crate) fn trimmed(s: &str) -> (r: String)
    ensures
        r@ == trim(s@),
{
    let chars = to_chars(s);
    let mut start: usize = 0;
    assert(chars@.subrange(0, chars@.len() as int) =~= chars@);
    while start < chars.len() && chars[start].is_whitespace()
        invariant
            start <= chars@.len(),
            trim_start(chars@) == trim_start(chars@.subrange(start as int, chars@.len() as int)),
        decreases chars@.len() - start,
    {
        let ghost rest = chars@.subrange(start as int, chars@.len() as int);
        start = start + 1;
        assert(rest.drop_first() =~= chars@.subrange(start as int, chars@.len() as int));
    }
    let end = end_of_text(&chars, start);
    from_chars(&chars, start, end)
}

/// Where the text of `chars[from..]` ends once the white space behind it is cut off.
fn end_of_text(chars: &Vec<char>, from: usize) -> (end: usize)
    requires
        from <= chars@.len(),
    ensures
        from <= end <= chars@.len(),
        chars@.subrange(from as int, end as int) == trim_end(
            chars@.subrange(from as int, chars@.len() as int),
        ),
{
    let mut end: usize = chars.len();
    while end > from && chars[end - 1].is_whitespace()
        invariant
            from <= end <= chars@.len(),
            trim_end(chars@.subrange(from as int, chars@.len() as int)) == trim_end(
                chars@.subrange(from as int, end as int),
            ),
        decreases end,
    {
        let ghost kept = chars@.subrange(from as int, end as int);
        end = end - 1;
        assert(kept.drop_last() =~= chars@.subrange(from as int, end as int));
    }
    end
}

/// `s` behind `prefix`, where it begins with it.
pub(crate) fn behind_prefix(s: &str, prefix: &str) -> (r: Option<String>)
    ensures
        r is Some <==> occurs_at(s@, prefix@, 0),
        r matches Some(rest) ==> rest@ == s@.skip(prefix@.len() as int),
{
    let chars = to_chars(s);
    let lead = to_chars(prefix);
    if lead.len() <= chars.len() && stands_at(&chars, &lead, 0) {
        let rest = from_chars(&chars, lead.len(), chars.len());
        assert(rest@ =~= s@.skip(prefix@.len() as int));
        Some(rest)
    } else {
        None
    }
}

/// `count` copies of `c`.
pub open spec fn repeated(c: char, count: nat) -> Seq<char> {
    Seq::new(count, |i: int| c)
}

/// `count` copies of `c`.
pub(crate) fn repeat_char(c: char, count: usize) -> (s: String)
    ensures
        s@ == repeated(c, count as nat),
{
    let mut s = String::new();
    let mut i: usize = 0;
    while i < count
        invariant
            i <= count,
            s@ =~= repeated(c, i as nat),
        decreases count - i,
    {
        s.push(c);
        i = i + 1;
    }
    s
}

/// The decimal digit of `d`.
pub open spec fn digit(d: nat) -> char {
    (('0' as u32) + d) as char
}

/// `n` in decimal, without leading zeros.
pub open spec fn decimal(n: nat) -> Seq<char>
    decreases n,
{
    if n < 10 {
        seq![digit(n)]
    } else {
        decimal(n / 10).push(digit(n % 10))
    }
}

/// `n` in decimal, without leading zeros.
pub(crate) fn decimal_text(n: usize) -> (s: String)
    ensures
        s@ == decimal(n as nat),
    decreases n,
{
    let digits: [char; 10] = ['0', '1', '2', '3', '4', '5', '6', '7', '8', '9'];
    let last: usize = n % 10;
    assert(digits@[last as int] == digit(last as nat));
    if n < 10 {
        let mut s = String::new();
        s.push(digits[last]);
        assert(s@ =~= decimal(n as nat));
        s
    } else {
        let mut s = decimal_text(n / 10);
        s.push(digits[last]);
        s
    }
}

/// The texts of a list of strings.
pub open spec fn texts(list: Seq<String>) -> Seq<Seq<char>> {
    Seq::new(list.len(), |i: int| list[i]@)
}

/// The elements of `list`, with `sep` between neighbours.
pub open spec fn joined(list: Seq<Seq<char>>, sep: Seq<char>) -> Seq<char>
    decreases list.len(),
{
    if list.len() == 0 {
        Seq::empty()
    } else if list.len() == 1 {
        list[0]
    } else {
        joined(list.drop_last(), sep) + sep + list.last()
    }
}

/// The elements of `list`, with `sep` between neighbours.
pub(crate) fn join_texts(list: &[String], sep: &str) -> (s: String)
    ensures
        s@ == joined(texts(list@), sep@),
{
    let mut s = String::new();
    let mut i: usize = 0;
    assert(s@ =~= joined(texts(list@).take(0), sep@));
    while i < list.len()
        invariant
            i <= list@.len(),
            s@ == joined(texts(list@).take(i as int), sep@),
        decreases list@.len() - i,
    {
        let ghost before = texts(list@).take(i as int);
        if i > 0 {
            s.append(sep);
        }
        s.append(list[i].as_str());
        i = i + 1;
        proof {
            let after = texts(list@).take(i as int);
            assert(after.drop_last() =~= before);
            assert(after.last() == list@[i - 1]@);
            assert(s@ =~= joined(after, sep@));
        }
    }
    assert(texts(list@).take(list@.len() as int) =~= texts(list@));
    s
}

/// Lowering works piece by piece.
pub proof fn lower_of_concat(a: Seq<char>, b: Seq<char>)
    ensures
        ascii_lower(a + b) == ascii_lower(a) + ascii_lower(b),
{
    assert(ascii_lower(a + b) =~= ascii_lower(a) + ascii_lower(b));
}

/// What stands in a text still stands in it when more is put around it.
pub proof fn contained_in_larger(
    before: Seq<char>,
    s: Seq<char>,
    after: Seq<char>,
    needle: Seq<char>,
)
    requires
        contains_text(s, needle),
    ensures
        contains_text(before + s + after, needle),
{
    let i = choose|i: int| occurs_at(s, needle, i);
    let whole = before + s + after;
    let at = before.len() + i;
    assert(whole.subrange(at, at + needle.len()) =~= s.subrange(i, i + needle.len()));
    assert(occurs_at(whole, needle, at));
}

/// Whether `s` is nothing but white space.
pub open spec fn all_white(s: Seq<char>) -> bool {
    forall|i: int| 0 <= i < s.len() ==> is_white(#[trigger] s[i])
}

proof fn trim_start_skips_white(before: Seq<char>, s: Seq<char>)
    requires
        all_white(before),
    ensures
        trim_start(before + s) == trim_start(s),
    decreases before.len(),
{
    if before.len() > 0 {
        assert((before + s)[0] == before[0]);
        assert((before + s).drop_first() =~= before.drop_first() + s);
        trim_start_skips_white(before.drop_first(), s);
    } else {
        assert(before + s =~= s);
    }
}

/// White space put behind a text is what trimming its end takes away again.
pub proof fn trim_end_skips_white(s: Seq<char>, after: Seq<char>)
    requires
        all_white(after),
    ensures
        trim_end(s + after) == trim_end(s),
    decreases after.len(),
{
    if after.len() > 0 {
        assert((s + after).last() == after.last());
        assert((s + after).drop_last() =~= s + after.drop_last());
        trim_end_skips_white(s, after.drop_last());
    } else {
        assert(s + after =~= s);
    }
}

proof fn trim_skips_white_behind(s: Seq<char>, after: Seq<char>)
    requires
        all_white(after),
    ensures
        trim(s + after) == trim(s),
    decreases s.len(),
{
    if s.len() == 0 {
        assert(s + after =~= after + s);
        trim_start_skips_white(after, s);
    } else if is_white(s[0]) {
        assert((s + after).drop_first() =~= s.drop_first() + after);
        trim_skips_white_behind(s.drop_first(), after);
    } else {
        trim_end_skips_white(s, after);
    }
}

/// White space around a text does not change what is left after trimming.
pub proof fn trim_ignores_padding(before: Seq<char>, s: Seq<char>, after: Seq<char>)
    requires
        all_white(before),
        all_white(after),
    ensures
        trim(before + s + after) == trim(s),
{
    trim_skips_white_behind(before + s, after);
    trim_start_skips_white(before, s);
}

proof fn trim_end_ends_in_text(s: Seq<char>)
    ensures
        trim_end(s).len() > 0 ==> !is_white(trim_end(s).last()),
    decreases s.len(),
{
    if s.len() > 0 && is_white(s.last()) {
        trim_end_ends_in_text(s.drop_last());
    }
}

/// What is left after trimming ends in something else than white space.
pub proof fn trim_ends_in_text(s: Seq<char>)
    ensures
        trim(s).len() > 0 ==> !is_white(trim(s).last()),
{
    trim_end_ends_in_text(trim_start(s));
}

proof fn trim_end_keeps_text(s: Seq<char>, i: int)
    requires
        0 <= i < s.len(),
        !is_white(s[i]),
    ensures
        trim_end(s).len() > i,
    decreases s.len(),
{
    if is_white(s.last()) {
        trim_end_keeps_text(s.drop_last(), i);
    }
}

/// A text with something else than white space in it does not vanish when it is trimmed.
pub proof fn trim_keeps_text(s: Seq<char>, i: int)
    requires
        0 <= i < s.len(),
        !is_white(s[i]),
    ensures
        trim(s).len() > 0,
    decreases s.len(),
{
    if is_white(s[0]) {
        trim_keeps_text(s.drop_first(), i - 1);
    } else {
        trim_end_keeps_text(s, 0);
    }
}

/// `s` without its white space.
pub open spec fn without_white(s: Seq<char>) -> Seq<char>
    decreases s.len(),
{
    if s.len() == 0 {
        Seq::empty()
    } else if is_white(s.last()) {
        without_white(s.drop_last())
    } else {
        without_white(s.drop_last()).push(s.last())
    }
}

/// Leaving out white space works piece by piece.
pub proof fn without_white_of_concat(a: Seq<char>, b: Seq<char>)
    ensures
        without_white(a + b) == without_white(a) + without_white(b),
    decreases b.len(),
{
    if b.len() == 0 {
        assert(a + b =~= a);
    } else {
        assert((a + b).drop_last() =~= a + b.drop_last());
        without_white_of_concat(a, b.drop_last());
    }
    assert(without_white(a + b) =~= without_white(a) + without_white(b));
}

/// Where trimming leaves nothing of a text, leaving out its white space does not either.
pub proof fn without_white_of_blank(s: Seq<char>)
    requires
        trim(s).len() == 0,
    ensures
        without_white(s) == Seq::<char>::empty(),
{
    if exists|i: int| 0 <= i < s.len() && !is_white(#[trigger] s[i]) {
        let i = choose|i: int| 0 <= i < s.len() && !is_white(#[trigger] s[i]);
        trim_keeps_text(s, i);
    }
    without_white_of_all_white(s);
}

proof fn without_white_of_all_white(s: Seq<char>)
    requires
        all_white(s),
    ensures
        without_white(s) == Seq::<char>::empty(),
    decreases s.len(),
{
    if s.len() > 0 {
        without_white_of_all_white(s.drop_last());
    }
}

/// The bytes of two texts in a row are the bytes of each in a row.
pub proof fn encode_of_concat(a: Seq<char>, b: Seq<char>)
    ensures
        encode_utf8(a + b) == encode_utf8(a) + encode_utf8(b),
    decreases a.len(),
{
    if a.len() == 0 {
        assert(a + b =~= b);
        assert(encode_utf8(a) + encode_utf8(b) =~= encode_utf8(b));
    } else {
        assert((a + b).drop_first() =~= a.drop_first() + b);
        encode_of_concat(a.drop_first(), b);
        assert(encode_utf8(a + b) =~= encode_utf8(a) + encode_utf8(b));
    }
}

/// The smaller of two numbers.
pub open spec fn min(a: int, b: int) -> int {
    if a <= b {
        a
    } else {
        b
    }
}

/// The larger of two numbers.
pub open spec fn max(a: int, b: int) -> int {
    if a <= b {
        b
    } else {
        a
    }
}

/// The byte offset of the character position `char_idx` in `s`: the number of bytes of the
/// characters in front of it. A position past the end gives the length of `s`.
pub fn char_to_byte_idx(s: &str, char_idx: usize) -> (r: usize)
    ensures
        r == encode_utf8(s@.take(min(char_idx as int, s@.len() as int))).len(),
{
    let total: usize = s.unicode_len();
    let kept: usize = if char_idx < total {
        char_idx
    } else {
        total
    };
    let front = s.substring_char(0, kept);
    assert(front@ =~= s@.take(kept as int));
    front.as_bytes().len()
}

/// The byte offset of a character position cuts the bytes of a text between two characters: what
/// is in front are the bytes of the characters in front, the rest are those of the rest.
pub proof fn byte_offset_cuts_between_characters(s: Seq<char>, at: int)
    requires
        0 <= at <= s.len(),
    ensures
        encode_utf8(s.take(at)).len() <= encode_utf8(s).len(),
        encode_utf8(s).take(encode_utf8(s.take(at)).len() as int) == encode_utf8(s.take(at)),
        encode_utf8(s).skip(encode_utf8(s.take(at)).len() as int) == encode_utf8(s.skip(at)),
        is_char_boundary(encode_utf8(s), encode_utf8(s.take(at)).len() as int),
    decreases at,
{
    assert(s.take(at) + s.skip(at) =~= s);
    encode_of_concat(s.take(at), s.skip(at));
    let n = encode_utf8(s.take(at)).len() as int;
    assert(encode_utf8(s).take(n) =~= encode_utf8(s.take(at)));
    assert(encode_utf8(s).skip(n) =~= encode_utf8(s.skip(at)));
    encode_utf8_valid_utf8(s);
    if at > 0 {
        encode_utf8_first_scalar(s);
        let tail = s.drop_first();
        assert(tail.take(at - 1) =~= s.take(at).drop_first());
        byte_offset_cuts_between_characters(tail, at - 1);
        let width = encode_scalar(s[0] as u32).len() as int;
        assert(n == width + encode_utf8(tail.take(at - 1)).len());
        assert(pop_first_scalar(encode_utf8(s)) =~= encode_utf8(tail));
    }
}

/// `s` cut in two at the character position `at`.
pub(crate) fn cut_at(s: &str, at: usize) -> (r: (&str, &str))
    requires
        at <= s@.len(),
    ensures
        r.0@ == s@.take(at as int),
        r.1@ == s@.skip(at as int),
{
    let offset: usize = char_to_byte_idx(s, at);
    proof {
        byte_offset_cuts_between_characters(s@, at as int);
    }
    let (front, rest) = s.split_at(offset);
    proof {
        assert(s.spec_bytes().subrange(0, offset as int) =~= s.spec_bytes().take(offset as int));
        assert(s.spec_bytes().subrange(offset as int, s.spec_bytes().len() as int)
            =~= s.spec_bytes().skip(offset as int));
        encode_utf8_decode_utf8(front@);
        encode_utf8_decode_utf8(s@.take(at as int));
        encode_utf8_decode_utf8(rest@);
        encode_utf8_decode_utf8(s@.skip(at as int));
    }
    (front, rest)
}

/// Lowering maps the letters `A` to `Z` onto `a` to `z`, leaves every other character as it is, and
/// leaves each in its place.
pub proof fn lowering_maps_letters(s: Seq<char>, i: int)
    requires
        0 <= i < s.len(),
    ensures
        ascii_lower(s).len() == s.len(),
        'A' <= s[i] <= 'Z' ==> ascii_lower(s)[i] as u32 == s[i] as u32 + 32,
        !('A' <= s[i] <= 'Z') ==> ascii_lower(s)[i] == s[i],
{
}

/// Lowering neither makes white space nor takes it away.
pub proof fn lowering_keeps_white(c: char)
    ensures
        is_white(lower_char(c)) == is_white(c),
{
}

/// Trimming the end keeps the front of a text up to its last character that is no white space.
pub proof fn trim_end_cuts_white(s: Seq<char>)
    ensures
        trim_end(s).len() <= s.len(),
        trim_end(s) == s.take(trim_end(s).len() as int),
        all_white(s.skip(trim_end(s).len() as int)),
        trim_end(s).len() > 0 ==> !is_white(trim_end(s).last()),
    decreases s.len(),
{
    if s.len() > 0 && is_white(s.last()) {
        let front = s.drop_last();
        trim_end_cuts_white(front);
        let n = trim_end(s).len() as int;
        assert(s.take(n) =~= front.take(n));
        assert forall|i: int| 0 <= i < s.skip(n).len() implies is_white(#[trigger] s.skip(n)[i]) by {
            if i < front.skip(n).len() {
                assert(front.skip(n)[i] == s.skip(n)[i]);
            }
        }
    } else {
        assert(s.take(s.len() as int) =~= s);
    }
}

/// Trimming keeps a stretch of a text: what is cut off on either side is white space, and what is
/// kept neither begins nor ends with any. Returns where the stretch begins.
pub proof fn trim_cuts_white(s: Seq<char>) -> (start: int)
    ensures
        0 <= start,
        start + trim(s).len() <= s.len(),
        trim(s) == s.subrange(start, start + trim(s).len()),
        all_white(s.take(start)),
        all_white(s.skip(start + trim(s).len())),
        trim(s).len() > 0 ==> !is_white(trim(s)[0]) && !is_white(trim(s).last()),
    decreases s.len(),
{
    if s.len() > 0 && is_white(s[0]) {
        let rest = s.drop_first();
        let inner = trim_cuts_white(rest);
        let n = trim(s).len();
        assert(s.subrange(inner + 1, inner + 1 + n) =~= rest.subrange(inner, inner + n));
        assert forall|i: int| 0 <= i < s.take(inner + 1).len() implies is_white(
            #[trigger] s.take(inner + 1)[i],
        ) by {
            if i > 0 {
                assert(rest.take(inner)[i - 1] == s.take(inner + 1)[i]);
            }
        }
        assert(s.skip(inner + 1 + n) =~= rest.skip(inner + n));
        inner + 1
    } else {
        trim_end_cuts_white(s);
        assert(s.subrange(0, trim(s).len() as int) =~= s.take(trim(s).len() as int));
        0
    }
}

/// A text without white space at its ends is what is left of it after trimming.
pub proof fn trim_of_trimmed(s: Seq<char>)
    requires
        s.len() > 0 ==> !is_white(s[0]) && !is_white(s.last()),
    ensures
        trim(s) == s,
        trim_end(s) == s,
{
}

/// Trimming leaves nothing exactly where there is nothing but white space.
pub proof fn trim_of_white(s: Seq<char>)
    ensures
        trim(s).len() == 0 <==> all_white(s),
        trim_end(s).len() == 0 <==> all_white(s),
{
    if all_white(s) {
        trim_ignores_padding(s, Seq::empty(), Seq::empty());
        assert(s + Seq::<char>::empty() + Seq::<char>::empty() =~= s);
        trim_end_skips_white(Seq::empty(), s);
        assert(Seq::<char>::empty() + s =~= s);
    } else {
        let i = choose|i: int| 0 <= i < s.len() && !is_white(#[trigger] s[i]);
        trim_keeps_text(s, i);
        trim_end_keeps_text(s, i);
    }
}

/// A text stands in another exactly where the other is that text with something around it.
pub proof fn contained_means_surrounded(s: Seq<char>, needle: Seq<char>)
    ensures
        contains_text(s, needle) <==> exists|before: Seq<char>, after: Seq<char>|
            s == #[trigger] (before + needle + after),
{
    if contains_text(s, needle) {
        let i = choose|i: int| occurs_at(s, needle, i);
        assert(s.subrange(i, i + needle.len()) == needle);
        assert(s =~= s.take(i) + needle + s.skip(i + needle.len()));
    }
    if exists|before: Seq<char>, after: Seq<char>| s == #[trigger] (before + needle + after) {
        let (before, after) = choose|before: Seq<char>, after: Seq<char>|
            s == #[trigger] (before + needle + after);
        let at = before.len() as int;
        assert(s.subrange(at, at + needle.len()) =~= needle);
        assert(occurs_at(s, needle, at));
    }
}

/// Repeating a character gives that many of it.
pub proof fn repeated_is_all_one(c: char, count: nat)
    ensures
        repeated(c, count).len() == count,
        forall|i: int| 0 <= i < count ==> #[trigger] repeated(c, count)[i] == c,
{
}

/// The number that a row of decimal digits stands for.
pub open spec fn number_of(digits: Seq<char>) -> int
    decreases digits.len(),
{
    if digits.len() == 0 {
        0
    } else {
        10 * number_of(digits.drop_last()) + (digits.last() as u32 - '0' as u32)
    }
}

/// A number in decimal reads as that number, in digits alone, and begins with a zero only where it
/// is nothing else.
pub proof fn decimal_reads_back(n: nat)
    ensures
        number_of(decimal(n)) == n,
        decimal(n).len() >= 1,
        forall|i: int| 0 <= i < decimal(n).len() ==> '0' <= #[trigger] decimal(n)[i] <= '9',
        decimal(n)[0] == '0' ==> n == 0,
    decreases n,
{
    reveal_with_fuel(number_of, 2);
    if n < 10 {
        assert(decimal(n).drop_last() =~= Seq::<char>::empty());
    } else {
        decimal_reads_back(n / 10);
        assert(decimal(n).drop_last() =~= decimal(n / 10));
    }
}

/// Joining puts the separator between neighbours and nowhere else.
pub proof fn joining_adds(list: Seq<Seq<char>>, item: Seq<char>, sep: Seq<char>)
    ensures
        joined(Seq::empty(), sep) == Seq::<char>::empty(),
        joined(seq![item], sep) == item,
        list.len() > 0 ==> joined(list.push(item), sep) == joined(list, sep) + sep + item,
{
    if list.len() > 0 {
        assert(list.push(item).drop_last() =~= list);
    }
}

/// The smaller and the larger of two numbers are the two numbers.
pub proof fn min_and_max(a: int, b: int)
    ensures
        min(a, b) <= a && min(a, b) <= b,
        max(a, b) >= a && max(a, b) >= b,
        min(a, b) + max(a, b) == a + b,
        min(a, b) == a || min(a, b) == b,
{
}

/// A byte offset counts the bytes of the characters in front of a position, and those of the whole
/// text where the position is past its end.
pub proof fn byte_offsets_count_bytes(s: &str, char_idx: usize, r: usize)
    requires
        call_ensures(char_to_byte_idx, (s, char_idx), r),
    ensures
        char_idx <= s@.len() ==> r == encode_utf8(s@.take(char_idx as int)).len(),
        char_idx >= s@.len() ==> r == encode_utf8(s@).len(),
        is_char_boundary(encode_utf8(s@), r as int),
{
    let at = min(char_idx as int, s@.len() as int);
    byte_offset_cuts_between_characters(s@, at);
    assert(s@.take(s@.len() as int) =~= s@);
}

/// The texts of a list of strings are those of its strings, each in its place.
pub proof fn texts_are_in_place(list: Seq<String>, i: int)
    requires
        0 <= i < list.len(),
    ensures
        texts(list).len() == list.len(),
        texts(list)[i] == list[i]@,
{
}

/// Leaving out white space leaves out all of it, and of other text nothing.
pub proof fn without_white_keeps_the_rest(s: Seq<char>, c: char)
    ensures
        without_white(Seq::empty()) == Seq::<char>::empty(),
        is_white(c) ==> without_white(s.push(c)) == without_white(s),
        !is_white(c) ==> without_white(s.push(c)) == without_white(s).push(c),
{
    assert(s.push(c).drop_last() =~= s);
}

} // verus!
