//! The assistant's reply: its shape, and how it is found in what the model wrote.

use crate::text;
use vstd::prelude::*;
use vstd::string::*;

verus! {

/// Something that the assistant wants done in the pane.
#[derive(Debug, PartialEq, Eq)]
pub enum AssistantAction {
    RunCommand { command: String },
    SendInput { text: String, submit: bool },
    SendKeys { keys: Vec<String> },
}

/// What the assistant says and what it wants done.
#[derive(Debug, Default, PartialEq, Eq)]
pub struct AssistantReply {
    pub message: String,
    pub actions: Vec<AssistantAction>,
}

/// The meaning of an [`AssistantAction`].
pub ghost enum ActionView {
    RunCommand { command: Seq<char> },
    SendInput { text: Seq<char>, submit: bool },
    SendKeys { keys: Seq<Seq<char>> },
}

/// The meaning of an [`AssistantReply`].
pub ghost struct ReplyView {
    pub message: Seq<char>,
    pub actions: Seq<ActionView>,
}

impl View for AssistantAction {
    type V = ActionView;

    open spec fn view(&self) -> ActionView {
        match self {
            AssistantAction::RunCommand { command } => ActionView::RunCommand { command: command@ },
            AssistantAction::SendInput { text, submit } => ActionView::SendInput {
                text: text@,
                submit: *submit,
            },
            AssistantAction::SendKeys { keys } => ActionView::SendKeys { keys: text::texts(keys@) },
        }
    }
}

/// The meanings of a list of actions.
pub open spec fn action_views(actions: Seq<AssistantAction>) -> Seq<ActionView> {
    Seq::new(actions.len(), |i: int| actions[i]@)
}

impl View for AssistantReply {
    type V = ReplyView;

    open spec fn view(&self) -> ReplyView {
        ReplyView { message: self.message@, actions: action_views(self.actions@) }
    }
}

/// Why no reply could be read.
#[derive(Debug, PartialEq, Eq)]
pub enum ReplyError {
    /// The text holds no JSON object.
    NoJson,
    /// The JSON object in the text is not a reply; with the decoder's words.
    Malformed(String),
}

/// The first position of `c` in `s`.
pub open spec fn first_position(s: Seq<char>, c: char) -> Option<int>
    decreases s.len(),
{
    if s.len() == 0 {
        None
    } else if s[0] == c {
        Some(0int)
    } else {
        match first_position(s.drop_first(), c) {
            Some(i) => Some(i + 1),
            None => None,
        }
    }
}

/// The last position of `c` in `s`.
pub open spec fn last_position(s: Seq<char>, c: char) -> Option<int>
    decreases s.len(),
{
    if s.len() == 0 {
        None
    } else if s.last() == c {
        Some(s.len() - 1)
    } else {
        last_position(s.drop_last(), c)
    }
}

/// The part of `raw` from its first `{` to its last `}`, where that comes later.
pub open spec fn json_object(raw: Seq<char>) -> Option<Seq<char>> {
    match (first_position(raw, '{'), last_position(raw, '}')) {
        (Some(start), Some(end)) => if end < start {
            None
        } else {
            Some(raw.subrange(start, end + 1))
        },
        _ => None,
    }
}

proof fn first_position_is(s: Seq<char>, c: char, i: int)
    requires
        0 <= i < s.len(),
        s[i] == c,
        forall|k: int| 0 <= k < i ==> s[k] != c,
    ensures
        first_position(s, c) == Some(i),
    decreases s.len(),
{
    if i > 0 {
        first_position_is(s.drop_first(), c, i - 1);
    }
}

proof fn first_position_none(s: Seq<char>, c: char)
    requires
        forall|k: int| 0 <= k < s.len() ==> s[k] != c,
    ensures
        first_position(s, c) is None,
    decreases s.len(),
{
    if s.len() > 0 {
        first_position_none(s.drop_first(), c);
    }
}

proof fn last_position_is(s: Seq<char>, c: char, i: int)
    requires
        0 <= i < s.len(),
        s[i] == c,
        forall|k: int| i < k < s.len() ==> s[k] != c,
    ensures
        last_position(s, c) == Some(i),
    decreases s.len(),
{
    if i < s.len() - 1 {
        last_position_is(s.drop_last(), c, i);
    }
}

proof fn last_position_none(s: Seq<char>, c: char)
    requires
        forall|k: int| 0 <= k < s.len() ==> s[k] != c,
    ensures
        last_position(s, c) is None,
    decreases s.len(),
{
    if s.len() > 0 {
        last_position_none(s.drop_last(), c);
    }
}

fn find_first(chars: &Vec<char>, c: char) -> (r: Option<usize>)
    ensures
        match r {
            Some(i) => i < chars@.len() && first_position(chars@, c) == Some(i as int),
            None => first_position(chars@, c) is None,
        },
{
    let mut i: usize = 0;
    while i < chars.len()
        invariant
            i <= chars@.len(),
            forall|k: int| 0 <= k < i ==> chars@[k] != c,
        decreases chars@.len() - i,
    {
        if chars[i] == c {
            proof {
                first_position_is(chars@, c, i as int);
            }
            return Some(i);
        }
        i = i + 1;
    }
    proof {
        first_position_none(chars@, c);
    }
    None
}

fn find_last(chars: &Vec<char>, c: char) -> (r: Option<usize>)
    ensures
        match r {
            Some(i) => i < chars@.len() && i < usize::MAX && last_position(chars@, c) == Some(
                i as int,
            ),
            None => last_position(chars@, c) is None,
        },
{
    let mut i: usize = chars.len();
    while i > 0
        invariant
            i <= chars@.len(),
            forall|k: int| i <= k < chars@.len() ==> chars@[k] != c,
        decreases i,
    {
        i = i - 1;
        if chars[i] == c {
            proof {
                last_position_is(chars@, c, i as int);
            }
            return Some(i);
        }
    }
    proof {
        last_position_none(chars@, c);
    }
    None
}

/// The text from the first `{` to the last `}` of `raw`, if they stand in that order.
pub fn extract_json_object(raw: &str) -> (r: Option<String>)
    ensures
        r is Some <==> json_object(raw@) is Some,
        r matches Some(json) ==> json_object(raw@) == Some(json@),
{
    let chars = text::to_chars(raw);
    match (find_first(&chars, '{'), find_last(&chars, '}')) {
        (Some(start), Some(end)) => {
            if end < start {
                None
            } else {
                Some(text::from_chars(&chars, start, end + 1))
            }
        },
        _ => None,
    }
}

/// Whether `decode` may refuse `raw`.
pub open spec fn refused<F: Fn(&str) -> Result<AssistantReply, String>>(
    decode: F,
    raw: &str,
) -> bool {
    exists|words: String| #[trigger] decode.ensures((raw,), Err(words))
}

/// Whether `decode` may refuse `raw` and then say `second` of the JSON object in it.
pub open spec fn fell_back<F: Fn(&str) -> Result<AssistantReply, String>>(
    decode: F,
    raw: &str,
    second: Result<AssistantReply, String>,
) -> bool {
    refused(decode, raw) && exists|json: &str|
        json_object(raw@) == Some(json@) && #[trigger] decode.ensures((json,), second)
}

/// Whether `r` is what reading `raw` with `decode` may come to: what `decode` makes of `raw`, or,
/// where it refuses that, what it makes of the JSON object in `raw`.
pub open spec fn is_reading<F: Fn(&str) -> Result<AssistantReply, String>>(
    decode: F,
    raw: &str,
    r: Result<AssistantReply, ReplyError>,
) -> bool {
    match r {
        Ok(reply) => decode.ensures((raw,), Ok(reply)) || fell_back(decode, raw, Ok(reply)),
        Err(ReplyError::NoJson) => refused(decode, raw) && json_object(raw@) is None,
        Err(ReplyError::Malformed(words)) => fell_back(decode, raw, Err(words)),
    }
}

/// Reads the assistant's reply out of `raw`. `decode` turns JSON text into a reply, or says what is
/// wrong with it. It is handed `raw` first; where that fails, it is handed the JSON object in `raw`.
pub fn parse_assistant_reply<F: Fn(&str) -> Result<AssistantReply, String>>(
    raw: &str,
    decode: F,
) -> (r: Result<AssistantReply, ReplyError>)
    requires
        forall|s: &str| #[trigger] decode.requires((s,)),
    ensures
        is_reading(decode, raw, r),
{
    let first = decode(raw);
    match first {
        Ok(reply) => Ok(reply),
        Err(words) => {
            assert(decode.ensures((raw,), Err(words)));
            match extract_json_object(raw) {
                None => Err(ReplyError::NoJson),
                Some(object) => {
                    let second = decode(object.as_str());
                    assert(fell_back(decode, raw, second));
                    match second {
                        Ok(reply) => Ok(reply),
                        Err(words) => Err(ReplyError::Malformed(words)),
                    }
                },
            }
        },
    }
}

/// Whether `raw` is an object `json` between two texts that do not hide where it begins and ends.
pub open spec fn surrounded(
    raw: Seq<char>,
    before: Seq<char>,
    json: Seq<char>,
    after: Seq<char>,
) -> bool {
    &&& raw == before + json + after
    &&& json.len() >= 2
    &&& json[0] == '{'
    &&& json.last() == '}'
    &&& forall|i: int| 0 <= i < before.len() ==> #[trigger] before[i] != '{'
    &&& forall|i: int| 0 <= i < after.len() ==> #[trigger] after[i] != '}'
}

/// Text around a JSON object, without an opening brace in front of it or a closing one behind it,
/// does not change the object that is found.
pub proof fn json_object_ignores_surroundings(
    raw: Seq<char>,
    before: Seq<char>,
    json: Seq<char>,
    after: Seq<char>,
)
    requires
        surrounded(raw, before, json, after),
    ensures
        json_object(raw) == Some(json),
{
    let start = before.len() as int;
    let end = before.len() + json.len() - 1;
    assert(raw[start] == '{');
    assert(raw[end] == '}');
    first_position_is(raw, '{', start);
    last_position_is(raw, '}', end);
    assert(raw.subrange(start, end + 1) =~= json);
}

/// What the decoder said last where reading came to `r`; `None` where it was handed no object.
pub open spec fn decoder_result(r: Result<AssistantReply, ReplyError>) -> Option<
    Result<AssistantReply, String>,
> {
    match r {
        Ok(reply) => Some(Ok(reply)),
        Err(ReplyError::Malformed(words)) => Some(Err(words)),
        Err(ReplyError::NoJson) => None,
    }
}

/// A reply that is nothing but JSON is read as the decoder takes it.
pub proof fn plain_reply_is_read<F: Fn(&str) -> Result<AssistantReply, String>>(
    decode: F,
    raw: &str,
    r: Result<AssistantReply, ReplyError>,
)
    requires
        is_reading(decode, raw, r),
        forall|words: String| !#[trigger] decode.ensures((raw,), Err(words)),
    ensures
        r matches Ok(reply) && decode.ensures((raw,), Ok(reply)),
{
}

/// A reply with prose or a fence around its JSON, which the decoder refuses as a whole, is read as
/// the decoder takes the JSON object alone; where it refuses that too, its words come back.
pub proof fn fenced_reply_is_read<F: Fn(&str) -> Result<AssistantReply, String>>(
    decode: F,
    raw: &str,
    before: Seq<char>,
    json: Seq<char>,
    after: Seq<char>,
    r: Result<AssistantReply, ReplyError>,
)
    requires
        is_reading(decode, raw, r),
        surrounded(raw@, before, json, after),
        forall|reply: AssistantReply| !#[trigger] decode.ensures((raw,), Ok(reply)),
    ensures
        decoder_result(r) is Some,
        exists|object: &str|
            object@ == json && #[trigger] decode.ensures((object,), decoder_result(r)->0),
{
    json_object_ignores_surroundings(raw@, before, json, after);
    let second = decoder_result(r)->0;
    assert(fell_back(decode, raw, second));
    let object = choose|object: &str|
        json_object(raw@) == Some(object@) && #[trigger] decode.ensures((object,), second);
    assert(object@ == json);
}

/// An action means what its fields say.
pub proof fn meaning_of_an_action(action: AssistantAction)
    ensures
        action matches AssistantAction::RunCommand { command } ==> action@ == (
        ActionView::RunCommand { command: command@ }),
        action matches AssistantAction::SendInput { text, submit } ==> action@ == (
        ActionView::SendInput { text: text@, submit }),
        action matches AssistantAction::SendKeys { keys } ==> (action@ matches ActionView::SendKeys {
            keys: names,
        } && names.len() == keys@.len() && forall|i: int|
            0 <= i < keys@.len() ==> #[trigger] names[i] == keys@[i]@),
{
}

/// A reply means its message and its actions, all of them and in order.
pub proof fn meaning_of_a_reply(reply: AssistantReply)
    ensures
        reply@.message == reply.message@,
        reply@.actions.len() == reply.actions@.len(),
        forall|i: int|
            0 <= i < reply.actions@.len() ==> #[trigger] reply@.actions[i] == reply.actions@[i]@,
{
}

/// The object that is found begins with the first opening brace and ends with the last closing one,
/// and one is found exactly where some opening brace has a closing one behind it.
pub proof fn the_object_is_the_widest(raw: Seq<char>)
    ensures
        json_object(raw) matches Some(json) ==> exists|before: Seq<char>, after: Seq<char>|
            #[trigger] surrounded(raw, before, json, after),
        json_object(raw) is Some <==> exists|i: int, k: int|
            0 <= i < k < raw.len() && #[trigger] raw[i] == '{' && #[trigger] raw[k] == '}',
{
    first_position_holds(raw, '{');
    last_position_holds(raw, '}');
    if let Some(json) = json_object(raw) {
        let start = first_position(raw, '{')->0;
        let end = last_position(raw, '}')->0;
        assert(raw[start] == '{' && raw[end] == '}');
        assert(raw =~= raw.take(start) + json + raw.skip(end + 1));
        assert(surrounded(raw, raw.take(start), json, raw.skip(end + 1)));
    }
}

proof fn first_position_holds(s: Seq<char>, c: char)
    ensures
        match first_position(s, c) {
            Some(i) => 0 <= i < s.len() && s[i] == c && forall|k: int| 0 <= k < i ==> s[k] != c,
            None => forall|k: int| 0 <= k < s.len() ==> s[k] != c,
        },
    decreases s.len(),
{
    if s.len() > 0 && s[0] != c {
        let rest = s.drop_first();
        first_position_holds(rest, c);
        assert(forall|k: int| 1 <= k < s.len() ==> s[k] == rest[k - 1]);
    }
}

proof fn last_position_holds(s: Seq<char>, c: char)
    ensures
        match last_position(s, c) {
            Some(i) => 0 <= i < s.len() && s[i] == c && forall|k: int|
                i < k < s.len() ==> s[k] != c,
            None => forall|k: int| 0 <= k < s.len() ==> s[k] != c,
        },
    decreases s.len(),
{
    if s.len() > 0 && s.last() != c {
        let front = s.drop_last();
        last_position_holds(front, c);
        assert(forall|k: int| 0 <= k < front.len() ==> s[k] == front[k]);
    }
}

/// What the decoder refuses and holds no object is reported as such.
pub proof fn text_without_an_object_is_no_reply<F: Fn(&str) -> Result<AssistantReply, String>>(
    decode: F,
    raw: &str,
    r: Result<AssistantReply, ReplyError>,
)
    requires
        call_ensures(parse_assistant_reply::<F>, (raw, decode), r),
        forall|reply: AssistantReply| !#[trigger] decode.ensures((raw,), Ok(reply)),
        forall|i: int, k: int|
            0 <= i < k < raw@.len() ==> !(#[trigger] raw@[i] == '{' && #[trigger] raw@[k] == '}'),
    ensures
        r == Err::<AssistantReply, ReplyError>(ReplyError::NoJson),
{
    the_object_is_the_widest(raw@);
}

/// Reading comes to what the decoder makes of the text or of the object in it, and to nothing else.
pub proof fn reading_is_decoding<F: Fn(&str) -> Result<AssistantReply, String>>(
    raw: &str,
    decode: F,
    r: Result<AssistantReply, ReplyError>,
    object: Option<String>,
)
    requires
        call_ensures(parse_assistant_reply::<F>, (raw, decode), r),
        call_ensures(extract_json_object, (raw,), object),
    ensures
        is_reading(decode, raw, r),
        object matches Some(json) ==> json_object(raw@) == Some(json@),
        object is None ==> json_object(raw@) is None,
{
}

} // verus!
