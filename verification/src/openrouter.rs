//! What is sent to the model and how its answer is read.

use crate::reply::{AssistantReply, ReplyError};
use crate::{reply, text};
use vstd::prelude::*;
use vstd::string::*;
use vstd::utf8;

verus! {

/// Where requests go.
pub const OPENROUTER_URL: &'static str = "https://openrouter.ai/api/v1/chat/completions";

/// The model that answers.
pub const OPENROUTER_MODEL: &'static str = "moonshotai/kimi-k2.5";

/// The environment variable that holds the API key.
pub const OPENROUTER_API_KEY_ENV: &'static str = "OPENROUTER_API_KEY";

/// What the model is told about its task.
pub const SYSTEM_PROMPT: &'static str = r#"You are an automation assistant for a terminal emulator.
You receive:
- the user's current instruction
- a recent plain-text snapshot of the active terminal pane

Respond with exactly one JSON object and no surrounding prose.
Schema:
{
  "message": "reply shown in the chat window (may be multi-line for translations/explanations)",
  "actions": [
    { "kind": "run_command", "command": "cd .." },
    { "kind": "send_input", "text": "yes", "submit": true },
    { "kind": "send_keys", "keys": ["DownArrow", "Enter"] }
  ]
}

Rules:
- Use "run_command" for shell commands that should be pasted and submitted.
- Use "send_input" to type plain text into an interactive program.
- Use "send_keys" for prompt navigation. Allowed keys: Enter, Tab, Escape, UpArrow, DownArrow, LeftArrow, RightArrow, Home, End.
- Return an empty actions array when no terminal input should be sent.
- Never include markdown fences.
- For display-only tasks (translation, explanation, summarisation):
  - Put the full result in "message", preserving line breaks with \n.
  - Return an empty actions array.
  - When translating, translate ALL lines of the terminal output faithfully.
"#;

/// One message of a request.
#[derive(Debug, PartialEq, Eq)]
pub struct OpenRouterMessage {
    pub role: &'static str,
    pub content: String,
}

/// The meaning of an [`OpenRouterMessage`].
pub ghost struct MessageView {
    pub role: Seq<char>,
    pub content: Seq<char>,
}

impl View for OpenRouterMessage {
    type V = MessageView;

    open spec fn view(&self) -> MessageView {
        MessageView { role: self.role@, content: self.content@ }
    }
}

/// The meanings of a list of messages.
pub open spec fn message_views(messages: Seq<OpenRouterMessage>) -> Seq<MessageView> {
    Seq::new(messages.len(), |i: int| messages[i]@)
}

/// What the user's message says.
pub open spec fn user_content(
    pane_title: Seq<char>,
    instruction: Seq<char>,
    snapshot: Seq<char>,
    automated: bool,
) -> Seq<char> {
    "Mode: "@ + (if automated {
        "automation"@
    } else {
        "interactive"@
    }) + "\nPane title: "@ + pane_title + "\nUser instruction:\n"@ + instruction
        + "\n\nRecent terminal output:\n"@ + snapshot + "\n"@
}

/// The messages of a request: the task first, then the user's instruction with its context.
pub open spec fn request_views(
    pane_title: Seq<char>,
    instruction: Seq<char>,
    snapshot: Seq<char>,
    automated: bool,
) -> Seq<MessageView> {
    seq![
        MessageView { role: "system"@, content: SYSTEM_PROMPT@ },
        MessageView {
            role: "user"@,
            content: user_content(pane_title, instruction, snapshot, automated),
        },
    ]
}

/// The messages of a request.
pub fn request_messages(
    pane_title: &str,
    instruction: &str,
    pane_snapshot: &str,
    automated: bool,
) -> (messages: Vec<OpenRouterMessage>)
    ensures
        message_views(messages@) == request_views(
            pane_title@,
            instruction@,
            pane_snapshot@,
            automated,
        ),
{
    let mut content = "Mode: ".to_owned();
    content.append(
        if automated {
            "automation"
        } else {
            "interactive"
        },
    );
    content.append("\nPane title: ");
    content.append(pane_title);
    content.append("\nUser instruction:\n");
    content.append(instruction);
    content.append("\n\nRecent terminal output:\n");
    content.append(pane_snapshot);
    content.append("\n");
    let mut messages: Vec<OpenRouterMessage> = Vec::new();
    messages.push(OpenRouterMessage { role: "system", content: SYSTEM_PROMPT.to_owned() });
    messages.push(OpenRouterMessage { role: "user", content });
    assert(message_views(messages@) =~= request_views(
        pane_title@,
        instruction@,
        pane_snapshot@,
        automated,
    ));
    messages
}

/// One part of a message that comes in parts.
#[derive(Debug, Default, PartialEq, Eq)]
pub struct OpenRouterContentPart {
    pub text: String,
}

/// The content of an answer: one text, or parts of one.
#[derive(Debug, PartialEq, Eq)]
pub enum OpenRouterContent {
    Text(String),
    Parts(Vec<OpenRouterContentPart>),
}

/// The message of one choice.
#[derive(Debug, PartialEq, Eq)]
pub struct OpenRouterResponseMessage {
    pub content: OpenRouterContent,
}

/// One of the answers that the model offers.
#[derive(Debug, PartialEq, Eq)]
pub struct OpenRouterChoice {
    pub message: OpenRouterResponseMessage,
}

/// What the model sends back.
#[derive(Debug, PartialEq, Eq)]
pub struct OpenRouterResponse {
    pub choices: Vec<OpenRouterChoice>,
}

/// The texts of a list of parts.
pub open spec fn part_texts(parts: Seq<OpenRouterContentPart>) -> Seq<Seq<char>> {
    Seq::new(parts.len(), |i: int| parts[i].text@)
}

impl OpenRouterContent {
    /// The whole text: the parts one after the other.
    pub open spec fn whole_text(self) -> Seq<char> {
        match self {
            OpenRouterContent::Text(text) => text@,
            OpenRouterContent::Parts(parts) => part_texts(parts@).flatten(),
        }
    }

    /// The whole text.
    pub fn into_text(self) -> (r: String)
        ensures
            r@ == self.whole_text(),
    {
        match self {
            OpenRouterContent::Text(text) => text,
            OpenRouterContent::Parts(parts) => {
                let mut whole = String::new();
                let mut i: usize = 0;
                assert(part_texts(parts@).take(0) =~= Seq::<Seq<char>>::empty());
                while i < parts.len()
                    invariant
                        i <= parts@.len(),
                        whole@ =~= part_texts(parts@).take(i as int).flatten(),
                    decreases parts@.len() - i,
                {
                    let ghost before = part_texts(parts@).take(i as int);
                    whole.append(parts[i].text.as_str());
                    i = i + 1;
                    proof {
                        assert(part_texts(parts@).take(i as int) =~= before.push(
                            parts@[i - 1].text@,
                        ));
                        before.lemma_flatten_push(parts@[i - 1].text@);
                    }
                }
                assert(part_texts(parts@).take(parts@.len() as int) =~= part_texts(parts@));
                whole
            },
        }
    }
}

/// Why a request brought no reply.
#[derive(Debug, PartialEq, Eq)]
pub enum QueryError {
    /// No API key is set.
    MissingKey,
    /// The request could not be sent; with the cause.
    Sending(String),
    /// The service answered with an error status; with the cause.
    Status(String),
    /// The answer could not be decoded; with the cause.
    Decoding(String),
    /// The answer offers no choice.
    NoChoices,
    /// The first choice holds no reply.
    Reply(ReplyError),
}

impl QueryError {
    /// What is said of the error, outermost cause first.
    pub open spec fn words(self) -> Seq<char> {
        match self {
            QueryError::MissingKey => "missing environment variable "@ + OPENROUTER_API_KEY_ENV@,
            QueryError::Sending(cause) => "sending OpenRouter request: "@ + cause@,
            QueryError::Status(cause) => "OpenRouter returned an error status: "@ + cause@,
            QueryError::Decoding(cause) => "decoding OpenRouter response: "@ + cause@,
            QueryError::NoChoices => "OpenRouter response had no choices"@,
            QueryError::Reply(ReplyError::NoJson) => "assistant did not return JSON"@,
            QueryError::Reply(ReplyError::Malformed(cause)) => "parsing assistant JSON: "@ + cause@,
        }
    }

    /// What is said of the error.
    pub fn describe(&self) -> (r: String)
        ensures
            r@ == self.words(),
    {
        match self {
            QueryError::MissingKey => {
                "missing environment variable ".to_owned().concat(OPENROUTER_API_KEY_ENV)
            },
            QueryError::Sending(cause) => {
                "sending OpenRouter request: ".to_owned().concat(cause.as_str())
            },
            QueryError::Status(cause) => {
                "OpenRouter returned an error status: ".to_owned().concat(cause.as_str())
            },
            QueryError::Decoding(cause) => {
                "decoding OpenRouter response: ".to_owned().concat(cause.as_str())
            },
            QueryError::NoChoices => "OpenRouter response had no choices".to_owned(),
            QueryError::Reply(ReplyError::NoJson) => "assistant did not return JSON".to_owned(),
            QueryError::Reply(ReplyError::Malformed(cause)) => {
                "parsing assistant JSON: ".to_owned().concat(cause.as_str())
            },
        }
    }
}

/// The API key of a request: the value that this process has, else the one that a login shell has.
pub fn api_key(process: Option<String>, shell: Option<String>) -> (r: Result<String, QueryError>)
    ensures
        match (process, shell) {
            (Some(key), _) => r == Ok::<String, QueryError>(key),
            (None, Some(key)) => r == Ok::<String, QueryError>(key),
            (None, None) => r == Err::<String, QueryError>(QueryError::MissingKey),
        },
{
    match (process, shell) {
        (Some(key), _) => Ok(key),
        (None, Some(key)) => Ok(key),
        (None, None) => Err(QueryError::MissingKey),
    }
}

/// A request as it is sent.
#[derive(PartialEq, Eq)]
pub struct OpenRouterCall {
    /// Where it goes.
    pub url: &'static str,
    /// The bearer token that it carries.
    pub api_key: String,
    /// The model that is to answer.
    pub model: &'static str,
    /// What it says.
    pub messages: Vec<OpenRouterMessage>,
}

/// The request that asks the model with `messages`, given the values of the API key that this
/// process and a login shell have. Without a key there is none.
pub fn prepare_call(
    process: Option<String>,
    shell: Option<String>,
    messages: Vec<OpenRouterMessage>,
) -> (r: Result<OpenRouterCall, QueryError>)
    ensures
        process is None && shell is None ==> r == Err::<OpenRouterCall, QueryError>(
            QueryError::MissingKey,
        ),
        process is Some || shell is Some ==> (r matches Ok(call) && {
            &&& call.url@ == OPENROUTER_URL@
            &&& call.api_key == (if process is Some {
                process->0
            } else {
                shell->0
            })
            &&& call.model@ == OPENROUTER_MODEL@
            &&& call.messages == messages
        }),
{
    match api_key(process, shell) {
        Ok(api_key) => Ok(
            OpenRouterCall { url: OPENROUTER_URL, api_key, model: OPENROUTER_MODEL, messages },
        ),
        Err(e) => Err(e),
    }
}

/// The text of the first choice.
pub fn first_choice_text(response: OpenRouterResponse) -> (r: Result<String, QueryError>)
    ensures
        response.choices@.len() == 0 ==> r == Err::<String, QueryError>(QueryError::NoChoices),
        response.choices@.len() > 0 ==> (r matches Ok(raw) && raw@
            == response.choices@[0].message.content.whole_text()),
{
    let mut choices = response.choices;
    if choices.len() == 0 {
        Err(QueryError::NoChoices)
    } else {
        let choice = choices.remove(0);
        Ok(choice.message.content.into_text())
    }
}

/// The reply in the model's answer, read from the text of its first choice with `decode`.
pub fn read_reply<F: Fn(&str) -> Result<AssistantReply, String>>(
    response: OpenRouterResponse,
    decode: F,
) -> (r: Result<AssistantReply, QueryError>)
    requires
        forall|s: &str| #[trigger] decode.requires((s,)),
    ensures
        response.choices@.len() == 0 ==> r == Err::<AssistantReply, QueryError>(
            QueryError::NoChoices,
        ),
        response.choices@.len() > 0 ==> exists|raw: &str, read: Result<AssistantReply, ReplyError>|
            {
                &&& raw@ == response.choices@[0].message.content.whole_text()
                &&& #[trigger] reply::is_reading(decode, raw, read)
                &&& r == match read {
                    Ok(reply) => Ok::<AssistantReply, QueryError>(reply),
                    Err(e) => Err(QueryError::Reply(e)),
                }
            },
{
    match first_choice_text(response) {
        Err(e) => Err(e),
        Ok(raw) => {
            let raw = raw.as_str();
            let read = reply::parse_assistant_reply(raw, decode);
            match read {
                Ok(reply) => Ok(reply),
                Err(e) => Err(QueryError::Reply(e)),
            }
        },
    }
}

/// The text of `bytes`, with U+FFFD for what is not UTF-8.
pub uninterp spec fn lossy_text(bytes: Seq<u8>) -> Seq<char>;

/// `std`'s `String::from_utf8_lossy`: the text of `bytes`, with U+FFFD in place of what is not
/// UTF-8; valid UTF-8 is decoded as it is. How many replacement characters stand for an invalid
/// stretch is left to the name.
#[verifier::external_body]
fn text_of_bytes(bytes: &[u8]) -> (r: String)
    ensures
        r@ == lossy_text(bytes@),
        utf8::valid_utf8(bytes@) ==> r@ == utf8::decode_utf8(bytes@),
{
    String::from_utf8_lossy(bytes).into_owned()
}

/// The shell that is asked for a variable: the user's own, or `/bin/zsh`.
pub fn login_shell(shell: Option<String>) -> (r: String)
    ensures
        r@ == match shell {
            Some(path) => path@,
            None => "/bin/zsh"@,
        },
{
    match shell {
        Some(path) => path,
        None => "/bin/zsh".to_owned(),
    }
}

/// The arguments that make a login shell print the variable `var`.
pub fn login_shell_args(var: &str) -> (args: Vec<String>)
    ensures
        text::texts(args@) == seq!["-l"@, "-c"@, "printenv "@ + var@],
{
    let mut args: Vec<String> = Vec::new();
    args.push("-l".to_owned());
    args.push("-c".to_owned());
    args.push("printenv ".to_owned().concat(var));
    assert(text::texts(args@) =~= seq!["-l"@, "-c"@, "printenv "@ + var@]);
    args
}

/// The value in what a login shell printed: the text without the white space around it, where the
/// shell succeeded and printed more than white space.
pub fn login_shell_value(success: bool, printed: &str) -> (r: Option<String>)
    ensures
        r is Some <==> success && text::trim(printed@).len() > 0,
        r matches Some(value) ==> value@ == text::trim(printed@),
{
    if success {
        let value = text::trimmed(printed);
        if !value.as_str().is_empty() {
            return Some(value);
        }
    }
    None
}

/// The value in the bytes that a login shell printed.
pub fn read_env_from_login_shell(success: bool, stdout: &[u8]) -> (r: Option<String>)
    ensures
        r is Some <==> success && text::trim(lossy_text(stdout@)).len() > 0,
        r matches Some(value) ==> value@ == text::trim(lossy_text(stdout@)),
        utf8::valid_utf8(stdout@) ==> lossy_text(stdout@) == utf8::decode_utf8(stdout@),
{
    let printed = text_of_bytes(stdout);
    login_shell_value(success, printed.as_str())
}

/// A request tells the model its task, and then the mode, the pane, the instruction and what the
/// pane shows, each as it is.
pub proof fn requests_tell_the_whole_story(
    pane_title: &str,
    instruction: &str,
    pane_snapshot: &str,
    automated: bool,
    messages: Vec<OpenRouterMessage>,
)
    requires
        call_ensures(
            request_messages,
            (pane_title, instruction, pane_snapshot, automated),
            messages,
        ),
    ensures
        messages@.len() == 2,
        messages@[0].role@ == "system"@,
        messages@[0].content@ == SYSTEM_PROMPT@,
        messages@[1].role@ == "user"@,
        automated ==> messages@[1].content@ == "Mode: "@ + "automation"@ + "\nPane title: "@
            + pane_title@ + "\nUser instruction:\n"@ + instruction@
            + "\n\nRecent terminal output:\n"@ + pane_snapshot@ + "\n"@,
        !automated ==> messages@[1].content@ == "Mode: "@ + "interactive"@ + "\nPane title: "@
            + pane_title@ + "\nUser instruction:\n"@ + instruction@
            + "\n\nRecent terminal output:\n"@ + pane_snapshot@ + "\n"@,
{
    let views = message_views(messages@);
    assert(views.len() == 2);
    assert(views[0] == messages@[0]@);
    assert(views[1] == messages@[1]@);
}

/// What a request says is fixed by the four things that it tells, whoever builds it.
pub proof fn requests_say(
    pane_title: Seq<char>,
    instruction: Seq<char>,
    snapshot: Seq<char>,
    automated: bool,
)
    ensures
        ({
            let views = request_views(pane_title, instruction, snapshot, automated);
            let mode = if automated {
                "automation"@
            } else {
                "interactive"@
            };
            &&& views.len() == 2
            &&& views[0].role == "system"@ && views[0].content == SYSTEM_PROMPT@
            &&& views[1].role == "user"@
            &&& views[1].content == "Mode: "@ + mode + "\nPane title: "@ + pane_title
                + "\nUser instruction:\n"@ + instruction + "\n\nRecent terminal output:\n"@
                + snapshot + "\n"@
        }),
{
}

/// The whole text of an answer in parts is that of its first parts and then that of the rest; one
/// part is its text, and an answer in one piece is that piece.
pub proof fn parts_are_read_in_order(
    front: Vec<OpenRouterContentPart>,
    back: Vec<OpenRouterContentPart>,
    whole: Vec<OpenRouterContentPart>,
    text: String,
)
    requires
        whole@ == front@ + back@,
    ensures
        OpenRouterContent::Parts(whole).whole_text() == OpenRouterContent::Parts(front).whole_text()
            + OpenRouterContent::Parts(back).whole_text(),
        whole@.len() == 0 ==> OpenRouterContent::Parts(whole).whole_text() == Seq::<char>::empty(),
        whole@.len() == 1 ==> OpenRouterContent::Parts(whole).whole_text() == whole@[0].text@,
        OpenRouterContent::Text(text).whole_text() == text@,
{
    assert(part_texts(whole@) =~= part_texts(front@) + part_texts(back@));
    vstd::seq_lib::lemma_flatten_concat(part_texts(front@), part_texts(back@));
    part_texts(whole@).lemma_flatten_one_element();
}

/// Of the choices the first is read, and nothing else of the answer.
pub proof fn the_first_choice_is_read(response: OpenRouterResponse, r: Result<String, QueryError>)
    requires
        call_ensures(first_choice_text, (response,), r),
    ensures
        r is Ok <==> response.choices@.len() > 0,
        r matches Ok(raw) ==> (match response.choices@[0].message.content {
            OpenRouterContent::Text(text) => raw@ == text@,
            OpenRouterContent::Parts(parts) => raw@ == part_texts(parts@).flatten(),
        }),
        r matches Err(e) ==> e == QueryError::NoChoices,
{
}

/// Every error is told in its own words, with its cause where it has one.
pub proof fn errors_tell_their_cause(error: &QueryError, words: String)
    requires
        call_ensures(QueryError::describe, (error,), words),
    ensures
        words@ == error.words(),
        error is MissingKey ==> words@ == "missing environment variable "@ + "OPENROUTER_API_KEY"@,
        error matches QueryError::Sending(cause) ==> words@ == "sending OpenRouter request: "@
            + cause@,
        error matches QueryError::Status(cause) ==> words@
            == "OpenRouter returned an error status: "@ + cause@,
        error matches QueryError::Decoding(cause) ==> words@ == "decoding OpenRouter response: "@
            + cause@,
        error is NoChoices ==> words@ == "OpenRouter response had no choices"@,
        *error == QueryError::Reply(ReplyError::NoJson) ==> words@
            == "assistant did not return JSON"@,
        error matches QueryError::Reply(ReplyError::Malformed(cause)) ==> words@
            == "parsing assistant JSON: "@ + cause@,
{
}

/// A login shell that succeeded and printed a value with white space around it gives that value; one
/// that failed, or printed nothing but white space, gives none.
pub proof fn the_printed_value_is_read(
    before: Seq<char>,
    value: Seq<char>,
    after: Seq<char>,
    success: bool,
    printed: &str,
    r: Option<String>,
)
    requires
        call_ensures(login_shell_value, (success, printed), r),
        printed@ == before + value + after,
        text::all_white(before),
        text::all_white(after),
        value.len() > 0 ==> !text::is_white(value[0]) && !text::is_white(value.last()),
    ensures
        success && value.len() > 0 ==> (r matches Some(read) && read@ == value),
        !success || value.len() == 0 ==> r is None,
{
    text::trim_ignores_padding(before, value, after);
    text::trim_of_trimmed(value);
}

/// Bytes that are the encoding of a text are read as that text.
pub proof fn printed_bytes_are_read_as_text(
    printed: &str,
    stdout: &[u8],
    success: bool,
    of_text: Option<String>,
    of_bytes: Option<String>,
)
    requires
        call_ensures(login_shell_value, (success, printed), of_text),
        call_ensures(read_env_from_login_shell, (success, stdout), of_bytes),
        stdout@ == utf8::encode_utf8(printed@),
    ensures
        of_bytes is Some <==> of_text is Some,
        of_bytes matches Some(a) ==> (of_text matches Some(b) && a@ == b@),
{
    utf8::encode_utf8_valid_utf8(printed@);
    utf8::encode_utf8_decode_utf8(printed@);
}

/// The user's own shell is asked where there is one, as a login shell, to print the variable.
pub proof fn the_own_shell_is_asked(
    own: Option<String>,
    shell: String,
    var: &str,
    args: Vec<String>,
)
    requires
        call_ensures(login_shell, (own,), shell),
        call_ensures(login_shell_args, (var,), args),
    ensures
        own matches Some(path) ==> shell@ == path@,
        own is None ==> shell@ == "/bin/zsh"@,
        args@.len() == 3,
        args@[0]@ == "-l"@ && args@[1]@ == "-c"@ && args@[2]@ == "printenv "@ + var@,
{
    let all = text::texts(args@);
    assert(all.len() == 3);
    assert(all[0] == args@[0]@ && all[1] == args@[1]@ && all[2] == args@[2]@);
}

/// A request goes out exactly where there is a key, carries that of the process before that of the
/// shell, and says what it was given to say.
pub proof fn requests_carry_the_key(
    process: Option<String>,
    shell: Option<String>,
    messages: Vec<OpenRouterMessage>,
    r: Result<OpenRouterCall, QueryError>,
    key: Result<String, QueryError>,
)
    requires
        call_ensures(prepare_call, (process, shell, messages), r),
        call_ensures(api_key, (process, shell), key),
    ensures
        r is Ok <==> process is Some || shell is Some,
        key is Ok <==> process is Some || shell is Some,
        r matches Err(e) ==> e == QueryError::MissingKey,
        key matches Err(e) ==> e == QueryError::MissingKey,
        r matches Ok(call) ==> {
            &&& key == Ok::<String, QueryError>(call.api_key)
            &&& process matches Some(own) ==> call.api_key == own
            &&& process is None ==> shell == Some(call.api_key)
            &&& call.messages == messages
            &&& call.model@ == "moonshotai/kimi-k2.5"@
            &&& call.url@ == "https://openrouter.ai/api/v1/chat/completions"@
        },
{
}

/// A message means its role and its content.
pub proof fn meaning_of_a_message(message: OpenRouterMessage)
    ensures
        message@.role == message.role@,
        message@.content == message.content@,
{
}

/// What reading the first choice came to where an answer came to `r`.
pub open spec fn reading_of(r: Result<AssistantReply, QueryError>) -> Result<
    AssistantReply,
    ReplyError,
> {
    match r {
        Ok(reply) => Ok(reply),
        Err(e) => Err(e->Reply_0),
    }
}

/// A reply is read from the text of the first choice; what is wrong with it is told as it is.
pub proof fn replies_are_read_from_the_first_choice<
    F: Fn(&str) -> Result<AssistantReply, String>,
>(response: OpenRouterResponse, decode: F, r: Result<AssistantReply, QueryError>)
    requires
        call_ensures(read_reply::<F>, (response, decode), r),
    ensures
        response.choices@.len() == 0 ==> r == Err::<AssistantReply, QueryError>(
            QueryError::NoChoices,
        ),
        response.choices@.len() > 0 ==> (r matches Err(e) ==> e is Reply),
        response.choices@.len() > 0 ==> exists|raw: &str|
            raw@ == response.choices@[0].message.content.whole_text()
                && #[trigger] reply::is_reading(decode, raw, reading_of(r)),
{
}

} // verus!
