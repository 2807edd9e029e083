use ai_chat::openrouter::{
    api_key, first_choice_text, login_shell, login_shell_args, login_shell_value, prepare_call,
    read_env_from_login_shell, read_reply, request_messages, OpenRouterChoice, OpenRouterContent, OpenRouterContentPart,
    OpenRouterResponse, OpenRouterResponseMessage, QueryError, OPENROUTER_API_KEY_ENV,
    SYSTEM_PROMPT,
};
use ai_chat::reply::{
    extract_json_object, parse_assistant_reply, AssistantAction, AssistantReply, ReplyError,
};
use serde_json::Value;

fn text(value: &Value, name: &str) -> Result<String, String> {
    match value.get(name).and_then(Value::as_str) {
        Some(s) => Ok(s.to_string()),
        None => Err(format!("missing field `{name}`")),
    }
}

fn action(value: &Value) -> Result<AssistantAction, String> {
    match text(value, "kind")?.as_str() {
        "run_command" => Ok(AssistantAction::RunCommand { command: text(value, "command")? }),
        "send_input" => Ok(AssistantAction::SendInput {
            text: text(value, "text")?,
            submit: value.get("submit").and_then(Value::as_bool).unwrap_or(false),
        }),
        "send_keys" => {
            let mut keys = Vec::new();
            for key in value.get("keys").and_then(Value::as_array).into_iter().flatten() {
                keys.push(key.as_str().unwrap_or("").to_string());
            }
            Ok(AssistantAction::SendKeys { keys })
        }
        other => Err(format!("unknown variant `{other}`")),
    }
}

fn decode(json: &str) -> Result<AssistantReply, String> {
    let value: Value = serde_json::from_str(json).map_err(|e| e.to_string())?;
    if !value.is_object() {
        return Err("not an object".to_string());
    }
    let mut reply = AssistantReply::default();
    reply.message = value.get("message").and_then(Value::as_str).unwrap_or("").to_string();
    for entry in value.get("actions").and_then(Value::as_array).into_iter().flatten() {
        reply.actions.push(action(entry)?);
    }
    Ok(reply)
}

#[test]
fn parses_plain_json_reply() {
    let reply = parse_assistant_reply(
        r#"{"message":"done","actions":[{"kind":"run_command","command":"cd .."}]}"#,
        decode,
    )
    .unwrap();
    assert_eq!(
        reply,
        AssistantReply {
            message: "done".to_string(),
            actions: vec![AssistantAction::RunCommand {
                command: "cd ..".to_string()
            }],
        }
    );
}

#[test]
fn parses_fenced_json_reply() {
    let reply = parse_assistant_reply(
        "```json\n{\"message\":\"ok\",\"actions\":[{\"kind\":\"send_keys\",\"keys\":[\"Enter\"]}]}\n```",
        decode,
    )
    .unwrap();
    assert_eq!(
        reply,
        AssistantReply {
            message: "ok".to_string(),
            actions: vec![AssistantAction::SendKeys {
                keys: vec!["Enter".to_string()]
            }],
        }
    );
}

#[test]
fn reply_without_json_is_refused() {
    assert_eq!(parse_assistant_reply("no braces here", decode), Err(ReplyError::NoJson));
    assert_eq!(parse_assistant_reply("} wrong way round {", decode), Err(ReplyError::NoJson));
}

#[test]
fn malformed_json_keeps_the_decoder_words() {
    let refuse = |json: &str| Err(format!("bad: {json}"));
    assert_eq!(
        parse_assistant_reply("see {x} there", refuse),
        Err(ReplyError::Malformed("bad: {x}".to_string()))
    );
}

#[test]
fn whole_text_is_decoded_before_the_object_in_it() {
    let take = |json: &str| {
        Ok(AssistantReply { message: json.to_string(), actions: vec![] })
    };
    assert_eq!(parse_assistant_reply("a {b} c", take).unwrap().message, "a {b} c");
}

#[test]
fn json_object_runs_from_first_to_last_brace() {
    assert_eq!(extract_json_object("é{a}{b}é"), Some("{a}{b}".to_string()));
    assert_eq!(extract_json_object("{}"), Some("{}".to_string()));
    assert_eq!(extract_json_object("{"), None);
    assert_eq!(extract_json_object("}"), None);
    assert_eq!(extract_json_object("}{"), None);
    assert_eq!(extract_json_object(""), None);
}

fn response(contents: Vec<OpenRouterContent>) -> OpenRouterResponse {
    let mut choices = Vec::new();
    for content in contents {
        choices.push(OpenRouterChoice { message: OpenRouterResponseMessage { content } });
    }
    OpenRouterResponse { choices }
}

#[test]
fn content_parts_are_put_together() {
    let parts = vec![
        OpenRouterContentPart { text: "{\"mess".to_string() },
        OpenRouterContentPart::default(),
        OpenRouterContentPart { text: "age\":\"hi\"}".to_string() },
    ];
    assert_eq!(OpenRouterContent::Parts(parts).into_text(), "{\"message\":\"hi\"}");
    assert_eq!(OpenRouterContent::Parts(vec![]).into_text(), "");
    assert_eq!(OpenRouterContent::Text("x".to_string()).into_text(), "x");
}

#[test]
fn first_choice_is_read() {
    let two = vec![
        OpenRouterContent::Text("{\"message\":\"one\"}".to_string()),
        OpenRouterContent::Text("{\"message\":\"two\"}".to_string()),
    ];
    assert_eq!(read_reply(response(two), decode).unwrap().message, "one");
    assert_eq!(first_choice_text(response(vec![])), Err(QueryError::NoChoices));
    assert_eq!(read_reply(response(vec![]), decode), Err(QueryError::NoChoices));
    let prose = vec![OpenRouterContent::Text("hello".to_string())];
    assert_eq!(
        read_reply(response(prose), decode),
        Err(QueryError::Reply(ReplyError::NoJson))
    );
}

#[test]
fn query_errors_are_described() {
    let cause = || "timed out".to_string();
    assert_eq!(
        QueryError::MissingKey.describe(),
        "missing environment variable OPENROUTER_API_KEY"
    );
    assert_eq!(QueryError::Sending(cause()).describe(), "sending OpenRouter request: timed out");
    assert_eq!(
        QueryError::Status(cause()).describe(),
        "OpenRouter returned an error status: timed out"
    );
    assert_eq!(
        QueryError::Decoding(cause()).describe(),
        "decoding OpenRouter response: timed out"
    );
    assert_eq!(QueryError::NoChoices.describe(), "OpenRouter response had no choices");
    assert_eq!(
        QueryError::Reply(ReplyError::NoJson).describe(),
        "assistant did not return JSON"
    );
    assert_eq!(
        QueryError::Reply(ReplyError::Malformed(cause())).describe(),
        "parsing assistant JSON: timed out"
    );
}

#[test]
fn request_has_the_task_and_the_context() {
    let messages = request_messages("zsh", "list files", "$ ls", false);
    assert_eq!(messages.len(), 2);
    assert_eq!(messages[0].role, "system");
    assert_eq!(messages[0].content, SYSTEM_PROMPT);
    assert_eq!(messages[1].role, "user");
    assert_eq!(
        messages[1].content,
        "Mode: interactive\nPane title: zsh\nUser instruction:\nlist files\n\nRecent terminal output:\n$ ls\n"
    );
    let messages = request_messages("t", "i", "s", true);
    assert!(messages[1].content.starts_with("Mode: automation\n"));
}

#[test]
fn key_of_the_process_comes_first() {
    let key = |s: &str| Some(s.to_string());
    assert_eq!(api_key(key("p"), key("s")), Ok("p".to_string()));
    assert_eq!(api_key(key("p"), None), Ok("p".to_string()));
    assert_eq!(api_key(key(""), key("s")), Ok(String::new()));
    assert_eq!(api_key(None, key("s")), Ok("s".to_string()));
    assert_eq!(api_key(None, None), Err(QueryError::MissingKey));
}

#[test]
fn call_carries_key_model_and_messages() {
    let messages = || request_messages("zsh", "go", "$", false);
    let call = prepare_call(None, Some("s".to_string()), messages()).unwrap();
    assert_eq!(call.url, "https://openrouter.ai/api/v1/chat/completions");
    assert_eq!(call.api_key, "s");
    assert_eq!(call.model, "moonshotai/kimi-k2.5");
    assert_eq!(call.messages, messages());
    assert_eq!(prepare_call(None, None, messages()).err(), Some(QueryError::MissingKey));
}

#[test]
fn login_shell_prints_the_variable() {
    assert_eq!(login_shell(Some("/bin/fish".to_string())), "/bin/fish");
    assert_eq!(login_shell(None), "/bin/zsh");
    assert_eq!(
        login_shell_args(OPENROUTER_API_KEY_ENV),
        vec!["-l", "-c", "printenv OPENROUTER_API_KEY"]
    );
    assert_eq!(login_shell_value(true, " key \n"), Some("key".to_string()));
    assert_eq!(login_shell_value(true, " \n"), None);
    assert_eq!(login_shell_value(false, "key"), None);
}

#[test]
fn login_shell_bytes_are_read_as_text() {
    assert_eq!(read_env_from_login_shell(true, b"abc\n"), Some("abc".to_string()));
    assert_eq!(
        read_env_from_login_shell(true, "clé\n".as_bytes()),
        Some("clé".to_string())
    );
    assert_eq!(
        read_env_from_login_shell(true, &[b'a', 0xff, b'b']),
        Some("a\u{fffd}b".to_string())
    );
    assert_eq!(read_env_from_login_shell(true, b""), None);
    assert_eq!(read_env_from_login_shell(false, b"abc"), None);
}
