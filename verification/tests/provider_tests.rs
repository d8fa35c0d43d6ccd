use agentflow::config::ProviderConfig;
use agentflow::json::Json;
use agentflow::provider::{
    build, AnthropicProvider, BuiltProvider, CliProvider, OpenaiProvider, Provider, ProviderError,
};

fn obj(entries: Vec<(&str, Json)>) -> Json {
    Json::Object(entries.into_iter().map(|(k, v)| (k.to_string(), v)).collect())
}

fn text(s: &str) -> Json {
    Json::Str(s.to_string())
}

fn field<'a>(j: &'a Json, key: &str) -> &'a Json {
    j.get(&key.to_string()).unwrap()
}

fn as_text(j: &Json) -> &str {
    match j {
        Json::Str(s) => s,
        other => panic!("not a string: {:?}", other),
    }
}

#[test]
fn anthropic_needs_a_key() {
    let err = AnthropicProvider::new("opus".into(), 10, "MY_KEY", None).unwrap_err();
    match &err {
        ProviderError::MissingApiKey { var, provider } => {
            assert_eq!(var, "MY_KEY");
            assert_eq!(provider, "anthropic");
        }
        other => panic!("unexpected {:?}", other),
    }
    assert_eq!(err.message(), "Thiếu biến môi trường MY_KEY cho provider anthropic");
}

#[test]
fn anthropic_request_carries_key_version_and_prompts() {
    let p = AnthropicProvider::new("big-model".into(), 4096, "K", Some("secret".into())).unwrap();
    assert_eq!(p.label(), "anthropic:big-model");
    let r = p.request("you plan", "do it");
    assert_eq!(r.url, "https://api.anthropic.com/v1/messages");
    assert_eq!(r.headers[0], ("x-api-key".to_string(), "secret".to_string()));
    assert_eq!(r.headers[1], ("anthropic-version".to_string(), "2023-06-01".to_string()));
    assert_eq!(r.headers[2], ("content-type".to_string(), "application/json".to_string()));
    assert_eq!(r.bearer_token, None);
    assert_eq!(as_text(field(&r.body, "model")), "big-model");
    assert!(matches!(field(&r.body, "max_tokens"), Json::Number(n) if n == "4096"));
    assert_eq!(as_text(field(&r.body, "system")), "you plan");
    match field(&r.body, "messages") {
        Json::Array(ms) => {
            assert_eq!(ms.len(), 1);
            assert_eq!(as_text(field(&ms[0], "role")), "user");
            assert_eq!(as_text(field(&ms[0], "content")), "do it");
        }
        other => panic!("unexpected {:?}", other),
    }
}

#[test]
fn anthropic_reply_joins_text_blocks() {
    let p = AnthropicProvider::new("m".into(), 1, "K", Some("k".into())).unwrap();
    let reply = obj(vec![(
        "content",
        Json::Array(vec![
            obj(vec![("type", text("text")), ("text", text("Hel"))]),
            obj(vec![("type", text("tool_use"))]),
            obj(vec![("text", Json::Number("3".into()))]),
            obj(vec![("text", text("lo"))]),
        ]),
    )]);
    assert_eq!(p.read_reply(200, "200 OK".into(), &reply, "{}".into()).unwrap(), "Hello");
}

#[test]
fn anthropic_reply_errors() {
    let p = AnthropicProvider::new("m".into(), 1, "K", Some("k".into())).unwrap();
    let good = obj(vec![("content", Json::Array(vec![obj(vec![("text", text("x"))])]))]);
    let e = p.read_reply(401, "401 Unauthorized".into(), &good, "{\"e\":1}".into()).unwrap_err();
    assert_eq!(e.message(), "Anthropic API lỗi 401 Unauthorized: {\"e\":1}");
    let e = p.read_reply(200, "200 OK".into(), &obj(vec![]), "{}".into()).unwrap_err();
    assert_eq!(e.message(), "Anthropic trả về rỗng: {}");
    let e = p.read_reply(200, "200 OK".into(), &obj(vec![("content", text("x"))]), "b".into()).unwrap_err();
    assert!(matches!(e, ProviderError::EmptyReply { .. }));
    let empty_blocks = obj(vec![("content", Json::Array(vec![obj(vec![]), obj(vec![("text", text(""))])]))]);
    let e = p.read_reply(299, "299".into(), &empty_blocks, "b".into()).unwrap_err();
    assert!(matches!(e, ProviderError::EmptyReply { .. }));
    let e = p.read_reply(300, "300".into(), &good, "b".into()).unwrap_err();
    assert!(matches!(e, ProviderError::ApiStatus { .. }));
}

#[test]
fn openai_strips_trailing_slashes_from_the_base_url() {
    let p = OpenaiProvider::new("gpt".into(), 5, "K", "http://host/v1///".into(), Some("k".into())).unwrap();
    assert_eq!(p.base_url, "http://host/v1");
    let r = p.request("sys", "usr");
    assert_eq!(r.url, "http://host/v1/chat/completions");
    assert_eq!(r.bearer_token.as_deref(), Some("k"));
    assert!(r.headers.is_empty());
    assert!(r.body.get(&"system".to_string()).is_none());
    assert_eq!(as_text(field(&r.body, "model")), "gpt");
    assert!(matches!(field(&r.body, "max_tokens"), Json::Number(n) if n == "5"));
    match field(&r.body, "messages") {
        Json::Array(ms) => {
            assert_eq!(ms.len(), 2);
            assert_eq!(as_text(field(&ms[0], "role")), "system");
            assert_eq!(as_text(field(&ms[0], "content")), "sys");
            assert_eq!(as_text(field(&ms[1], "role")), "user");
            assert_eq!(as_text(field(&ms[1], "content")), "usr");
        }
        other => panic!("unexpected {:?}", other),
    }
    assert_eq!(p.label(), "openai:gpt");
}

#[test]
fn openai_needs_a_key() {
    let e = OpenaiProvider::new("gpt".into(), 5, "OAI", "u".into(), None).unwrap_err();
    assert_eq!(e.message(), "Thiếu biến môi trường OAI cho provider openai");
}

#[test]
fn openai_reply_takes_the_first_choice() {
    let p = OpenaiProvider::new("gpt".into(), 5, "K", "u".into(), Some("k".into())).unwrap();
    let choice = |t: &str| obj(vec![("message", obj(vec![("role", text("assistant")), ("content", text(t))]))]);
    let reply = obj(vec![("choices", Json::Array(vec![choice("first"), choice("second")]))]);
    assert_eq!(p.read_reply(200, "200 OK".into(), &reply, "{}".into()).unwrap(), "first");
    let none = obj(vec![("choices", Json::Array(vec![]))]);
    let e = p.read_reply(200, "200 OK".into(), &none, "{}".into()).unwrap_err();
    assert_eq!(e.message(), "OpenAI trả về rỗng: {}");
    let null_first = obj(vec![(
        "choices",
        Json::Array(vec![obj(vec![("message", obj(vec![("content", Json::Null)]))]), choice("x")]),
    )]);
    let e = p.read_reply(200, "200 OK".into(), &null_first, "{}".into()).unwrap_err();
    assert!(matches!(e, ProviderError::EmptyReply { .. }));
    let e = p.read_reply(500, "500 Internal Server Error".into(), &reply, "{}".into()).unwrap_err();
    assert_eq!(e.message(), "OpenAI API lỗi 500 Internal Server Error: {}");
}

#[test]
fn cli_prompt_as_last_argument() {
    let p = CliProvider::new("draftbot".into(), vec!["exec".into()], "arg".into());
    let inv = p.invocation("sys", "usr").unwrap();
    assert_eq!(inv.program, "draftbot");
    assert_eq!(inv.args, vec!["exec".to_string(), "sys\n\n---\n\nusr".to_string()]);
    assert_eq!(inv.stdin_input, None);
    assert_eq!(p.label(), "cli:draftbot");
}

#[test]
fn cli_prompt_through_stdin() {
    let p = CliProvider::new("askbot".into(), vec!["-p".into()], "stdin".into());
    let inv = p.invocation("sys", "usr").unwrap();
    assert_eq!(inv.args, vec!["-p".to_string()]);
    assert_eq!(inv.stdin_input.as_deref(), Some("sys\n\n---\n\nusr"));
}

#[test]
fn cli_refuses_an_unknown_prompt_via() {
    let p = CliProvider::new("askbot".into(), vec![], "file".into());
    let e = p.invocation("s", "u").unwrap_err();
    assert_eq!(e.message(), "prompt_via không hợp lệ: 'file' (dùng 'stdin' hoặc 'arg')");
}

#[test]
fn cli_output_is_trimmed() {
    let p = CliProvider::new("askbot".into(), vec![], "stdin".into());
    let t = p.read_output(true, "exit status: 0".into(), "\u{3000} answer \n\t".as_bytes(), b"").unwrap();
    assert_eq!(t, "answer");
    let t = p.read_output(true, "exit status: 0".into(), &[0xff, b'o', b'k'], b"").unwrap();
    assert_eq!(t, "\u{FFFD}ok");
}

#[test]
fn cli_failures() {
    let p = CliProvider::new("askbot".into(), vec![], "stdin".into());
    let e = p.read_output(false, "exit status: 2".into(), b"out", b"bad \xff").unwrap_err();
    assert_eq!(e.message(), "CLI 'askbot' lỗi (exit exit status: 2): bad \u{FFFD}");
    let e = p.read_output(true, "exit status: 0".into(), b" \n \r\n", b"").unwrap_err();
    assert_eq!(e.message(), "CLI 'askbot' trả về rỗng");
}

#[test]
fn build_makes_the_configured_provider() {
    let a = ProviderConfig::Anthropic { model: "opus".into(), max_tokens: 7, api_key_env: "AK".into() };
    match build(&a, Some("key".into())).unwrap() {
        BuiltProvider::Anthropic(p) => {
            assert_eq!(p.model, "opus");
            assert_eq!(p.max_tokens, 7);
            assert_eq!(p.api_key, "key");
        }
        other => panic!("unexpected {:?}", other),
    }
    let e = build(&a, None).unwrap_err();
    assert_eq!(e.message(), "Thiếu biến môi trường AK cho provider anthropic");

    let o = ProviderConfig::Openai {
        model: "gpt".into(),
        max_tokens: 9,
        api_key_env: "OK".into(),
        base_url: "https://x/".into(),
    };
    let built = build(&o, Some("k".into())).unwrap();
    assert_eq!(built.label(), "openai:gpt");
    match built {
        BuiltProvider::Openai(p) => assert_eq!(p.base_url, "https://x"),
        other => panic!("unexpected {:?}", other),
    }
    assert!(matches!(build(&o, None), Err(ProviderError::MissingApiKey { .. })));

    let c = ProviderConfig::Cli { command: "askbot".into(), args: vec!["-p".into()], prompt_via: "arg".into() };
    match build(&c, None).unwrap() {
        BuiltProvider::Cli(p) => {
            assert_eq!(p.command, "askbot");
            assert_eq!(p.args, vec!["-p".to_string()]);
            assert_eq!(p.prompt_via, "arg");
        }
        other => panic!("unexpected {:?}", other),
    }
}
