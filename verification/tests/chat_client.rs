use ttchd::chat::{
    build_chat_request, endpoint_url, interpret_reply, model_name, provider_of, ChatError,
    ChatOutcome, Provider,
};

#[test]
fn provider_resolution_with_fallback() {
    assert_eq!(provider_of("zhipu"), Provider::Zhipu);
    assert_eq!(provider_of("openai"), Provider::OpenAi);
    assert_eq!(provider_of("deepseek"), Provider::Deepseek);
    assert_eq!(provider_of("unknown-name"), Provider::Deepseek);
    assert_eq!(provider_of(""), Provider::Deepseek);
}

#[test]
fn endpoints_and_models_are_fixed() {
    assert_eq!(
        endpoint_url(Provider::Deepseek, ""),
        "https://api.deepseek.com/chat/completions"
    );
    assert_eq!(
        endpoint_url(Provider::Zhipu, ""),
        "https://open.bigmodel.cn/api/paas/v4/chat/completions"
    );
    assert_eq!(
        endpoint_url(Provider::OpenAi, "https://example.invalid/v1/chat"),
        "https://example.invalid/v1/chat"
    );
    assert_eq!(model_name(Provider::Deepseek), "deepseek-chat");
    assert_eq!(model_name(Provider::Zhipu), "GLM-4.5-Flash");
    assert_eq!(model_name(Provider::OpenAi), "gpt-4o-mini");
}

#[test]
fn request_body_is_exact_json() {
    let body = build_chat_request("deepseek-chat", "你好");
    assert_eq!(
        body,
        "{\"model\":\"deepseek-chat\",\"messages\":[{\"role\":\"user\",\"content\":\"你好\"}],\"max_tokens\":50,\"temperature\":1.0}"
    );
}

#[test]
fn request_body_escapes_the_prompt() {
    let body = build_chat_request("m", "a\"b\\c\nd\re\tf\u{1}g");
    assert_eq!(
        body,
        "{\"model\":\"m\",\"messages\":[{\"role\":\"user\",\"content\":\"a\\\"b\\\\c\\nd\\re\\tf\\u0001g\"}],\"max_tokens\":50,\"temperature\":1.0}"
    );
}

#[test]
fn request_body_parses_back_as_json() {
    let prompt = "引号\"和\\反斜杠\n换行";
    let body = build_chat_request("deepseek-chat", prompt);
    let v: serde_json::Value = serde_json::from_str(&body).unwrap();
    assert_eq!(v["model"].as_str().unwrap(), "deepseek-chat");
    assert_eq!(
        v["messages"][0]["content"].as_str().unwrap(),
        prompt
    );
    assert_eq!(v["messages"][0]["role"].as_str().unwrap(), "user");
    assert_eq!(v["max_tokens"].as_u64().unwrap(), 50);
}

#[test]
fn reply_takes_the_first_completion() {
    let r = interpret_reply(ChatOutcome::Reply(vec![
        "第一".to_string(),
        "第二".to_string(),
    ]));
    assert_eq!(r.unwrap(), "第一");
}

#[test]
fn empty_reply_is_an_error() {
    let r = interpret_reply(ChatOutcome::Reply(vec![]));
    assert_eq!(r.unwrap_err(), ChatError::EmptyResponse);
}

#[test]
fn http_failure_carries_the_body() {
    let r = interpret_reply(ChatOutcome::HttpFailure("{\"error\":\"401\"}".to_string()));
    assert_eq!(r.unwrap_err(), ChatError::Api("{\"error\":\"401\"}".to_string()));
}

#[test]
fn transport_failure_carries_the_description() {
    let r = interpret_reply(ChatOutcome::TransportFailed("timeout".to_string()));
    assert_eq!(r.unwrap_err(), ChatError::Transport("timeout".to_string()));
}

#[test]
fn error_messages_are_readable() {
    assert_eq!(
        ChatError::Api("body".to_string()).message(),
        "API 请求失败: body"
    );
    assert_eq!(ChatError::EmptyResponse.message(), "没有收到回复");
    assert_eq!(
        ChatError::Transport("timeout".to_string()).message(),
        "网络请求失败: timeout"
    );
}
