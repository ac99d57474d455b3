use git_msg::config::ProviderConfig;
use git_msg::llm::{
    ApiErrorResponse, ChatChoice, ChatCompletionResponse, ChoiceMessage, LlmClient, LlmError,
};

#[test]
fn test_url_normalization() {
    assert_eq!(
        LlmClient::normalize_url("http://127.0.0.1:1234"),
        "http://127.0.0.1:1234/v1/chat/completions"
    );
    assert_eq!(
        LlmClient::normalize_url("http://127.0.0.1:1234/"),
        "http://127.0.0.1:1234/v1/chat/completions"
    );
    assert_eq!(
        LlmClient::normalize_url("http://localhost:1234/v1"),
        "http://localhost:1234/v1/chat/completions"
    );
    assert_eq!(
        LlmClient::normalize_url("https://api.openai.com/v1/chat/completions"),
        "https://api.openai.com/v1/chat/completions"
    );
}

#[test]
fn normalizing_twice_changes_nothing() {
    for raw in ["  http://h:1//  ", "http://h/v1/", "x/chat/completions///", "", "/"] {
        let once = LlmClient::normalize_url(raw);
        assert_eq!(LlmClient::normalize_url(&once), once);
        assert!(once.ends_with("/chat/completions"));
    }
}

fn provider(key: &str) -> ProviderConfig {
    let mut p = ProviderConfig::default();
    p.api_key = key.to_string();
    p.model = "m1".to_string();
    p
}

#[test]
fn client_uses_normalized_url_and_key() {
    let c = LlmClient::new(provider("sk-test"));
    assert_eq!(c.url(), "http://127.0.0.1:1234/v1/chat/completions");
    assert_eq!(c.authorization(), Some("Bearer sk-test".to_string()));
    assert_eq!(LlmClient::new(provider("not-needed")).authorization(), None);
    assert_eq!(LlmClient::new(provider("")).authorization(), None);
}

#[test]
fn request_holds_model_messages_and_temperature() {
    let c = LlmClient::new(provider("k"));
    let r = c.chat_request("sys", "usr");
    assert_eq!(r.model, "m1");
    assert_eq!(r.messages.len(), 2);
    assert_eq!(r.messages[0].role, "system");
    assert_eq!(r.messages[0].content, "sys");
    assert_eq!(r.messages[1].role, "user");
    assert_eq!(r.messages[1].content, "usr");
    assert_eq!(f32::from_bits(r.temperature_bits), 0.2f32);
}

fn reply(content: Option<&str>) -> ChatCompletionResponse {
    ChatCompletionResponse {
        choices: Some(vec![ChatChoice {
            message: Some(ChoiceMessage { content: content.map(|s| s.to_string()) }),
        }]),
        error: None,
    }
}

#[test]
fn successful_reply_is_sanitized() {
    let r = LlmClient::interpret_response(
        true,
        "200 OK".to_string(),
        String::new(),
        Some(reply(Some("<think>x</think>\nfeat: a\n"))),
    );
    assert_eq!(r.unwrap(), "feat: a");
}

#[test]
fn each_error_variant_has_its_text() {
    let api = LlmClient::interpret_response(
        false,
        "400 Bad Request".to_string(),
        "{}".to_string(),
        Some(ChatCompletionResponse {
            choices: None,
            error: Some(ApiErrorResponse { message: Some("bad model".to_string()) }),
        }),
    )
    .unwrap_err();
    assert_eq!(api.message(), "LLM API error (400 Bad Request): bad model");

    let status = LlmClient::interpret_response(false, "500".to_string(), "oops".to_string(), None)
        .unwrap_err();
    assert_eq!(status.message(), "LLM API returned error status 500:\noops");

    let parse = LlmClient::interpret_response(true, "200".to_string(), "nope".to_string(), None)
        .unwrap_err();
    assert_eq!(parse.message(), "Failed to parse response JSON from LLM: nope");

    let empty =
        LlmClient::interpret_response(true, "200".to_string(), String::new(), Some(reply(Some("  \n"))))
            .unwrap_err();
    assert!(matches!(empty, LlmError::EmptyMessage));
    assert_eq!(empty.message(), "LLM returned an empty commit message.");

    let missing = LlmClient::interpret_response(
        true,
        "200".to_string(),
        String::new(),
        Some(ChatCompletionResponse { choices: Some(vec![]), error: None }),
    )
    .unwrap_err();
    assert!(matches!(missing, LlmError::EmptyMessage));

    let c = LlmClient::new(provider("k"));
    let connect = c.send_error(true, "refused".to_string());
    assert_eq!(
        connect.message(),
        "Failed to connect to LLM endpoint at 'http://127.0.0.1:1234/v1/chat/completions'.\n-> Is your local LLM service (e.g. LMStudio / Ollama) running?\n-> Use 'git msg config' to inspect or adjust your endpoint configuration.\n(Details: refused)"
    );
    let request = c.send_error(false, "boom".to_string());
    assert_eq!(request.message(), "HTTP request to LLM failed: boom");
}

#[test]
fn error_status_without_message_reports_body() {
    let r = LlmClient::interpret_response(
        false,
        "404 Not Found".to_string(),
        "{\"error\":{}}".to_string(),
        Some(ChatCompletionResponse { choices: None, error: Some(ApiErrorResponse { message: None }) }),
    );
    assert!(matches!(r, Err(LlmError::Status { .. })));
}
