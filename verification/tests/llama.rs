use abot::llama::{
    bearer_token, check_status, flatten_prompt, get_response_text, request_format,
    stream_setting, LlamaError, Message, RequestFormat,
};

fn message(role: &str, content: &str) -> Message {
    Message { role: role.to_string(), content: content.to_string() }
}

#[test]
fn response_text_is_the_content_of_the_first_choice() {
    assert_eq!(
        get_response_text(r#"{"choices":[{"message":{"role":"assistant","content":"hi"}},{"message":{"content":"second"}}],"response":"other"}"#),
        Ok("hi".to_string())
    );
}

#[test]
fn response_text_is_the_response_member_otherwise() {
    assert_eq!(get_response_text(r#"{"response":"yo","done":true}"#), Ok("yo".to_string()));
    assert_eq!(
        get_response_text(r#"{"choices":[],"response":"yo"}"#),
        Ok("yo".to_string())
    );
    assert_eq!(
        get_response_text(r#"{"choices":[{"message":{"role":"assistant"}}],"response":"yo"}"#),
        Ok("yo".to_string())
    );
    assert_eq!(
        get_response_text(r#"{"choices":{"0":{"message":{"content":"no array"}}},"response":"yo"}"#),
        Ok("yo".to_string())
    );
}

#[test]
fn response_text_is_the_body_where_nothing_else_is_found() {
    assert_eq!(get_response_text("plain text"), Ok("plain text".to_string()));
    assert_eq!(get_response_text(" padded "), Ok(" padded ".to_string()));
    assert_eq!(get_response_text(r#"{"choices":[]}"#), Ok(r#"{"choices":[]}"#.to_string()));
    assert_eq!(get_response_text(r#"{"response":5}"#), Ok(r#"{"response":5}"#.to_string()));
}

#[test]
fn response_text_of_a_blank_body_is_a_parse_error() {
    let expected =
        Err(LlamaError::ResponseParseError("No valid response format detected".to_string()));
    assert_eq!(get_response_text(""), expected);
    assert_eq!(get_response_text("  \n\t "), expected);
}

#[test]
fn response_text_keeps_escapes_and_unicode() {
    assert_eq!(
        get_response_text(r#"{"response":"a\nb \"q\" ü"}"#),
        Ok("a\nb \"q\" ü".to_string())
    );
}

#[test]
fn request_format_goes_by_the_address() {
    assert_eq!(request_format("http://localhost:11434/ollama/api"), RequestFormat::Ollama);
    assert_eq!(request_format("http://ollama.llamacpp.example/"), RequestFormat::Ollama);
    assert_eq!(request_format("http://llamacpp.example/v1"), RequestFormat::LlamaCpp);
    assert_eq!(
        request_format("https://api.deepseek.com/v1/chat/completions"),
        RequestFormat::OpenAi
    );
    assert_eq!(request_format("http://localhost:11434/api/chat"), RequestFormat::OpenAi);
    assert_eq!(request_format(""), RequestFormat::OpenAi);
}

#[test]
fn flatten_prompt_writes_a_line_per_message() {
    assert_eq!(
        flatten_prompt(&vec![message("system", "be kind"), message("user", "hi")]),
        "system: be kind\nuser: hi"
    );
    assert_eq!(flatten_prompt(&vec![message("user", "hi")]), "user: hi");
    assert_eq!(flatten_prompt(&vec![]), "");
}

#[test]
fn stream_setting_defaults_to_streaming() {
    assert!(stream_setting(None));
    assert!(stream_setting(Some(true)));
    assert!(!stream_setting(Some(false)));
}

#[test]
fn bearer_token_precedes_the_key() {
    assert_eq!(bearer_token("secret"), "Bearer secret");
}

#[test]
fn check_status_passes_a_success() {
    assert_eq!(check_status(200, "200 OK", ""), Ok(()));
    assert_eq!(check_status(299, "299", "body"), Ok(()));
}

#[test]
fn check_status_of_401_is_an_authentication_error() {
    assert_eq!(
        check_status(401, "401 Unauthorized", "denied"),
        Err(LlamaError::AuthenticationError("Invalid API key".to_string()))
    );
}

#[test]
fn check_status_of_a_failure_describes_it() {
    assert_eq!(
        check_status(500, "500 Internal Server Error", "boom"),
        Err(LlamaError::RequestFailed(
            "Status: 500 Internal Server Error, Body: boom".to_string()
        ))
    );
    assert!(matches!(check_status(199, "199", ""), Err(LlamaError::RequestFailed(_))));
    assert!(matches!(check_status(300, "300", ""), Err(LlamaError::RequestFailed(_))));
}

#[test]
fn llama_error_messages() {
    assert_eq!(
        LlamaError::ServiceUnavailable("down".to_string()).message(),
        "Service is not available: down"
    );
    assert_eq!(
        LlamaError::ModelNotAvailable("phi4".to_string(), "gone".to_string()).message(),
        "Model 'phi4' is not available: gone"
    );
    assert_eq!(LlamaError::RequestFailed("x".to_string()).message(), "Request failed: x");
    assert_eq!(
        LlamaError::ResponseParseError("x".to_string()).message(),
        "Failed to parse response: x"
    );
    assert_eq!(
        LlamaError::AuthenticationError("x".to_string()).message(),
        "Authentication failed: x"
    );
}
