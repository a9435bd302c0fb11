use abot::config::{
    check_api_key, select_provider, Provider, ProviderError, WebSearchConfig,
    DEFAULT_RESULT_LIMIT,
};

#[test]
fn the_default_result_limit_is_ten() {
    assert_eq!(WebSearchConfig::default().result_limit, 10);
    assert_eq!(DEFAULT_RESULT_LIMIT, 10);
}

#[test]
fn select_provider_knows_four_names() {
    assert_eq!(select_provider("deepseek"), Ok(Provider::Deepseek));
    assert_eq!(select_provider("openai"), Ok(Provider::OpenAi));
    assert_eq!(select_provider("llamacpp"), Ok(Provider::LlamaCpp));
    assert_eq!(select_provider("ollama"), Ok(Provider::Ollama));
}

#[test]
fn select_provider_refuses_other_names() {
    assert_eq!(
        select_provider("acme"),
        Err(ProviderError::Unsupported("acme".to_string()))
    );
    assert_eq!(select_provider("OpenAI"), Err(ProviderError::Unsupported("OpenAI".to_string())));
    assert_eq!(select_provider(""), Err(ProviderError::Unsupported(String::new())));
}

#[test]
fn check_api_key_refuses_a_placeholder() {
    assert_eq!(
        check_api_key("deepseek", Some("your-deepseek-key")),
        Err(ProviderError::PlaceholderKey("deepseek".to_string()))
    );
    assert_eq!(
        check_api_key("openai", Some("sk-your-key")),
        Err(ProviderError::PlaceholderKey("openai".to_string()))
    );
}

#[test]
fn check_api_key_passes_a_key_or_none() {
    assert_eq!(check_api_key("deepseek", Some("sk-123")), Ok(()));
    assert_eq!(check_api_key("llamacpp", None), Ok(()));
    assert_eq!(check_api_key("openai", Some("")), Ok(()));
}

#[test]
fn provider_error_messages() {
    assert_eq!(
        ProviderError::Unsupported("acme".to_string()).message(),
        "Unsupported provider: acme"
    );
    assert_eq!(
        ProviderError::PlaceholderKey("openai".to_string()).message(),
        "Please set your API key for openai in the config file"
    );
}
