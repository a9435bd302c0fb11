use abot::llama::Message;
use abot::summarizer::{
    fallback_summary, summarize, summary_request, SummaryError, FALLBACK_LENGTH,
};

#[test]
fn summarize_disabled_is_empty() {
    assert_eq!(summarize("some content", false, &Ok("ignored".to_string())), "");
    assert_eq!(summarize("some content", false, &Err(SummaryError::SummarizeFailed)), "");
}

#[test]
fn summarize_enabled_gives_the_reply() {
    assert_eq!(summarize("some content", true, &Ok("a summary".to_string())), "a summary");
}

#[test]
fn summarize_falls_back_on_failure() {
    assert_eq!(summarize("  the page  ", true, &Err(SummaryError::SummarizeFailed)), "the page");
    assert_eq!(summarize("  the page  ", true, &Err(SummaryError::SummarizeTimeout)), "the page");
}

#[test]
fn fallback_summary_is_a_trimmed_prefix() {
    let content = format!("{}{}", "a".repeat(FALLBACK_LENGTH - 1), " bcd");
    assert_eq!(fallback_summary(&content), "a".repeat(FALLBACK_LENGTH - 1));
    let long = "é".repeat(2 * FALLBACK_LENGTH);
    assert_eq!(fallback_summary(&long), "é".repeat(FALLBACK_LENGTH));
    assert_eq!(fallback_summary("short"), "short");
    assert_eq!(fallback_summary(""), "");
}

#[test]
fn summary_request_is_sent_only_where_enabled() {
    assert_eq!(summary_request("page", "query", false), None);
    assert_eq!(
        summary_request("the page", "rust", true),
        Some(Message {
            role: "user".to_string(),
            content: "Given the query \"rust\", extract the information in the following page \
                      that is relevant to it:\n\nthe page"
                .to_string(),
        })
    );
}
