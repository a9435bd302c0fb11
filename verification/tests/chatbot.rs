use abot::chatbot::{
    add_message, context_message, digest, history_text, last_interaction, parse_query,
    raw_messages, sanitize_topic, search_context, stream_text, update_last_message, ChatMessage,
    SaveError,
};
use abot::llama::Message;
use abot::research::SourceResult;

fn chat(role: &str, content: &str) -> ChatMessage {
    ChatMessage::new(role, content)
}

fn source(url: &str, content: &str, summary: &str) -> SourceResult {
    SourceResult {
        url: url.to_string(),
        snippet: String::new(),
        content: content.to_string(),
        summary: summary.to_string(),
    }
}

#[test]
fn a_new_chat_message_is_not_rendered() {
    let m = chat("user", "hello");
    assert_eq!(m.role, "user");
    assert_eq!(m.raw_content, "hello");
    assert!(m.rendered_content.is_empty());
}

#[test]
fn parse_query_takes_the_directives_out() {
    let q = parse_query("@web what   is #tag rust @other lang");
    assert!(q.web_search);
    assert_eq!(q.text, "what is rust lang");
}

#[test]
fn parse_query_without_the_flag_does_not_search() {
    let q = parse_query("  plain question  ");
    assert!(!q.web_search);
    assert_eq!(q.text, "plain question");
    let empty = parse_query("");
    assert!(!empty.web_search);
    assert_eq!(empty.text, "");
}

#[test]
fn parse_query_finds_the_flag_anywhere() {
    assert!(parse_query("mail me@webmail.example").web_search);
    assert_eq!(parse_query("mail me@webmail.example").text, "mail me@webmail.example");
    assert!(!parse_query("@ web").web_search);
}

#[test]
fn digest_is_the_summary_or_the_beginning_of_the_content() {
    assert_eq!(digest(&source("u", "content", "summary")), "summary");
    assert_eq!(digest(&source("u", "  content  ", "")), "content");
    let long = "c".repeat(800);
    assert_eq!(digest(&source("u", &long, "")), "c".repeat(500));
}

#[test]
fn search_context_numbers_the_sources() {
    let results = vec![
        source("https://a.example", "content a", "summary a"),
        source("https://b.example", "content b", ""),
    ];
    assert_eq!(
        search_context(&results),
        "Source 1: https://a.example\nSummary: summary a\n\n\
         Source 2: https://b.example\nSummary: content b"
    );
    assert_eq!(search_context(&vec![]), "");
}

#[test]
fn search_context_counts_beyond_nine() {
    let results: Vec<SourceResult> = (0..12).map(|_| source("u", "", "s")).collect();
    let context = search_context(&results);
    assert!(context.contains("Source 10: u\nSummary: s\n\nSource 11: u"));
    assert!(context.ends_with("Source 12: u\nSummary: s"));
}

#[test]
fn context_message_holds_the_results() {
    let results = vec![source("https://a.example", "content a", "summary a")];
    assert_eq!(
        context_message(&results),
        Message {
            role: "system".to_string(),
            content: "Here are relevant search results for your query:\n\n\
                      Source 1: https://a.example\nSummary: summary a"
                .to_string(),
        }
    );
}

#[test]
fn context_message_says_when_nothing_was_found() {
    assert_eq!(
        context_message(&vec![]),
        Message {
            role: "system".to_string(),
            content: "No search results were found.".to_string(),
        }
    );
}

#[test]
fn stream_text_joins_the_pieces_of_a_chunk() {
    let chunk = "data: {\"choices\":[{\"delta\":{\"content\":\"Hel\"}}]}\n\n\
                 data: {\"choices\":[{\"delta\":{\"content\":\"lo\"}}]}\r\n\
                 data: [DONE]\n";
    assert_eq!(stream_text(chunk), "Hello");
}

#[test]
fn stream_text_passes_over_what_is_no_event() {
    assert_eq!(stream_text(""), "");
    assert_eq!(stream_text("event: ping\n: comment\ndata:{\"no\":\"space\"}\n"), "");
    assert_eq!(stream_text("data: not json\ndata: {\"choices\":[]}\n"), "");
    assert_eq!(stream_text("data: {\"choices\":[{\"delta\":{\"role\":\"assistant\"}}]}"), "");
    assert_eq!(stream_text("data: [DONE]"), "");
}

#[test]
fn stream_text_reads_a_last_line_without_an_end() {
    assert_eq!(stream_text("data: {\"choices\":[{\"delta\":{\"content\":\"x\"}}]}"), "x");
}

#[test]
fn raw_messages_keep_role_and_text() {
    let messages = vec![chat("system", "be kind"), chat("user", "hi")];
    assert_eq!(
        raw_messages(&messages),
        vec![
            Message { role: "system".to_string(), content: "be kind".to_string() },
            Message { role: "user".to_string(), content: "hi".to_string() },
        ]
    );
}

#[test]
fn add_message_appends() {
    let mut messages = vec![chat("system", "be kind")];
    add_message(&mut messages, "user", "hi");
    assert_eq!(messages, vec![chat("system", "be kind"), chat("user", "hi")]);
}

#[test]
fn update_last_message_replaces_text_and_lines() {
    let mut messages = vec![chat("user", "hi"), chat("assistant", "")];
    update_last_message(&mut messages, "Hello there");
    assert_eq!(messages[0], chat("user", "hi"));
    assert_eq!(messages[1].role, "assistant");
    assert_eq!(messages[1].raw_content, "Hello there");
    assert_eq!(messages[1].rendered_content.len(), 2);
    assert_eq!(messages[1].rendered_content[0].spans[0].content, "Hello there");
    let mut none: Vec<ChatMessage> = vec![];
    update_last_message(&mut none, "x");
    assert!(none.is_empty());
}

#[test]
fn last_interaction_needs_two_messages() {
    assert_eq!(last_interaction(&vec![]), Ok(None));
    assert_eq!(last_interaction(&vec![chat("user", "q")]), Ok(None));
}

#[test]
fn last_interaction_needs_both_roles() {
    assert_eq!(
        last_interaction(&vec![chat("system", "s"), chat("assistant", "a")]),
        Err(SaveError::NoUserMessage)
    );
    assert_eq!(
        last_interaction(&vec![chat("system", "s"), chat("user", "q")]),
        Err(SaveError::NoAssistantMessage)
    );
    assert_eq!(
        last_interaction(&vec![chat("system", "s"), chat("system", "t")]),
        Err(SaveError::NoUserMessage)
    );
}

#[test]
fn last_interaction_is_the_last_question_and_the_last_reply() {
    let messages = vec![
        chat("system", "s"),
        chat("user", "first"),
        chat("assistant", "one"),
        chat("user", "second"),
        chat("assistant", "two"),
        chat("system", "context"),
    ];
    assert_eq!(
        last_interaction(&messages),
        Ok(Some("User:second\nAssistant:two\n\n".to_string()))
    );
}

#[test]
fn save_error_messages() {
    assert_eq!(SaveError::NoUserMessage.message(), "No user message found");
    assert_eq!(SaveError::NoAssistantMessage.message(), "No assistant message found");
}

#[test]
fn history_text_leaves_out_the_first_message() {
    assert_eq!(history_text(&vec![]), None);
    assert_eq!(history_text(&vec![chat("system", "s")]), Some(String::new()));
    assert_eq!(
        history_text(&vec![chat("system", "s"), chat("user", "q"), chat("assistant", "a")]),
        Some("user:q\n\nassistant:a\n\n".to_string())
    );
}

#[test]
fn sanitize_topic_replaces_spaces() {
    assert_eq!(sanitize_topic("my new  topic"), "my_new__topic");
    assert_eq!(sanitize_topic("topic"), "topic");
    assert_eq!(sanitize_topic(""), "");
}
