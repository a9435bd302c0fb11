use abot::cache::{cache_key, read, CachedDocument, FRESHNESS_WINDOW_SECS};

const HOUR: u64 = 3600;

fn document(timestamp: u64) -> CachedDocument {
    CachedDocument {
        url: "https://example.com/".to_string(),
        snippet: "snippet".to_string(),
        document: "content".to_string(),
        summary: "summary".to_string(),
        timestamp,
    }
}

#[test]
fn cache_key_encodes_everything_but_letters_and_digits() {
    assert_eq!(cache_key("https://example.com/"), "https%3A%2F%2Fexample%2Ecom%2F");
    assert_eq!(cache_key("aZ09"), "aZ09");
    assert_eq!(cache_key("a b~-_.ü"), "a%20b%7E%2D%5F%2E%C3%BC");
    assert_eq!(cache_key(""), "");
}

#[test]
fn cache_key_is_safe_as_a_file_name() {
    let key = cache_key("https://example.com/a/b?c=d&e=f#g \\ \u{1F600}");
    assert!(key.chars().all(|c| c.is_ascii_alphanumeric() || c == '%'));
}

#[test]
fn cache_key_tells_urls_apart() {
    assert_ne!(cache_key("https://example.com/a"), cache_key("https://example.com/A"));
    assert_ne!(cache_key("a/b"), cache_key("a%2Fb"));
    assert_eq!(cache_key("https://example.com/a"), cache_key("https://example.com/a"));
}

#[test]
fn read_hands_out_a_fresh_record() {
    let now = 1_700_000_000;
    assert_eq!(read(Some(document(now)), now), Some(document(now)));
    assert_eq!(read(Some(document(now - HOUR)), now), Some(document(now - HOUR)));
    assert_eq!(
        read(Some(document(now - FRESHNESS_WINDOW_SECS + 1)), now),
        Some(document(now - FRESHNESS_WINDOW_SECS + 1))
    );
}

#[test]
fn read_treats_a_stale_record_as_absent() {
    let now = 1_700_000_000;
    assert_eq!(read(Some(document(now - FRESHNESS_WINDOW_SECS)), now), None);
    assert_eq!(read(Some(document(now - 25 * HOUR)), now), None);
    assert_eq!(read(Some(document(0)), now), None);
}

#[test]
fn read_of_nothing_is_nothing() {
    assert_eq!(read(None, 1_700_000_000), None);
}

#[test]
fn read_hands_out_a_record_from_a_clock_ahead() {
    let now = 1_700_000_000;
    assert_eq!(read(Some(document(now + 5)), now), Some(document(now + 5)));
}

#[test]
fn is_fresh_is_below_the_window() {
    assert!(document(100).is_fresh(100));
    assert!(document(100).is_fresh(100 + FRESHNESS_WINDOW_SECS - 1));
    assert!(!document(100).is_fresh(100 + FRESHNESS_WINDOW_SECS));
    assert!(!document(0).is_fresh(u64::MAX));
}

#[test]
fn write_stamps_the_time_of_the_write() {
    let doc = abot::cache::write("https://example.com/", "snippet", "content", "summary", 42);
    assert_eq!(doc, document(42));
    assert_eq!(CachedDocument::new("https://example.com/", "snippet", "content", "summary", 42), doc);
}

#[test]
fn write_then_read_gives_the_same_content_and_summary() {
    let written_at = 1_700_000_000;
    let content = "line one\nline \"two\" \u{1F600}\n";
    let summary = "a summary with \\ and \t";
    let doc = abot::cache::write("https://example.com/", "s", content, summary, written_at);
    let back = read(Some(doc), written_at + 23 * HOUR).unwrap();
    assert_eq!(back.document, content);
    assert_eq!(back.summary, summary);
    assert_eq!(back.timestamp, written_at);
}
