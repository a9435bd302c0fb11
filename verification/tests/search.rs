use abot::html::Selection;
use abot::search::{
    blocks_from_selections, candidate_from_block, candidates_from_blocks, parse_results,
    resolve_link, search_result, search_url, strip_scheme, text_found, ResultBlock,
    SearchCandidate, SearchError,
};
use abot::transfer::Transfer;

const LISTING: &str = r#"<html><body>
<div class="result__extras"><a class="result__url" href="x"> www.rust-lang.org </a><a class="result__snippet">Rust is <b>fast</b>.</a></div>
<div class="result__extras"><span class="result__snippet">no link here</span></div>
<div class="result__extras"><a class="result__url">doc.rust-lang.org/book</a></div>
<div class="result__extras"><a class="result__url">   </a><a class="result__snippet">blank link</a></div>
<div class="result__extras"><a class="result__url">//duckduckgo.com/l/?uddg=https%3A%2F%2Fcrates.io%2F&amp;rut=77</a><a class="result__snippet">Crates</a></div>
</body></html>"#;

fn candidate(url: &str, snippet: &str) -> SearchCandidate {
    SearchCandidate { url: url.to_string(), snippet: snippet.to_string() }
}

#[test]
fn search_url_encodes_the_query() {
    assert_eq!(
        search_url("rust programming"),
        "https://html.duckduckgo.com/html/?q=rust%20programming"
    );
    assert_eq!(
        search_url("a&b=c/ü~-_."),
        "https://html.duckduckgo.com/html/?q=a%26b%3Dc%2F%C3%BC~-_."
    );
    assert_eq!(search_url(""), "https://html.duckduckgo.com/html/?q=");
}

#[test]
fn resolve_link_adds_the_scheme() {
    assert_eq!(
        resolve_link("  www.rust-lang.org/learn  "),
        Some("https://www.rust-lang.org/learn".to_string())
    );
}

#[test]
fn resolve_link_decodes_a_redirect() {
    assert_eq!(
        resolve_link("//duckduckgo.com/l/?uddg=https%3A%2F%2Fwww.rust%2Dlang.org%2F&rut=abc"),
        Some("https://www.rust-lang.org/".to_string())
    );
    assert_eq!(
        resolve_link("/l/?uddg=example.com%2Fa%20b"),
        Some("https://example.com/ab".to_string())
    );
}

#[test]
fn resolve_link_normalizes_the_scheme() {
    assert_eq!(resolve_link("http://example.com/x"), Some("https://example.com/x".to_string()));
    assert_eq!(resolve_link("https://example.com/x"), Some("https://example.com/x".to_string()));
}

#[test]
fn resolve_link_strips_white_space() {
    assert_eq!(
        resolve_link("example.com/\n   a b\tc"),
        Some("https://example.com/abc".to_string())
    );
}

#[test]
fn resolve_link_keeps_what_does_not_decode() {
    assert_eq!(resolve_link("x?uddg=%FF"), Some("https://%FF".to_string()));
    assert_eq!(resolve_link("x?uddg=a%C3"), Some("https://a%C3".to_string()));
}

#[test]
fn resolve_link_decodes_only_whole_escapes() {
    for (raw, url) in [
        ("x?uddg=100%", "https://100%"),
        ("x?uddg=%4", "https://%4"),
        ("x?uddg=%zz1", "https://%zz1"),
        ("x?uddg=%4z", "https://%4z"),
        ("x?uddg=%%41", "https://%A"),
        ("x?uddg=%4%41", "https://%4A"),
        ("x?uddg=a%2fb%2Fc", "https://a/b/c"),
        ("x?uddg=a+b", "https://a+b"),
        ("x?uddg=%C3%BC", "https://\u{fc}"),
        ("x?uddg=%e2%82%ac", "https://\u{20ac}"),
    ] {
        assert_eq!(resolve_link(raw), Some(url.to_string()), "{}", raw);
    }
}

#[test]
fn resolve_link_gives_nothing_for_no_destination() {
    assert_eq!(resolve_link(""), None);
    assert_eq!(resolve_link("   "), None);
    assert_eq!(resolve_link("https://"), None);
    assert_eq!(resolve_link("a?uddg=&rut=1"), None);
}

#[test]
fn strip_scheme_takes_one_scheme_off() {
    let chars: Vec<char> = "https://http://x".chars().collect();
    let expected: Vec<char> = "http://x".chars().collect();
    assert_eq!(strip_scheme(&chars), expected);
}

fn nodes(parts: &[&str]) -> Option<Vec<String>> {
    Some(parts.iter().map(|p| p.to_string()).collect())
}

#[test]
fn text_found_joins_the_text_nodes() {
    let selection = Selection {
        text: vec!["all".to_string()],
        found: vec![nodes(&["www.", "rust-lang", ".org"]), None, nodes(&[])],
    };
    assert_eq!(text_found(&selection, 0), Some("www.rust-lang.org".to_string()));
    assert_eq!(text_found(&selection, 1), None);
    assert_eq!(text_found(&selection, 2), Some(String::new()));
    assert_eq!(text_found(&selection, 3), None);
}

#[test]
fn blocks_from_selections_take_link_and_snippet() {
    let selections = vec![
        Selection { text: vec![], found: vec![nodes(&["a"]), nodes(&["b", "c"])] },
        Selection { text: vec![], found: vec![None, nodes(&["d"])] },
        Selection { text: vec![], found: vec![] },
    ];
    assert_eq!(
        blocks_from_selections(&selections),
        vec![
            ResultBlock { link: Some("a".to_string()), snippet: Some("bc".to_string()) },
            ResultBlock { link: None, snippet: Some("d".to_string()) },
            ResultBlock { link: None, snippet: None },
        ]
    );
}

#[test]
fn candidate_from_block_needs_a_link() {
    let with_link = ResultBlock { link: Some("a.example".to_string()), snippet: None };
    assert_eq!(candidate_from_block(&with_link), Some(candidate("https://a.example", "")));
    let without = ResultBlock { link: None, snippet: Some("s".to_string()) };
    assert_eq!(candidate_from_block(&without), None);
}

#[test]
fn candidates_keep_the_order_of_the_blocks() {
    let blocks = vec![
        ResultBlock { link: Some("c.example".to_string()), snippet: Some("3".to_string()) },
        ResultBlock { link: None, snippet: Some("skipped".to_string()) },
        ResultBlock { link: Some("a.example".to_string()), snippet: Some("1".to_string()) },
        ResultBlock { link: Some(" ".to_string()), snippet: Some("skipped".to_string()) },
        ResultBlock { link: Some("b.example".to_string()), snippet: Some("2".to_string()) },
    ];
    assert_eq!(
        candidates_from_blocks(&blocks),
        vec![
            candidate("https://c.example", "3"),
            candidate("https://a.example", "1"),
            candidate("https://b.example", "2"),
        ]
    );
}

#[test]
fn parse_results_reads_the_listing_in_order() {
    assert_eq!(
        parse_results(LISTING),
        vec![
            candidate("https://www.rust-lang.org", "Rust is fast."),
            candidate("https://doc.rust-lang.org/book", ""),
            candidate("https://crates.io/", "Crates"),
        ]
    );
}

#[test]
fn parse_results_of_a_page_without_results_is_empty() {
    assert_eq!(parse_results("<html><body><p>nothing</p></body></html>"), vec![]);
    assert_eq!(parse_results(""), vec![]);
    assert_eq!(parse_results("<<<< not html at all"), vec![]);
}

#[test]
fn search_result_tells_failure_from_no_results() {
    assert_eq!(search_result(&Transfer::Failed), Err(SearchError::SearchUnavailable));
    assert_eq!(search_result(&Transfer::TimedOut), Err(SearchError::SearchUnavailable));
    assert_eq!(search_result(&Transfer::Body(String::new())), Ok(vec![]));
}

#[test]
fn search_for_rust_programming_yields_a_candidate() {
    let found = search_result(&Transfer::Body(LISTING.to_string())).unwrap();
    assert!(!found.is_empty());
    assert!(!found[0].url.is_empty());
    assert!(!found[0].snippet.is_empty());
}
