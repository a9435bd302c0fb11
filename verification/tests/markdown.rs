use abot::markdown::{
    code_lines, detect_language, language_for_alias, language_for_token, language_of_fence,
    markdown_to_lines, render, syntax_for, MarkdownEvent, MarkdownTag, Renderer, StyledLine,
    StyledSpan, TextColor, TextStyle,
};

const PLAIN: TextStyle =
    TextStyle { fg: None, bg: None, bold: false, italic: false, underlined: false };

fn styled(content: &str, style: TextStyle) -> StyledSpan {
    StyledSpan { content: content.to_string(), style }
}

fn line(spans: Vec<StyledSpan>) -> StyledLine {
    StyledLine { spans }
}

fn bold(color: TextColor) -> TextStyle {
    TextStyle { fg: Some(color), bold: true, ..PLAIN }
}

fn text_event(s: &str) -> MarkdownEvent {
    MarkdownEvent::Text(s.to_string())
}

fn content_of(l: &StyledLine) -> String {
    l.spans.iter().map(|s| s.content.as_str()).collect()
}

#[test]
fn detect_language_knows_the_aliases() {
    assert_eq!(detect_language("rs"), Some("Rust"));
    assert_eq!(detect_language("rust"), Some("Rust"));
    assert_eq!(detect_language("py"), Some("Python"));
    assert_eq!(detect_language("cpp"), Some("C++"));
    assert_eq!(detect_language("hpp"), Some("C++"));
    assert_eq!(detect_language("h"), Some("C"));
    assert_eq!(detect_language("yml"), Some("YAML"));
    assert_eq!(detect_language("dockerfile"), Some("Dockerfile"));
    assert_eq!(detect_language("sh"), Some("Bash"));
    assert_eq!(detect_language("md"), Some("Markdown"));
}

#[test]
fn detect_language_ignores_case() {
    assert_eq!(detect_language("RS"), Some("Rust"));
    assert_eq!(detect_language("Json"), Some("JSON"));
    assert_eq!(detect_language("DOC\u{212A}ERFILE"), Some("Dockerfile"));
}

#[test]
fn detect_language_knows_html_with_detail() {
    assert_eq!(detect_language("html"), Some("HTML"));
    assert_eq!(detect_language("HTML"), Some("HTML"));
    assert_eq!(detect_language("html:index.html"), Some("HTML"));
    assert_eq!(detect_language("htmlx"), None);
}

#[test]
fn detect_language_of_an_unknown_hint_is_none() {
    assert_eq!(detect_language(""), None);
    assert_eq!(detect_language("brainfuck"), None);
    assert_eq!(detect_language(" rs"), None);
    assert_eq!(detect_language("rs:main"), None);
}

#[test]
fn language_for_token_wants_lower_case() {
    assert_eq!(language_for_token("go"), Some("Go"));
    assert_eq!(language_for_token("GO"), None);
    assert_eq!(language_for_alias("html"), Some("HTML"));
    assert_eq!(language_for_alias("html:x"), None);
    assert_eq!(language_for_token("html:x"), Some("HTML"));
}

#[test]
fn language_of_fence_reads_the_token_before_the_colon() {
    assert_eq!(language_of_fence(&Some("rust".to_string())), "Rust");
    assert_eq!(language_of_fence(&Some(" py :main.py".to_string())), "Python");
    assert_eq!(language_of_fence(&Some("TS:x:y".to_string())), "TypeScript");
    assert_eq!(language_of_fence(&Some("zzz".to_string())), "Plain Text");
    assert_eq!(language_of_fence(&Some("".to_string())), "Plain Text");
    assert_eq!(language_of_fence(&None), "Plain Text");
}

#[test]
fn syntax_for_finds_the_syntax_of_a_language() {
    assert_eq!(syntax_for("Rust"), "Rust");
    assert_eq!(syntax_for("rs"), "Rust");
    assert_eq!(syntax_for("MA\u{212A}"), "Makefile");
    assert_eq!(syntax_for("Python"), "Python");
    assert_eq!(syntax_for("Plain Text"), "Plain Text");
    assert_eq!(syntax_for("No Such Language"), "Plain Text");
}

#[test]
fn code_lines_keep_the_text_of_each_line() {
    let code = "fn main() {\n    println!(\"hi\");\n}\n";
    let lines = code_lines(code, "Rust");
    let contents: Vec<String> = lines.iter().map(content_of).collect();
    assert_eq!(contents, vec!["fn main() {", "    println!(\"hi\");", "}"]);
    assert!(lines[0].spans.len() > 1);
    for l in lines.iter() {
        for s in l.spans.iter() {
            assert!(matches!(s.style.fg, Some(TextColor::Rgb(_, _, _))));
            assert_eq!(s.style.bg, None);
            assert!(!s.style.italic);
            assert!(!s.style.underlined);
        }
    }
}

#[test]
fn code_lines_of_plain_text_are_one_piece_each() {
    let lines = code_lines("one\ntwo", "Plain Text");
    assert_eq!(lines.len(), 2);
    assert_eq!(content_of(&lines[0]), "one");
    assert_eq!(content_of(&lines[1]), "two");
    assert_eq!(code_lines("", "Rust"), vec![]);
}

#[test]
fn render_of_no_events_is_no_lines() {
    assert_eq!(render(&vec![]), vec![]);
    assert_eq!(Renderer::new().finish(), vec![]);
}

#[test]
fn render_heading_and_paragraph() {
    let events = vec![
        MarkdownEvent::Start(MarkdownTag::Heading(2)),
        text_event("Title"),
        MarkdownEvent::End(MarkdownTag::Heading(2)),
        MarkdownEvent::Start(MarkdownTag::Paragraph),
        text_event("Hello "),
        MarkdownEvent::Start(MarkdownTag::Emphasis),
        text_event("world"),
        MarkdownEvent::End(MarkdownTag::Emphasis),
        MarkdownEvent::End(MarkdownTag::Paragraph),
    ];
    let yellow = bold(TextColor::Yellow);
    assert_eq!(
        render(&events),
        vec![
            line(vec![styled("Title", yellow)]),
            line(vec![]),
            line(vec![
                styled("Hello ", yellow),
                styled("world", TextStyle { italic: true, ..yellow }),
            ]),
            line(vec![]),
        ]
    );
}

#[test]
fn render_heading_levels_have_their_colours() {
    for (level, color) in [
        (1, TextColor::Red),
        (2, TextColor::Yellow),
        (3, TextColor::Green),
        (4, TextColor::Blue),
        (6, TextColor::Blue),
        (0, TextColor::Blue),
    ] {
        let events = vec![MarkdownEvent::Start(MarkdownTag::Heading(level)), text_event("t")];
        assert_eq!(render(&events), vec![line(vec![styled("t", bold(color))])]);
    }
}

#[test]
fn render_text_breaks_lines_at_line_feeds() {
    let events = vec![text_event("a\n\nb\n")];
    assert_eq!(
        render(&events),
        vec![line(vec![styled("a", PLAIN)]), line(vec![]), line(vec![styled("b", PLAIN)])]
    );
}

#[test]
fn render_breaks() {
    let events = vec![
        text_event("a"),
        MarkdownEvent::SoftBreak,
        text_event("b"),
        MarkdownEvent::HardBreak,
        MarkdownEvent::HardBreak,
        text_event("c"),
    ];
    assert_eq!(
        render(&events),
        vec![
            line(vec![styled("a", PLAIN), styled(" ", PLAIN), styled("b", PLAIN)]),
            line(vec![styled("c", PLAIN)]),
        ]
    );
}

#[test]
fn render_inline_code_and_strong_and_link() {
    let events = vec![
        MarkdownEvent::Code("x + y".to_string()),
        MarkdownEvent::Start(MarkdownTag::Strong),
        text_event("b"),
        MarkdownEvent::End(MarkdownTag::Strong),
        MarkdownEvent::Start(MarkdownTag::Link),
        text_event("l"),
        MarkdownEvent::End(MarkdownTag::Link),
        MarkdownEvent::Other,
    ];
    let code = TextStyle { fg: Some(TextColor::Gray), bg: Some(TextColor::DarkGray), ..PLAIN };
    let strong = TextStyle { bold: true, ..PLAIN };
    let link = TextStyle { fg: Some(TextColor::Blue), underlined: true, ..strong };
    assert_eq!(
        render(&events),
        vec![line(vec![styled("x + y", code), styled("b", strong), styled("l", link)])]
    );
}

#[test]
fn render_quotation() {
    let events = vec![
        text_event("before"),
        MarkdownEvent::Start(MarkdownTag::BlockQuote),
        text_event("quoted"),
        MarkdownEvent::End(MarkdownTag::BlockQuote),
    ];
    let quote = TextStyle { fg: Some(TextColor::Cyan), italic: true, ..PLAIN };
    assert_eq!(
        render(&events),
        vec![
            line(vec![styled("before", PLAIN)]),
            line(vec![styled("\u{2502} ", quote), styled("quoted", quote)]),
            line(vec![]),
        ]
    );
}

#[test]
fn render_numbered_and_nested_lists() {
    let events = vec![
        MarkdownEvent::Start(MarkdownTag::List(Some(3))),
        MarkdownEvent::Start(MarkdownTag::Item),
        text_event("a"),
        MarkdownEvent::End(MarkdownTag::Item),
        MarkdownEvent::Start(MarkdownTag::Item),
        text_event("b"),
        MarkdownEvent::End(MarkdownTag::Item),
        MarkdownEvent::End(MarkdownTag::List(Some(3))),
        MarkdownEvent::Start(MarkdownTag::List(None)),
        MarkdownEvent::Start(MarkdownTag::Item),
        text_event("c"),
        MarkdownEvent::Start(MarkdownTag::List(None)),
        MarkdownEvent::Start(MarkdownTag::Item),
        text_event("d"),
        MarkdownEvent::End(MarkdownTag::Item),
        MarkdownEvent::End(MarkdownTag::List(None)),
        MarkdownEvent::End(MarkdownTag::Item),
        MarkdownEvent::End(MarkdownTag::List(None)),
    ];
    assert_eq!(
        render(&events),
        vec![
            line(vec![styled("", PLAIN), styled("3. ", PLAIN), styled("a", PLAIN)]),
            line(vec![styled("", PLAIN), styled("4. ", PLAIN), styled("b", PLAIN)]),
            line(vec![styled("", PLAIN), styled("\u{2022} ", PLAIN), styled("c", PLAIN)]),
            line(vec![styled("  ", PLAIN), styled("\u{2022} ", PLAIN), styled("d", PLAIN)]),
        ]
    );
}

#[test]
fn render_item_outside_a_list_draws_nothing() {
    let events = vec![MarkdownEvent::Start(MarkdownTag::Item), text_event("x")];
    assert_eq!(render(&events), vec![line(vec![styled("x", PLAIN)])]);
}

#[test]
fn render_code_block_stands_between_empty_lines() {
    let events = vec![
        text_event("intro"),
        MarkdownEvent::Start(MarkdownTag::CodeBlock(Some("zzz".to_string()))),
        text_event("let x = 1;\nlet y = 2;\n"),
        MarkdownEvent::End(MarkdownTag::CodeBlock(Some("zzz".to_string()))),
        text_event("after"),
    ];
    let lines = render(&events);
    let contents: Vec<String> = lines.iter().map(content_of).collect();
    assert_eq!(contents, vec!["intro", "", "let x = 1;", "let y = 2;", "", "after"]);
}

#[test]
fn feed_takes_events_one_by_one() {
    let mut renderer = Renderer::new();
    renderer.feed(&text_event("a"));
    renderer.feed(&MarkdownEvent::HardBreak);
    renderer.feed(&text_event("b"));
    assert_eq!(
        renderer.finish(),
        vec![line(vec![styled("a", PLAIN)]), line(vec![styled("b", PLAIN)])]
    );
}

#[test]
fn markdown_to_lines_reads_markdown() {
    let lines = markdown_to_lines("# Title\n\nHello *world*\n\n1. one\n2. two\n");
    let red = bold(TextColor::Red);
    assert_eq!(
        lines,
        vec![
            line(vec![styled("Title", red)]),
            line(vec![]),
            line(vec![
                styled("Hello ", red),
                styled("world", TextStyle { italic: true, ..red }),
            ]),
            line(vec![]),
            line(vec![
                styled("", PLAIN),
                styled("1. ", TextStyle { italic: true, ..red }),
                styled("one", TextStyle { italic: true, ..red }),
            ]),
            line(vec![
                styled("", PLAIN),
                styled("2. ", TextStyle { italic: true, ..red }),
                styled("two", TextStyle { italic: true, ..red }),
            ]),
        ]
    );
}

#[test]
fn markdown_to_lines_colours_fenced_code() {
    let lines = markdown_to_lines("```rs\nfn main() {}\n```\n");
    let contents: Vec<String> = lines.iter().map(content_of).collect();
    assert_eq!(contents, vec!["", "fn main() {}", ""]);
    assert!(lines[1].spans.len() > 1);
    assert!(matches!(lines[1].spans[0].style.fg, Some(TextColor::Rgb(_, _, _))));
}

#[test]
fn markdown_to_lines_of_nothing_is_nothing() {
    assert_eq!(markdown_to_lines(""), vec![]);
}
