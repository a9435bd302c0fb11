//! Markdown as styled lines for a terminal.
//!
//! Reading markdown is the `pulldown-cmark` crate's, and colouring code the
//! `syntect` crate's. The events that the one yields and the coloured pieces
//! that the other yields are handed over as plain values; how the events
//! become lines is decided here, event by event, in [`Renderer::feed`].

use vstd::prelude::*;
use crate::text::{
    append, chars_of, decimal, equals, has_prefix, lemma_split_on_len, lines, lines_of,
    lowercased, push_decimal, rows, split, split_on, starts_with, text_of, text_view, texts,
    to_lowercase, trim, trimmed, Separator,
};

verus! {

/// The language that is always known by its own name, whatever follows it
/// after a colon.
pub const MARKUP_TOKEN: &'static str = "html";

/// `MARKUP_TOKEN` and the colon behind which more may stand.
pub const MARKUP_TOKEN_WITH_DETAIL: &'static str = "html:";

/// The name under which `MARKUP_TOKEN` is highlighted.
pub const MARKUP_LANGUAGE: &'static str = "HTML";

/// The language that the lower-case token `token` is short for.
pub open spec fn alias_language(token: Seq<char>) -> Option<Seq<char>> {
    if token == "js"@ {
        Some("JavaScript"@)
    } else if token == "ts"@ {
        Some("TypeScript"@)
    } else if token == "py"@ {
        Some("Python"@)
    } else if token == "rs"@ {
        Some("Rust"@)
    } else if token == "cpp"@ {
        Some("C++"@)
    } else if token == "hpp"@ {
        Some("C++"@)
    } else if token == "c"@ {
        Some("C"@)
    } else if token == "h"@ {
        Some("C"@)
    } else if token == "go"@ {
        Some("Go"@)
    } else if token == "rb"@ {
        Some("Ruby"@)
    } else if token == "php"@ {
        Some("PHP"@)
    } else if token == "java"@ {
        Some("Java"@)
    } else if token == "sh"@ {
        Some("Bash"@)
    } else if token == "bash"@ {
        Some("Bash"@)
    } else if token == "yaml"@ {
        Some("YAML"@)
    } else if token == "yml"@ {
        Some("YAML"@)
    } else if token == "json"@ {
        Some("JSON"@)
    } else if token == "md"@ {
        Some("Markdown"@)
    } else if token == "sql"@ {
        Some("SQL"@)
    } else if token == "html"@ {
        Some("HTML"@)
    } else if token == "css"@ {
        Some("CSS"@)
    } else if token == "toml"@ {
        Some("TOML"@)
    } else if token == "rust"@ {
        Some("Rust"@)
    } else if token == "dockerfile"@ {
        Some("Dockerfile"@)
    } else {
        None
    }
}

/// The language that a lower-case hint names: the markup language where the
/// hint is its token or begins with the token and a colon, else what the hint
/// is short for.
pub open spec fn language_of(lower: Seq<char>) -> Option<Seq<char>> {
    if lower == MARKUP_TOKEN@ || has_prefix(lower, MARKUP_TOKEN_WITH_DETAIL@) {
        Some(MARKUP_LANGUAGE@)
    } else {
        alias_language(lower)
    }
}

/// The view of a language name that may be absent.
pub open spec fn name_view(o: Option<&'static str>) -> Option<Seq<char>> {
    match o {
        Some(s) => Some(s@),
        None => None,
    }
}

/// The language that the lower-case token `lower` is short for.
pub fn language_for_alias(lower: &str) -> (r: Option<&'static str>)
    ensures
        name_view(r) == alias_language(lower@),
{
    let token = chars_of(lower);
    if equals(&token, &chars_of("js")) {
        return Some("JavaScript");
    }
    if equals(&token, &chars_of("ts")) {
        return Some("TypeScript");
    }
    if equals(&token, &chars_of("py")) {
        return Some("Python");
    }
    if equals(&token, &chars_of("rs")) {
        return Some("Rust");
    }
    if equals(&token, &chars_of("cpp")) {
        return Some("C++");
    }
    if equals(&token, &chars_of("hpp")) {
        return Some("C++");
    }
    if equals(&token, &chars_of("c")) {
        return Some("C");
    }
    if equals(&token, &chars_of("h")) {
        return Some("C");
    }
    if equals(&token, &chars_of("go")) {
        return Some("Go");
    }
    if equals(&token, &chars_of("rb")) {
        return Some("Ruby");
    }
    if equals(&token, &chars_of("php")) {
        return Some("PHP");
    }
    if equals(&token, &chars_of("java")) {
        return Some("Java");
    }
    if equals(&token, &chars_of("sh")) {
        return Some("Bash");
    }
    if equals(&token, &chars_of("bash")) {
        return Some("Bash");
    }
    if equals(&token, &chars_of("yaml")) {
        return Some("YAML");
    }
    if equals(&token, &chars_of("yml")) {
        return Some("YAML");
    }
    if equals(&token, &chars_of("json")) {
        return Some("JSON");
    }
    if equals(&token, &chars_of("md")) {
        return Some("Markdown");
    }
    if equals(&token, &chars_of("sql")) {
        return Some("SQL");
    }
    if equals(&token, &chars_of("html")) {
        return Some("HTML");
    }
    if equals(&token, &chars_of("css")) {
        return Some("CSS");
    }
    if equals(&token, &chars_of("toml")) {
        return Some("TOML");
    }
    if equals(&token, &chars_of("rust")) {
        return Some("Rust");
    }
    if equals(&token, &chars_of("dockerfile")) {
        return Some("Dockerfile");
    }
    None
}

/// The language that the lower-case hint `lower` names.
pub fn language_for_token(lower: &str) -> (r: Option<&'static str>)
    ensures
        name_view(r) == language_of(lower@),
{
    let token = chars_of(lower);
    if equals(&token, &chars_of(MARKUP_TOKEN)) || starts_with(
        &token,
        &chars_of(MARKUP_TOKEN_WITH_DETAIL),
    ) {
        Some(MARKUP_LANGUAGE)
    } else {
        language_for_alias(lower)
    }
}

/// The language that the hint of a code fence names, whatever its case.
pub fn detect_language(lang_hint: &str) -> (r: Option<&'static str>)
    ensures
        name_view(r) == language_of(lowercased(lang_hint@)),
{
    let lower = to_lowercase(lang_hint);
    language_for_token(lower.as_str())
}

#[verifier::external_type_specification]
#[verifier::external_body]
pub struct ExTag<'a>(pulldown_cmark::Tag<'a>);

#[verifier::external_type_specification]
#[verifier::external_body]
pub struct ExEvent<'a>(pulldown_cmark::Event<'a>);

#[verifier::external_type_specification]
#[verifier::external_body]
pub struct ExCodeBlockKind<'a>(pulldown_cmark::CodeBlockKind<'a>);

/// A colour of the terminal.
#[derive(Clone, Copy, Debug, PartialEq, Eq)]
pub enum TextColor {
    Red,
    Yellow,
    Green,
    Blue,
    Cyan,
    Gray,
    DarkGray,
    Rgb(u8, u8, u8),
}

/// How a piece of text is shown.
#[derive(Clone, Copy, Debug, PartialEq, Eq)]
pub struct TextStyle {
    pub fg: Option<TextColor>,
    pub bg: Option<TextColor>,
    pub bold: bool,
    pub italic: bool,
    pub underlined: bool,
}

/// A piece of text in one style.
#[derive(Debug, PartialEq, Eq)]
pub struct StyledSpan {
    pub content: String,
    pub style: TextStyle,
}

/// A span as specifications see it.
pub struct StyledSpanView {
    pub content: Seq<char>,
    pub style: TextStyle,
}

impl View for StyledSpan {
    type V = StyledSpanView;

    open spec fn view(&self) -> StyledSpanView {
        StyledSpanView { content: self.content@, style: self.style }
    }
}

impl Clone for StyledSpan {
    fn clone(&self) -> (r: Self)
        ensures
            r@ == self@,
    {
        StyledSpan { content: self.content.clone(), style: self.style }
    }
}

/// The views of a sequence of spans.
pub open spec fn span_views(v: Seq<StyledSpan>) -> Seq<StyledSpanView> {
    v.map_values(|s: StyledSpan| s@)
}

/// One line of the terminal.
#[derive(Debug, PartialEq, Eq)]
pub struct StyledLine {
    pub spans: Vec<StyledSpan>,
}

impl View for StyledLine {
    type V = Seq<StyledSpanView>;

    open spec fn view(&self) -> Seq<StyledSpanView> {
        span_views(self.spans@)
    }
}

/// The views of a sequence of lines.
pub open spec fn line_views(v: Seq<StyledLine>) -> Seq<Seq<StyledSpanView>> {
    v.map_values(|l: StyledLine| l@)
}

/// An element of markdown that holds others. A code block carries the text
/// behind its fence, or `None` where it is indented.
#[derive(Debug, PartialEq, Eq)]
pub enum MarkdownTag {
    Paragraph,
    Heading(u32),
    BlockQuote,
    CodeBlock(Option<String>),
    List(Option<u64>),
    Item,
    Emphasis,
    Strong,
    Link,
    Other,
}

/// An element as specifications see it.
pub enum MarkdownTagView {
    Paragraph,
    Heading(u32),
    BlockQuote,
    CodeBlock(Option<Seq<char>>),
    List(Option<u64>),
    Item,
    Emphasis,
    Strong,
    Link,
    Other,
}

impl View for MarkdownTag {
    type V = MarkdownTagView;

    open spec fn view(&self) -> MarkdownTagView {
        match *self {
            MarkdownTag::Paragraph => MarkdownTagView::Paragraph,
            MarkdownTag::Heading(level) => MarkdownTagView::Heading(level),
            MarkdownTag::BlockQuote => MarkdownTagView::BlockQuote,
            MarkdownTag::CodeBlock(Some(info)) => MarkdownTagView::CodeBlock(Some(info@)),
            MarkdownTag::CodeBlock(None) => MarkdownTagView::CodeBlock(None),
            MarkdownTag::List(start) => MarkdownTagView::List(start),
            MarkdownTag::Item => MarkdownTagView::Item,
            MarkdownTag::Emphasis => MarkdownTagView::Emphasis,
            MarkdownTag::Strong => MarkdownTagView::Strong,
            MarkdownTag::Link => MarkdownTagView::Link,
            MarkdownTag::Other => MarkdownTagView::Other,
        }
    }
}

/// One step of a markdown document.
#[derive(Debug, PartialEq, Eq)]
pub enum MarkdownEvent {
    Start(MarkdownTag),
    End(MarkdownTag),
    Text(String),
    Code(String),
    SoftBreak,
    HardBreak,
    Other,
}

/// An event as specifications see it.
pub enum MarkdownEventView {
    Start(MarkdownTagView),
    End(MarkdownTagView),
    Text(Seq<char>),
    Code(Seq<char>),
    SoftBreak,
    HardBreak,
    Other,
}

impl View for MarkdownEvent {
    type V = MarkdownEventView;

    open spec fn view(&self) -> MarkdownEventView {
        match *self {
            MarkdownEvent::Start(tag) => MarkdownEventView::Start(tag@),
            MarkdownEvent::End(tag) => MarkdownEventView::End(tag@),
            MarkdownEvent::Text(text) => MarkdownEventView::Text(text@),
            MarkdownEvent::Code(text) => MarkdownEventView::Code(text@),
            MarkdownEvent::SoftBreak => MarkdownEventView::SoftBreak,
            MarkdownEvent::HardBreak => MarkdownEventView::HardBreak,
            MarkdownEvent::Other => MarkdownEventView::Other,
        }
    }
}

/// The views of a sequence of events.
pub open spec fn event_views(v: Seq<MarkdownEvent>) -> Seq<MarkdownEventView> {
    v.map_values(|e: MarkdownEvent| e@)
}

/// A piece of a line of code with the colour and weight that the
/// highlighter gave it.
#[derive(Debug, PartialEq, Eq)]
pub struct Piece {
    pub red: u8,
    pub green: u8,
    pub blue: u8,
    pub bold: bool,
    pub text: String,
}

/// A piece as specifications see it.
pub struct PieceView {
    pub red: u8,
    pub green: u8,
    pub blue: u8,
    pub bold: bool,
    pub text: Seq<char>,
}

impl View for Piece {
    type V = PieceView;

    open spec fn view(&self) -> PieceView {
        PieceView {
            red: self.red,
            green: self.green,
            blue: self.blue,
            bold: self.bold,
            text: self.text@,
        }
    }
}

/// The views of the pieces of one line.
pub open spec fn piece_views(v: Seq<Piece>) -> Seq<PieceView> {
    v.map_values(|p: Piece| p@)
}

/// The views of the pieces of some lines.
pub open spec fn piece_rows(v: Seq<Vec<Piece>>) -> Seq<Seq<PieceView>> {
    v.map_values(|r: Vec<Piece>| piece_views(r@))
}

/// The events that `pulldown-cmark` reads out of a markdown text, without
/// any of its extensions.
pub uninterp spec fn parsed_events(markdown: Seq<char>) -> Seq<MarkdownEventView>;

/// The name of the syntax that `syntect` finds for a token among its default
/// syntaxes: by file extension, then by name.
pub uninterp spec fn syntax_for_token(token: Seq<char>) -> Option<Seq<char>>;

/// The name of the syntax that `syntect` finds for a file extension among
/// its default syntaxes.
pub uninterp spec fn syntax_for_extension(extension: Seq<char>) -> Option<Seq<char>>;

/// The pieces into which `syntect` cuts some lines of code, one line after
/// the other, under the default syntax named `syntax` and the default theme
/// named `theme`. `None` where there is no such syntax or no such theme.
pub uninterp spec fn highlighted(lines: Seq<Seq<char>>, syntax: Seq<char>, theme: Seq<char>)
    -> Option<Seq<Seq<PieceView>>>;

/// Copies a `pulldown_cmark::CodeBlockKind`: the text behind the fence, or
/// `None` for a block that is indented.
#[verifier::external_body]
pub(crate) fn fence_from(kind: pulldown_cmark::CodeBlockKind<'_>) -> Option<String> {
    match kind {
        pulldown_cmark::CodeBlockKind::Fenced(info) => Some(info.to_string()),
        pulldown_cmark::CodeBlockKind::Indented => None,
    }
}

/// Copies a `pulldown_cmark::Tag`, variant by variant. The variants that
/// nothing is drawn for become `Other`.
#[verifier::external_body]
pub(crate) fn tag_from(tag: pulldown_cmark::Tag<'_>) -> MarkdownTag {
    match tag {
        pulldown_cmark::Tag::Paragraph => MarkdownTag::Paragraph,
        pulldown_cmark::Tag::Heading(level) => MarkdownTag::Heading(level),
        pulldown_cmark::Tag::BlockQuote => MarkdownTag::BlockQuote,
        pulldown_cmark::Tag::CodeBlock(kind) => MarkdownTag::CodeBlock(fence_from(kind)),
        pulldown_cmark::Tag::List(start) => MarkdownTag::List(start),
        pulldown_cmark::Tag::Item => MarkdownTag::Item,
        pulldown_cmark::Tag::Emphasis => MarkdownTag::Emphasis,
        pulldown_cmark::Tag::Strong => MarkdownTag::Strong,
        pulldown_cmark::Tag::Link(..) => MarkdownTag::Link,
        _ => MarkdownTag::Other,
    }
}

/// Copies a `pulldown_cmark::Event`, variant by variant. The variants that
/// nothing is drawn for become `Other`.
#[verifier::external_body]
pub(crate) fn event_from(event: pulldown_cmark::Event<'_>) -> MarkdownEvent {
    match event {
        pulldown_cmark::Event::Start(tag) => MarkdownEvent::Start(tag_from(tag)),
        pulldown_cmark::Event::End(tag) => MarkdownEvent::End(tag_from(tag)),
        pulldown_cmark::Event::Text(text) => MarkdownEvent::Text(text.to_string()),
        pulldown_cmark::Event::Code(text) => MarkdownEvent::Code(text.to_string()),
        pulldown_cmark::Event::SoftBreak => MarkdownEvent::SoftBreak,
        pulldown_cmark::Event::HardBreak => MarkdownEvent::HardBreak,
        _ => MarkdownEvent::Other,
    }
}

/// Calls `pulldown_cmark::Parser::new` and walks the parser to its end.
/// Believed: the events depend on `markdown` alone.
#[verifier::external_body]
pub(crate) fn markdown_events(markdown: &str) -> (r: Vec<MarkdownEvent>)
    ensures
        event_views(r@) == parsed_events(markdown@),
{
    pulldown_cmark::Parser::new(markdown).map(event_from).collect()
}

/// Calls `SyntaxSet::load_defaults_newlines` and
/// `SyntaxSet::find_syntax_by_token`. Believed: the name of the syntax found
/// depends on `token` alone.
#[verifier::external_body]
pub(crate) fn find_syntax_by_token(token: &str) -> (r: Option<String>)
    ensures
        text_view(r) == syntax_for_token(token@),
{
    let set = syntect::parsing::SyntaxSet::load_defaults_newlines();
    set.find_syntax_by_token(token).map(|s| s.name.clone())
}

/// Calls `SyntaxSet::load_defaults_newlines` and
/// `SyntaxSet::find_syntax_by_extension`. Believed: the name of the syntax
/// found depends on `extension` alone.
#[verifier::external_body]
pub(crate) fn find_syntax_by_extension(extension: &str) -> (r: Option<String>)
    ensures
        text_view(r) == syntax_for_extension(extension@),
{
    let set = syntect::parsing::SyntaxSet::load_defaults_newlines();
    set.find_syntax_by_extension(extension).map(|s| s.name.clone())
}

/// Calls `SyntaxSet::load_defaults_newlines`, `ThemeSet::load_defaults`,
/// `SyntaxSet::find_syntax_by_name`, `HighlightLines::new` and, for each line
/// in turn, `HighlightLines::highlight_line`; a line that it fails on has no
/// pieces. Believed: the pieces depend on the three arguments alone.
#[verifier::external_body]
pub(crate) fn highlight(code: &Vec<String>, syntax: &str, theme: &str) -> (r: Option<
    Vec<Vec<Piece>>,
>)
    ensures
        match r {
            Some(v) => highlighted(texts(code@), syntax@, theme@) == Some(piece_rows(v@)),
            None => highlighted(texts(code@), syntax@, theme@) is None,
        },
{
    let set = syntect::parsing::SyntaxSet::load_defaults_newlines();
    let themes = syntect::highlighting::ThemeSet::load_defaults();
    let (syntax, theme) = (set.find_syntax_by_name(syntax)?, themes.themes.get(theme)?);
    let mut h = syntect::easy::HighlightLines::new(syntax, theme);
    Some(code.iter().map(|line| {
        h.highlight_line(line, &set).unwrap_or_default().into_iter().map(|(s, t)| Piece {
            red: s.foreground.r,
            green: s.foreground.g,
            blue: s.foreground.b,
            bold: s.font_style.contains(syntect::highlighting::FontStyle::BOLD),
            text: t.to_string(),
        }).collect()
    }).collect())
}

/// The name of the syntax under which nothing is coloured.
pub const PLAIN_TEXT: &'static str = "Plain Text";

/// The name of the theme that code is coloured with.
pub const THEME: &'static str = "base16-ocean.dark";

/// What begins a quotation.
pub const QUOTE_MARK: &'static str = "\u{2502} ";

/// What begins an item of a list without numbers.
pub const BULLET: &'static str = "\u{2022} ";

/// What follows the number of an item.
pub const NUMBER_END: &'static str = ". ";

/// The style of text that nothing was said about.
pub open spec fn plain_style() -> TextStyle {
    TextStyle { fg: None, bg: None, bold: false, italic: false, underlined: false }
}

/// Bold text in the colour `color`.
pub open spec fn bold_in(color: TextColor) -> TextStyle {
    TextStyle { fg: Some(color), bg: None, bold: true, italic: false, underlined: false }
}

/// The style of a heading of the level `level`.
pub open spec fn heading_style(level: u32) -> TextStyle {
    if level == 1 {
        bold_in(TextColor::Red)
    } else if level == 2 {
        bold_in(TextColor::Yellow)
    } else if level == 3 {
        bold_in(TextColor::Green)
    } else {
        bold_in(TextColor::Blue)
    }
}

/// The style of a quotation.
pub open spec fn quote_style() -> TextStyle {
    TextStyle {
        fg: Some(TextColor::Cyan),
        bg: None,
        bold: false,
        italic: true,
        underlined: false,
    }
}

/// The style of code within a line.
pub open spec fn code_style() -> TextStyle {
    TextStyle {
        fg: Some(TextColor::Gray),
        bg: Some(TextColor::DarkGray),
        bold: false,
        italic: false,
        underlined: false,
    }
}

/// The style of a piece of highlighted code.
pub open spec fn piece_style(p: PieceView) -> TextStyle {
    TextStyle {
        fg: Some(TextColor::Rgb(p.red, p.green, p.blue)),
        bg: None,
        bold: p.bold,
        italic: false,
        underlined: false,
    }
}

/// A piece of highlighted code as a span.
pub open spec fn piece_span(p: PieceView) -> StyledSpanView {
    StyledSpanView { content: p.text, style: piece_style(p) }
}

/// The pieces of a line of code as a line.
pub open spec fn piece_line(pieces: Seq<PieceView>) -> Seq<StyledSpanView> {
    pieces.map_values(|p: PieceView| piece_span(p))
}

/// A line of code that was not coloured.
pub open spec fn plain_line(line: Seq<char>) -> Seq<StyledSpanView> {
    seq![StyledSpanView { content: line, style: plain_style() }]
}

/// The lines of some lines of highlighted code.
pub open spec fn piece_lines(pieces: Seq<Seq<PieceView>>) -> Seq<Seq<StyledSpanView>> {
    pieces.map_values(|l: Seq<PieceView>| piece_line(l))
}

/// The lines of some lines of code that were not coloured.
pub open spec fn plain_lines(lines: Seq<Seq<char>>) -> Seq<Seq<StyledSpanView>> {
    lines.map_values(|l: Seq<char>| plain_line(l))
}

/// The token of a fence: what stands before its first colon, trimmed.
pub open spec fn fence_token(info: Seq<char>) -> Seq<char> {
    trimmed(split_on(info, Separator::Character(':'))[0])
}

/// The language of a code block: the one that the token of its fence names,
/// and plain text where it names none or the block has no fence.
pub open spec fn fence_language(info: Option<Seq<char>>) -> Seq<char> {
    match info {
        Some(i) => match language_of(lowercased(fence_token(i))) {
            Some(language) => language,
            None => PLAIN_TEXT@,
        },
        None => PLAIN_TEXT@,
    }
}

/// The name of the syntax for a language: the one found for it as a token,
/// else the one found for its lower-case form as a file extension, else
/// plain text.
pub open spec fn syntax_name(language: Seq<char>) -> Seq<char> {
    if language == PLAIN_TEXT@ {
        PLAIN_TEXT@
    } else {
        match syntax_for_token(language) {
            Some(name) => name,
            None => match syntax_for_extension(lowercased(language)) {
                Some(name) => name,
                None => PLAIN_TEXT@,
            },
        }
    }
}

/// The lines of a piece of code in `language`: coloured where the
/// highlighter knows the syntax and the theme, else as they stand.
pub open spec fn code_lines_of(code: Seq<char>, language: Seq<char>) -> Seq<Seq<StyledSpanView>> {
    match highlighted(lines_of(code), syntax_name(language), THEME@) {
        Some(pieces) => piece_lines(pieces),
        None => plain_lines(lines_of(code)),
    }
}

/// The white space before an item at the depth `depth`: two spaces for each
/// list around its own.
pub open spec fn indent(depth: nat) -> Seq<char>
    decreases depth,
{
    if depth <= 1 {
        Seq::empty()
    } else {
        indent((depth - 1) as nat) + seq![' ', ' ']
    }
}

/// What has been drawn of a document, and what the next event meets.
pub struct RenderState {
    /// The lines that are complete.
    pub lines: Seq<Seq<StyledSpanView>>,
    /// The spans of the line that is being filled.
    pub spans: Seq<StyledSpanView>,
    /// The style of the text to come.
    pub style: TextStyle,
    /// Whether the text to come is code.
    pub in_code: bool,
    /// The language of the code to come.
    pub language: Seq<char>,
    /// How many lists are open.
    pub depth: usize,
    /// The numbers of the next items of the open lists that count.
    pub numbers: Seq<u64>,
}

/// The state before the first event.
pub open spec fn initial_state() -> RenderState {
    RenderState {
        lines: Seq::empty(),
        spans: Seq::empty(),
        style: plain_style(),
        in_code: false,
        language: Seq::empty(),
        depth: 0,
        numbers: Seq::empty(),
    }
}

/// The state with the line that is being filled ended, whatever it holds.
pub open spec fn broken(s: RenderState) -> RenderState {
    RenderState { lines: s.lines.push(s.spans), spans: Seq::empty(), ..s }
}

/// The state with the line that is being filled ended, unless it is empty.
pub open spec fn flushed(s: RenderState) -> RenderState {
    if s.spans.len() > 0 {
        broken(s)
    } else {
        s
    }
}

/// The state with one more span on the line that is being filled.
pub open spec fn with_span(s: RenderState, content: Seq<char>, style: TextStyle) -> RenderState {
    RenderState { spans: s.spans.push(StyledSpanView { content, style }), ..s }
}

/// The state with an empty line after the complete ones.
pub open spec fn with_empty_line(s: RenderState) -> RenderState {
    RenderState { lines: s.lines.push(Seq::empty()), ..s }
}

/// The number after `n`, which stays where the numbers end.
pub open spec fn next_number(n: u64) -> u64 {
    if n < u64::MAX {
        (n + 1) as u64
    } else {
        n
    }
}

/// The state after an item began: inside a list, the line gets the indent
/// and then the number of the item, where a list that counts is open, or
/// else a bullet.
pub open spec fn item_started(s: RenderState) -> RenderState {
    if s.depth > 0 {
        let indented = with_span(s, indent(s.depth as nat), plain_style());
        if s.numbers.len() > 0 {
            RenderState {
                numbers: s.numbers.update(s.numbers.len() - 1, next_number(s.numbers.last())),
                ..with_span(indented, decimal(s.numbers.last() as nat) + NUMBER_END@, s.style)
            }
        } else {
            with_span(indented, BULLET@, s.style)
        }
    } else {
        s
    }
}

/// The state after the element `tag` began.
pub open spec fn started(s: RenderState, tag: MarkdownTagView) -> RenderState {
    match tag {
        MarkdownTagView::Heading(level) => RenderState {
            style: heading_style(level),
            ..flushed(s)
        },
        MarkdownTagView::CodeBlock(info) => RenderState {
            in_code: true,
            language: fence_language(info),
            ..with_empty_line(flushed(s))
        },
        MarkdownTagView::Emphasis => RenderState {
            style: TextStyle { italic: true, ..s.style },
            ..s
        },
        MarkdownTagView::Strong => RenderState { style: TextStyle { bold: true, ..s.style }, ..s },
        MarkdownTagView::BlockQuote => with_span(
            RenderState { style: quote_style(), ..flushed(s) },
            QUOTE_MARK@,
            quote_style(),
        ),
        MarkdownTagView::List(start) => RenderState {
            depth: if s.depth < usize::MAX {
                (s.depth + 1) as usize
            } else {
                s.depth
            },
            numbers: match start {
                Some(n) => s.numbers.push(n),
                None => s.numbers,
            },
            ..flushed(s)
        },
        MarkdownTagView::Item => item_started(s),
        MarkdownTagView::Link => RenderState {
            style: TextStyle { fg: Some(TextColor::Blue), underlined: true, ..s.style },
            ..s
        },
        _ => s,
    }
}

/// The state after the element `tag` ended.
pub open spec fn ended(s: RenderState, tag: MarkdownTagView) -> RenderState {
    match tag {
        MarkdownTagView::CodeBlock(_) => RenderState {
            in_code: false,
            ..with_empty_line(flushed(s))
        },
        MarkdownTagView::Heading(_) => with_empty_line(flushed(s)),
        MarkdownTagView::BlockQuote => with_empty_line(flushed(s)),
        MarkdownTagView::Paragraph => with_empty_line(flushed(s)),
        MarkdownTagView::Item => flushed(s),
        MarkdownTagView::List(_) => RenderState {
            depth: if s.depth > 0 {
                (s.depth - 1) as usize
            } else {
                s.depth
            },
            numbers: if s.numbers.len() > 0 {
                s.numbers.drop_last()
            } else {
                s.numbers
            },
            ..flushed(s)
        },
        _ => s,
    }
}

/// The state with one more piece of running text: a span, unless the piece
/// is empty.
pub open spec fn with_piece(s: RenderState, piece: Seq<char>) -> RenderState {
    if piece.len() > 0 {
        with_span(s, piece, s.style)
    } else {
        s
    }
}

/// The state after the pieces of a running text, which stood on one line
/// each: the line is ended between two pieces.
pub open spec fn with_pieces(s: RenderState, pieces: Seq<Seq<char>>) -> RenderState
    decreases pieces.len(),
{
    if pieces.len() == 0 {
        s
    } else if pieces.len() == 1 {
        with_piece(s, pieces[0])
    } else {
        with_piece(broken(with_pieces(s, pieces.drop_last())), pieces.last())
    }
}

/// The state after a text: code goes to lines of its own, line for line;
/// running text goes on the line that is being filled.
pub open spec fn with_text(s: RenderState, text: Seq<char>) -> RenderState {
    if s.in_code {
        RenderState { lines: s.lines + code_lines_of(text, s.language), ..s }
    } else {
        with_pieces(s, split_on(text, Separator::Character('\n')))
    }
}

/// The state after one event.
pub open spec fn step(s: RenderState, event: MarkdownEventView) -> RenderState {
    match event {
        MarkdownEventView::Start(tag) => started(s, tag),
        MarkdownEventView::End(tag) => ended(s, tag),
        MarkdownEventView::Text(text) => with_text(s, text),
        MarkdownEventView::Code(text) => with_span(s, text, code_style()),
        MarkdownEventView::SoftBreak => with_span(s, seq![' '], plain_style()),
        MarkdownEventView::HardBreak => flushed(s),
        MarkdownEventView::Other => s,
    }
}

/// The state after some events, one after another.
pub open spec fn run(s: RenderState, events: Seq<MarkdownEventView>) -> RenderState
    decreases events.len(),
{
    if events.len() == 0 {
        s
    } else {
        step(run(s, events.drop_last()), events.last())
    }
}

/// The lines of a document whose events have all been met.
pub open spec fn finished(s: RenderState) -> Seq<Seq<StyledSpanView>> {
    flushed(s).lines
}

/// The lines that some events draw.
pub open spec fn rendered(events: Seq<MarkdownEventView>) -> Seq<Seq<StyledSpanView>> {
    finished(run(initial_state(), events))
}

/// The style of text that nothing was said about.
pub fn plain() -> (r: TextStyle)
    ensures
        r == plain_style(),
{
    TextStyle { fg: None, bg: None, bold: false, italic: false, underlined: false }
}

/// The style of a heading of the level `level`.
pub fn style_of_heading(level: u32) -> (r: TextStyle)
    ensures
        r == heading_style(level),
{
    let color = if level == 1 {
        TextColor::Red
    } else if level == 2 {
        TextColor::Yellow
    } else if level == 3 {
        TextColor::Green
    } else {
        TextColor::Blue
    };
    TextStyle { fg: Some(color), bg: None, bold: true, italic: false, underlined: false }
}

/// The language of a code block with the fence text `info`.
pub fn language_of_fence(info: &Option<String>) -> (r: String)
    ensures
        r@ == fence_language(text_view(*info)),
{
    match info {
        Some(i) => {
            let parts = split(&chars_of(i.as_str()), Separator::Character(':'));
            proof {
                lemma_split_on_len(i@, Separator::Character(':'));
                assert(rows(parts@)[0] == parts@[0]@);
            }
            let token = text_of(&trim(&parts[0]));
            match detect_language(token.as_str()) {
                Some(language) => language.to_owned(),
                None => PLAIN_TEXT.to_owned(),
            }
        },
        None => PLAIN_TEXT.to_owned(),
    }
}

/// The name of the syntax for the language `language`.
pub fn syntax_for(language: &str) -> (r: String)
    ensures
        r@ == syntax_name(language@),
{
    if equals(&chars_of(language), &chars_of(PLAIN_TEXT)) {
        return PLAIN_TEXT.to_owned();
    }
    match find_syntax_by_token(language) {
        Some(name) => name,
        None => match find_syntax_by_extension(to_lowercase(language).as_str()) {
            Some(name) => name,
            None => PLAIN_TEXT.to_owned(),
        },
    }
}

/// The pieces of one line of code as a line.
pub fn line_of_pieces(pieces: &Vec<Piece>) -> (r: StyledLine)
    ensures
        r@ == piece_line(piece_views(pieces@)),
{
    let mut spans: Vec<StyledSpan> = Vec::new();
    let mut i: usize = 0;
    while i < pieces.len()
        invariant
            i <= pieces.len(),
            span_views(spans@) == piece_line(piece_views(pieces@)).take(i as int),
        decreases pieces.len() - i,
    {
        let ghost before = span_views(spans@);
        let p = &pieces[i];
        spans.push(
            StyledSpan {
                content: p.text.clone(),
                style: TextStyle {
                    fg: Some(TextColor::Rgb(p.red, p.green, p.blue)),
                    bg: None,
                    bold: p.bold,
                    italic: false,
                    underlined: false,
                },
            },
        );
        proof {
            assert(span_views(spans@) == before.push(piece_span(pieces@[i as int]@)));
        }
        i += 1;
    }
    proof {
        let all = piece_line(piece_views(pieces@));
        assert(all.take(i as int) == all);
    }
    StyledLine { spans }
}

/// The lines of the piece of code `code` in `language`.
pub fn code_lines(code: &str, language: &str) -> (r: Vec<StyledLine>)
    ensures
        line_views(r@) == code_lines_of(code@, language@),
{
    let raw = lines(&chars_of(code));
    let mut as_text: Vec<String> = Vec::new();
    let mut i: usize = 0;
    while i < raw.len()
        invariant
            i <= raw.len(),
            texts(as_text@) == rows(raw@).take(i as int),
        decreases raw.len() - i,
    {
        let ghost before = texts(as_text@);
        as_text.push(text_of(&raw[i]));
        proof {
            assert(texts(as_text@) == before.push(raw@[i as int]@));
        }
        i += 1;
    }
    proof {
        assert(rows(raw@).take(i as int) == rows(raw@));
    }
    let syntax = syntax_for(language);
    let mut out: Vec<StyledLine> = Vec::new();
    match highlight(&as_text, syntax.as_str(), THEME) {
        Some(pieces) => {
            let ghost all = piece_lines(piece_rows(pieces@));
            let mut k: usize = 0;
            while k < pieces.len()
                invariant
                    k <= pieces.len(),
                    all == piece_lines(piece_rows(pieces@)),
                    line_views(out@) == all.take(k as int),
                decreases pieces.len() - k,
            {
                let ghost before = line_views(out@);
                out.push(line_of_pieces(&pieces[k]));
                proof {
                    assert(line_views(out@) == before.push(
                        piece_line(piece_views(pieces@[k as int]@)),
                    ));
                }
                k += 1;
            }
            proof {
                assert(all.take(k as int) == all);
            }
        },
        None => {
            let ghost all = plain_lines(texts(as_text@));
            let mut k: usize = 0;
            while k < as_text.len()
                invariant
                    k <= as_text.len(),
                    all == plain_lines(texts(as_text@)),
                    line_views(out@) == all.take(k as int),
                decreases as_text.len() - k,
            {
                let ghost before = line_views(out@);
                let mut spans: Vec<StyledSpan> = Vec::new();
                spans.push(StyledSpan { content: as_text[k].clone(), style: plain() });
                proof {
                    assert(span_views(spans@) == plain_line(as_text@[k as int]@));
                }
                out.push(StyledLine { spans });
                proof {
                    assert(line_views(out@) == before.push(plain_line(as_text@[k as int]@)));
                }
                k += 1;
            }
            proof {
                assert(all.take(k as int) == all);
            }
        },
    }
    out
}

/// Draws a markdown document event by event.
pub struct Renderer {
    lines: Vec<StyledLine>,
    spans: Vec<StyledSpan>,
    style: TextStyle,
    in_code: bool,
    language: String,
    depth: usize,
    numbers: Vec<u64>,
}

impl View for Renderer {
    type V = RenderState;

    closed spec fn view(&self) -> RenderState {
        RenderState {
            lines: line_views(self.lines@),
            spans: span_views(self.spans@),
            style: self.style,
            in_code: self.in_code,
            language: self.language@,
            depth: self.depth,
            numbers: self.numbers@,
        }
    }
}

impl Renderer {
    /// The renderer before the first event.
    pub fn new() -> (r: Self)
        ensures
            r@ == initial_state(),
    {
        let r = Renderer {
            lines: Vec::new(),
            spans: Vec::new(),
            style: plain(),
            in_code: false,
            language: String::new(),
            depth: 0,
            numbers: Vec::new(),
        };
        proof {
            assert(line_views(r.lines@) == Seq::<Seq<StyledSpanView>>::empty());
            assert(span_views(r.spans@) == Seq::<StyledSpanView>::empty());
        }
        r
    }

    /// Ends the line that is being filled, whatever it holds.
    fn end_line(&mut self)
        ensures
            final(self)@ == broken(old(self)@),
    {
        let ghost lines_before = line_views(self.lines@);
        let ghost spans_before = span_views(self.spans@);
        let mut taken: Vec<StyledSpan> = Vec::new();
        core::mem::swap(&mut self.spans, &mut taken);
        self.lines.push(StyledLine { spans: taken });
        proof {
            assert(line_views(self.lines@) == lines_before.push(spans_before));
            assert(span_views(self.spans@) == Seq::<StyledSpanView>::empty());
        }
    }

    /// Ends the line that is being filled, unless it is empty.
    fn flush(&mut self)
        ensures
            final(self)@ == flushed(old(self)@),
    {
        if self.spans.len() > 0 {
            self.end_line();
        }
    }

    /// Puts one more span on the line that is being filled.
    fn add_span(&mut self, content: String, style: TextStyle)
        ensures
            final(self)@ == with_span(old(self)@, content@, style),
    {
        let ghost before = span_views(self.spans@);
        let ghost view = (StyledSpanView { content: content@, style });
        self.spans.push(StyledSpan { content, style });
        proof {
            assert(span_views(self.spans@) == before.push(view));
        }
    }

    /// Puts an empty line after the complete ones.
    fn add_empty_line(&mut self)
        ensures
            final(self)@ == with_empty_line(old(self)@),
    {
        let ghost before = line_views(self.lines@);
        self.lines.push(StyledLine { spans: Vec::new() });
        proof {
            assert(span_views(Seq::<StyledSpan>::empty()) == Seq::<StyledSpanView>::empty());
            assert(line_views(self.lines@) == before.push(Seq::<StyledSpanView>::empty()));
        }
    }

    /// Begins an item.
    fn start_item(&mut self)
        ensures
            final(self)@ == item_started(old(self)@),
    {
        if self.depth == 0 {
            return ;
        }
        let mut blank: Vec<char> = Vec::new();
        let mut k: usize = 1;
        while k < self.depth
            invariant
                1 <= k <= self.depth,
                blank@ == indent(k as nat),
            decreases self.depth - k,
        {
            blank.push(' ');
            blank.push(' ');
            proof {
                assert(blank@ == indent(k as nat) + seq![' ', ' ']);
            }
            k += 1;
        }
        let style = self.style;
        self.add_span(text_of(&blank), plain());
        let count = self.numbers.len();
        if count > 0 {
            let n = self.numbers[count - 1];
            let mut label: Vec<char> = Vec::new();
            push_decimal(&mut label, n);
            append(&mut label, &chars_of(NUMBER_END));
            self.add_span(text_of(&label), style);
            let next = if n < u64::MAX {
                n + 1
            } else {
                n
            };
            self.numbers.set(count - 1, next);
        } else {
            self.add_span(BULLET.to_owned(), style);
        }
    }

    /// Begins the element `tag`.
    fn start(&mut self, tag: &MarkdownTag)
        ensures
            final(self)@ == started(old(self)@, tag@),
    {
        match tag {
            MarkdownTag::Heading(level) => {
                self.flush();
                self.style = style_of_heading(*level);
            },
            MarkdownTag::CodeBlock(info) => {
                self.flush();
                self.add_empty_line();
                self.in_code = true;
                self.language = language_of_fence(info);
            },
            MarkdownTag::Emphasis => {
                self.style.italic = true;
            },
            MarkdownTag::Strong => {
                self.style.bold = true;
            },
            MarkdownTag::BlockQuote => {
                self.flush();
                let style = TextStyle {
                    fg: Some(TextColor::Cyan),
                    bg: None,
                    bold: false,
                    italic: true,
                    underlined: false,
                };
                self.style = style;
                self.add_span(QUOTE_MARK.to_owned(), style);
            },
            MarkdownTag::List(first) => {
                self.flush();
                if self.depth < usize::MAX {
                    self.depth = self.depth + 1;
                }
                match first {
                    Some(n) => {
                        self.numbers.push(*n);
                    },
                    None => {},
                }
            },
            MarkdownTag::Item => {
                self.start_item();
            },
            MarkdownTag::Link => {
                self.style.fg = Some(TextColor::Blue);
                self.style.underlined = true;
            },
            _ => {},
        }
    }

    /// Ends the element `tag`.
    fn end(&mut self, tag: &MarkdownTag)
        ensures
            final(self)@ == ended(old(self)@, tag@),
    {
        match tag {
            MarkdownTag::CodeBlock(_) => {
                self.flush();
                self.add_empty_line();
                self.in_code = false;
            },
            MarkdownTag::Heading(_) => {
                self.flush();
                self.add_empty_line();
            },
            MarkdownTag::BlockQuote => {
                self.flush();
                self.add_empty_line();
            },
            MarkdownTag::Paragraph => {
                self.flush();
                self.add_empty_line();
            },
            MarkdownTag::Item => {
                self.flush();
            },
            MarkdownTag::List(_) => {
                self.flush();
                if self.depth > 0 {
                    self.depth = self.depth - 1;
                }
                if self.numbers.len() > 0 {
                    self.numbers.pop();
                }
            },
            _ => {},
        }
    }

    /// Takes in a text.
    fn add_text(&mut self, text: &str)
        ensures
            final(self)@ == with_text(old(self)@, text@),
    {
        if self.in_code {
            let ghost before = line_views(self.lines@);
            let mut more = code_lines(text, self.language.as_str());
            let ghost added = line_views(more@);
            self.lines.append(&mut more);
            proof {
                assert(line_views(self.lines@) == before + added);
            }
        } else {
            let pieces = split(&chars_of(text), Separator::Character('\n'));
            proof {
                lemma_split_on_len(text@, Separator::Character('\n'));
            }
            let mut i: usize = 0;
            while i < pieces.len()
                invariant
                    i <= pieces.len(),
                    self@ == with_pieces(old(self)@, rows(pieces@).take(i as int)),
                decreases pieces.len() - i,
            {
                proof {
                    let next = rows(pieces@).take(i + 1);
                    assert(next.drop_last() == rows(pieces@).take(i as int));
                    assert(next.last() == pieces@[i as int]@);
                    assert(next[0] == pieces@[0]@);
                }
                if i > 0 {
                    self.end_line();
                }
                if pieces[i].len() > 0 {
                    let style = self.style;
                    self.add_span(text_of(&pieces[i]), style);
                }
                i += 1;
            }
            proof {
                assert(rows(pieces@).take(i as int) == rows(pieces@));
            }
        }
    }

    /// Takes in the next event of the document.
    pub fn feed(&mut self, event: &MarkdownEvent)
        ensures
            final(self)@ == step(old(self)@, event@),
    {
        match event {
            MarkdownEvent::Start(tag) => self.start(tag),
            MarkdownEvent::End(tag) => self.end(tag),
            MarkdownEvent::Text(text) => self.add_text(text.as_str()),
            MarkdownEvent::Code(text) => {
                let style = TextStyle {
                    fg: Some(TextColor::Gray),
                    bg: Some(TextColor::DarkGray),
                    bold: false,
                    italic: false,
                    underlined: false,
                };
                self.add_span(text.clone(), style);
            },
            MarkdownEvent::SoftBreak => {
                let mut space = String::new();
                space.push(' ');
                self.add_span(space, plain());
            },
            MarkdownEvent::HardBreak => self.flush(),
            MarkdownEvent::Other => {},
        }
    }

    /// The lines of the document, all of whose events were taken in.
    pub fn finish(self) -> (r: Vec<StyledLine>)
        ensures
            line_views(r@) == finished(self@),
    {
        let mut done = self;
        done.flush();
        done.lines
    }
}

/// The lines that the events `events` draw.
pub fn render(events: &Vec<MarkdownEvent>) -> (r: Vec<StyledLine>)
    ensures
        line_views(r@) == rendered(event_views(events@)),
{
    let mut renderer = Renderer::new();
    let mut i: usize = 0;
    while i < events.len()
        invariant
            i <= events.len(),
            renderer@ == run(initial_state(), event_views(events@).take(i as int)),
        decreases events.len() - i,
    {
        proof {
            let next = event_views(events@).take(i + 1);
            assert(next.drop_last() == event_views(events@).take(i as int));
            assert(next.last() == events@[i as int]@);
        }
        renderer.feed(&events[i]);
        i += 1;
    }
    proof {
        assert(event_views(events@).take(i as int) == event_views(events@));
    }
    renderer.finish()
}

/// The lines that the markdown text `markdown` is shown as.
pub fn markdown_to_lines(markdown: &str) -> (r: Vec<StyledLine>)
    ensures
        line_views(r@) == rendered(parsed_events(markdown@)),
{
    let events = markdown_events(markdown);
    render(&events)
}

} // verus!
