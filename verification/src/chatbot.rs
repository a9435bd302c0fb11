//! The conversation: what a message of the user asks for, what the search
//! adds to the conversation, and how streamed replies and saved histories
//! read.

use vstd::prelude::*;
use crate::json::{parse_json, parsed_json};
use crate::llama::{delta_content, message_views, stream_delta, Message, MessageView};
use crate::markdown::{
    line_views, markdown_to_lines, parsed_events, rendered, StyledLine, StyledSpanView,
};
use crate::research::{result_views, SourceResult, SourceResultView};
use crate::summarizer::{fallback, fallback_summary};
use crate::text::{
    append, chars_of, contains, contains_text, decimal, equals, has_prefix, join, joined, lines,
    lines_of, push_decimal, push_text, replace_char, replaced, rows, slice, split_words,
    starts_with, text_of, text_view, words,
};

verus! {

/// What in a message asks for a web search.
pub const WEB_FLAG: &'static str = "@web";

/// For how many seconds a research call is waited for.
pub const RESEARCH_DEADLINE_SECS: u64 = 30;

/// The role of the messages that the application adds.
pub const SYSTEM_ROLE: &'static str = "system";

/// The role of the messages of the user.
pub const USER_ROLE: &'static str = "user";

/// The role of the replies.
pub const ASSISTANT_ROLE: &'static str = "assistant";

/// What precedes the search results in the conversation.
pub const CONTEXT_HEAD: &'static str = "Here are relevant search results for your query:\n\n";

/// What is added to the conversation where the search found nothing.
pub const NO_RESULTS: &'static str = "No search results were found.";

/// What begins the line of an event in a streamed reply.
pub const DATA_PREFIX: &'static str = "data: ";

/// The event that ends a streamed reply.
pub const DONE: &'static str = "[DONE]";

/// One message of the conversation as the application keeps it: as it was
/// written, and as it is shown.
#[derive(Debug, PartialEq, Eq)]
pub struct ChatMessage {
    pub role: String,
    pub raw_content: String,
    pub rendered_content: Vec<StyledLine>,
}

/// A chat message as specifications see it.
pub struct ChatMessageView {
    pub role: Seq<char>,
    pub raw_content: Seq<char>,
    pub rendered_content: Seq<Seq<StyledSpanView>>,
}

impl View for ChatMessage {
    type V = ChatMessageView;

    open spec fn view(&self) -> ChatMessageView {
        ChatMessageView {
            role: self.role@,
            raw_content: self.raw_content@,
            rendered_content: line_views(self.rendered_content@),
        }
    }
}

/// A message that is not shown yet.
pub open spec fn new_message(role: Seq<char>, content: Seq<char>) -> ChatMessageView {
    ChatMessageView { role, raw_content: content, rendered_content: Seq::empty() }
}

/// The conversation after its last message was given the text `content`:
/// the message holds the text and the lines that it is shown as. An empty
/// conversation stays empty.
pub open spec fn with_last_updated(messages: Seq<ChatMessageView>, content: Seq<char>) -> Seq<
    ChatMessageView,
> {
    if messages.len() == 0 {
        messages
    } else {
        messages.drop_last().push(
            ChatMessageView {
                role: messages.last().role,
                raw_content: content,
                rendered_content: rendered(parsed_events(content)),
            },
        )
    }
}

impl ChatMessage {
    /// A message that is not shown yet.
    pub fn new(role: &str, content: &str) -> (r: Self)
        ensures
            r@ == new_message(role@, content@),
    {
        let r = ChatMessage {
            role: role.to_owned(),
            raw_content: content.to_owned(),
            rendered_content: Vec::new(),
        };
        proof {
            assert(line_views(r.rendered_content@) == Seq::<Seq<StyledSpanView>>::empty());
        }
        r
    }
}

/// Adds a message to the conversation.
pub fn add_message(messages: &mut Vec<ChatMessage>, role: &str, content: &str)
    ensures
        chat_views(final(messages)@) == chat_views(old(messages)@).push(
            new_message(role@, content@),
        ),
{
    let ghost before = chat_views(messages@);
    messages.push(ChatMessage::new(role, content));
    proof {
        assert(chat_views(messages@) == before.push(new_message(role@, content@)));
    }
}

/// Gives the last message of the conversation the text `content`, and shows
/// it as that text.
pub fn update_last_message(messages: &mut Vec<ChatMessage>, content: &str)
    ensures
        chat_views(final(messages)@) == with_last_updated(chat_views(old(messages)@), content@),
{
    let ghost before = chat_views(messages@);
    match messages.pop() {
        Some(last) => {
            let ghost rest = chat_views(messages@);
            proof {
                assert(rest == before.drop_last());
                assert(before.last() == last@);
            }
            let updated = ChatMessage {
                role: last.role,
                raw_content: content.to_owned(),
                rendered_content: markdown_to_lines(content),
            };
            let ghost view = updated@;
            messages.push(updated);
            proof {
                assert(chat_views(messages@) == rest.push(view));
            }
        },
        None => {
            proof {
                assert(chat_views(messages@) == before);
            }
        },
    }
}

/// The views of a sequence of chat messages.
pub open spec fn chat_views(v: Seq<ChatMessage>) -> Seq<ChatMessageView> {
    v.map_values(|m: ChatMessage| m@)
}

/// A chat message as the backend takes it.
pub open spec fn raw_message(m: ChatMessageView) -> MessageView {
    MessageView { role: m.role, content: m.raw_content }
}

/// The conversation as the backend takes it.
pub open spec fn raw_messages_of(messages: Seq<ChatMessageView>) -> Seq<MessageView> {
    messages.map_values(|m: ChatMessageView| raw_message(m))
}

/// What a message of the user asks for.
#[derive(Debug, PartialEq, Eq)]
pub struct Query {
    /// Whether the web is searched first.
    pub web_search: bool,
    /// The message without its directives.
    pub text: String,
}

/// A word that steers the application and is no part of the question: one
/// that begins with `#` or `@`.
pub open spec fn is_directive(word: Seq<char>) -> bool {
    word.len() > 0 && (word[0] == '#' || word[0] == '@')
}

/// The members of `all` that are no directives, in order.
pub open spec fn plain_words(all: Seq<Seq<char>>) -> Seq<Seq<char>>
    decreases all.len(),
{
    if all.len() == 0 {
        all
    } else if is_directive(all.last()) {
        plain_words(all.drop_last())
    } else {
        plain_words(all.drop_last()).push(all.last())
    }
}

/// The question in a message: its words that are no directives, separated by
/// single spaces.
pub open spec fn question_of(message: Seq<char>) -> Seq<char> {
    joined(plain_words(words(message)), seq![' '])
}

/// What is shown of a result as its summary: the summary, or where there is
/// none the beginning of the content.
pub open spec fn digest_of(result: SourceResultView) -> Seq<char> {
    if result.summary.len() > 0 {
        result.summary
    } else {
        fallback(result.content)
    }
}

/// The entry of result number `index`, counted from 0.
pub open spec fn context_entry(index: nat, result: SourceResultView) -> Seq<char> {
    "Source "@ + decimal(index + 1) + ": "@ + result.url + "\nSummary: "@ + digest_of(result)
}

/// The entries of the results, in order.
pub open spec fn context_entries(results: Seq<SourceResultView>) -> Seq<Seq<char>> {
    Seq::new(results.len(), |i: int| context_entry(i as nat, results[i]))
}

/// The results as they are put before the backend: one entry each, with an
/// empty line between neighbours.
pub open spec fn context_of(results: Seq<SourceResultView>) -> Seq<char> {
    joined(context_entries(results), seq!['\n', '\n'])
}

/// What a search adds to the conversation.
pub open spec fn context_message_of(results: Seq<SourceResultView>) -> MessageView {
    MessageView {
        role: SYSTEM_ROLE@,
        content: if results.len() > 0 {
            CONTEXT_HEAD@ + context_of(results)
        } else {
            NO_RESULTS@
        },
    }
}

/// The text that one line of a streamed reply adds: the next piece of an
/// event that holds one, and nothing for every other line.
pub open spec fn event_text(line: Seq<char>) -> Seq<char> {
    if has_prefix(line, DATA_PREFIX@) {
        let data = line.skip(DATA_PREFIX@.len() as int);
        if data == DONE@ {
            Seq::empty()
        } else {
            match delta_content(parsed_json(data)) {
                Some(piece) => piece,
                None => Seq::empty(),
            }
        }
    } else {
        Seq::empty()
    }
}

/// The text that some lines of a streamed reply add, one after another.
pub open spec fn events_text(all: Seq<Seq<char>>) -> Seq<char>
    decreases all.len(),
{
    if all.len() == 0 {
        Seq::empty()
    } else {
        events_text(all.drop_last()) + event_text(all.last())
    }
}

/// The text that one chunk of a streamed reply adds.
pub open spec fn chunk_text(chunk: Seq<char>) -> Seq<char> {
    events_text(lines_of(chunk))
}

/// The position of the last message with the role `role`, or -1.
pub open spec fn last_with_role(messages: Seq<ChatMessageView>, role: Seq<char>) -> int
    decreases messages.len(),
{
    if messages.len() == 0 {
        -1
    } else if messages.last().role == role {
        messages.len() - 1
    } else {
        last_with_role(messages.drop_last(), role)
    }
}

/// Why the last exchange cannot be saved.
#[derive(Clone, Copy, Debug, PartialEq, Eq, Structural)]
pub enum SaveError {
    NoUserMessage,
    NoAssistantMessage,
}

impl SaveError {
    /// The text that describes the error.
    pub open spec fn message_text(self) -> Seq<char> {
        match self {
            SaveError::NoUserMessage => "No user message found"@,
            SaveError::NoAssistantMessage => "No assistant message found"@,
        }
    }

    /// The text that describes the error.
    pub fn message(&self) -> (r: String)
        ensures
            r@ == self.message_text(),
    {
        let mut out = String::new();
        match self {
            SaveError::NoUserMessage => push_text(&mut out, "No user message found"),
            SaveError::NoAssistantMessage => push_text(&mut out, "No assistant message found"),
        }
        out
    }
}

/// What is saved of the last exchange: nothing while the conversation has
/// fewer than two messages; else the last message of the user and the last
/// reply, or the error that says which of the two is missing.
pub open spec fn last_exchange_of(messages: Seq<ChatMessageView>) -> Result<
    Option<Seq<char>>,
    SaveError,
> {
    if messages.len() < 2 {
        Ok(None)
    } else if last_with_role(messages, USER_ROLE@) < 0 {
        Err(SaveError::NoUserMessage)
    } else if last_with_role(messages, ASSISTANT_ROLE@) < 0 {
        Err(SaveError::NoAssistantMessage)
    } else {
        Ok(
            Some(
                "User:"@ + messages[last_with_role(messages, USER_ROLE@)].raw_content
                    + "\nAssistant:"@ + messages[last_with_role(
                    messages,
                    ASSISTANT_ROLE@,
                )].raw_content + "\n\n"@,
            ),
        )
    }
}

/// One message as it stands in a saved history.
pub open spec fn history_entry(m: ChatMessageView) -> Seq<char> {
    m.role + ":"@ + m.raw_content + "\n\n"@
}

/// Some messages as they stand in a saved history, one after another.
pub open spec fn history_entries(messages: Seq<ChatMessageView>) -> Seq<char>
    decreases messages.len(),
{
    if messages.len() == 0 {
        Seq::empty()
    } else {
        history_entries(messages.drop_last()) + history_entry(messages.last())
    }
}

/// What is saved of the whole conversation: nothing while it is empty, else
/// every message but the first.
pub open spec fn history_of(messages: Seq<ChatMessageView>) -> Option<Seq<char>> {
    if messages.len() == 0 {
        None
    } else {
        Some(history_entries(messages.skip(1)))
    }
}

/// The name of the directory of the topic `topic`.
pub open spec fn topic_name(topic: Seq<char>) -> Seq<char> {
    replaced(topic, ' ', '_')
}

/// The view of what is saved of the last exchange.
pub open spec fn exchange_view(r: Result<Option<String>, SaveError>) -> Result<
    Option<Seq<char>>,
    SaveError,
> {
    match r {
        Ok(Some(s)) => Ok(Some(s@)),
        Ok(None) => Ok(None),
        Err(e) => Err(e),
    }
}

/// The conversation as the backend takes it.
pub fn raw_messages(messages: &Vec<ChatMessage>) -> (r: Vec<Message>)
    ensures
        message_views(r@) == raw_messages_of(chat_views(messages@)),
{
    let mut out: Vec<Message> = Vec::new();
    let mut i: usize = 0;
    while i < messages.len()
        invariant
            i <= messages.len(),
            message_views(out@) == raw_messages_of(chat_views(messages@)).take(i as int),
        decreases messages.len() - i,
    {
        let ghost before = message_views(out@);
        out.push(
            Message { role: messages[i].role.clone(), content: messages[i].raw_content.clone() },
        );
        proof {
            assert(message_views(out@) == before.push(raw_message(messages@[i as int]@)));
        }
        i += 1;
    }
    proof {
        let all = raw_messages_of(chat_views(messages@));
        assert(all.take(i as int) == all);
    }
    out
}

/// Whether `word` is a directive.
pub fn directive(word: &Vec<char>) -> (r: bool)
    ensures
        r == is_directive(word@),
{
    word.len() > 0 && (word[0] == '#' || word[0] == '@')
}

/// What the message `message` asks for.
pub fn parse_query(message: &str) -> (r: Query)
    ensures
        r.web_search == contains_text(message@, WEB_FLAG@),
        r.text@ == question_of(message@),
{
    let chars = chars_of(message);
    let web_search = contains(&chars, &chars_of(WEB_FLAG));
    let all = split_words(&chars);
    let mut kept: Vec<Vec<char>> = Vec::new();
    let mut i: usize = 0;
    while i < all.len()
        invariant
            i <= all.len(),
            rows(kept@) == plain_words(rows(all@).take(i as int)),
        decreases all.len() - i,
    {
        proof {
            let next = rows(all@).take(i + 1);
            assert(next.drop_last() == rows(all@).take(i as int));
            assert(next.last() == all@[i as int]@);
        }
        if !directive(&all[i]) {
            let ghost before = rows(kept@);
            let word = slice(&all[i], 0, all[i].len());
            proof {
                assert(word@ == all@[i as int]@);
            }
            kept.push(word);
            proof {
                assert(rows(kept@) == before.push(all@[i as int]@));
            }
        }
        i += 1;
    }
    proof {
        assert(rows(all@).take(i as int) == rows(all@));
    }
    let mut space: Vec<char> = Vec::new();
    space.push(' ');
    proof {
        assert(space@ == seq![' ']);
    }
    Query { web_search, text: text_of(&join(&kept, &space)) }
}

/// What is shown of `result` as its summary.
pub fn digest(result: &SourceResult) -> (r: String)
    ensures
        r@ == digest_of(result@),
{
    if chars_of(result.summary.as_str()).len() > 0 {
        result.summary.clone()
    } else {
        fallback_summary(result.content.as_str())
    }
}

/// The results as they are put before the backend.
pub fn search_context(results: &Vec<SourceResult>) -> (r: String)
    ensures
        r@ == context_of(result_views(results@)),
{
    let mut entries: Vec<Vec<char>> = Vec::new();
    let mut i: usize = 0;
    while i < results.len()
        invariant
            i <= results.len(),
            rows(entries@) == context_entries(result_views(results@)).take(i as int),
        decreases results.len() - i,
    {
        let ghost before = rows(entries@);
        let mut entry = chars_of("Source ");
        push_decimal(&mut entry, (i + 1) as u64);
        append(&mut entry, &chars_of(": "));
        append(&mut entry, &chars_of(results[i].url.as_str()));
        append(&mut entry, &chars_of("\nSummary: "));
        append(&mut entry, &chars_of(digest(&results[i]).as_str()));
        proof {
            assert(entry@ == context_entry(i as nat, results@[i as int]@));
        }
        entries.push(entry);
        proof {
            assert(rows(entries@) == before.push(context_entry(i as nat, results@[i as int]@)));
        }
        i += 1;
    }
    proof {
        let all = context_entries(result_views(results@));
        assert(all.take(i as int) == all);
    }
    let mut gap: Vec<char> = Vec::new();
    gap.push('\n');
    gap.push('\n');
    proof {
        assert(gap@ == seq!['\n', '\n']);
    }
    text_of(&join(&entries, &gap))
}

/// What a search with the results `results` adds to the conversation.
pub fn context_message(results: &Vec<SourceResult>) -> (r: Message)
    ensures
        r@ == context_message_of(result_views(results@)),
{
    let mut role = String::new();
    push_text(&mut role, SYSTEM_ROLE);
    let mut content = String::new();
    if results.len() > 0 {
        push_text(&mut content, CONTEXT_HEAD);
        push_text(&mut content, search_context(results).as_str());
    } else {
        push_text(&mut content, NO_RESULTS);
    }
    Message { role, content }
}

/// The text that the line `line` of a streamed reply adds.
pub fn text_of_event(line: &Vec<char>) -> (r: Vec<char>)
    ensures
        r@ == event_text(line@),
{
    let prefix = chars_of(DATA_PREFIX);
    if !starts_with(line, &prefix) {
        return Vec::new();
    }
    let data = slice(line, prefix.len(), line.len());
    if equals(&data, &chars_of(DONE)) {
        return Vec::new();
    }
    let parsed = parse_json(text_of(&data).as_str());
    match stream_delta(parsed.as_ref()) {
        Some(piece) => chars_of(piece.as_str()),
        None => Vec::new(),
    }
}

/// The text that the chunk `chunk` of a streamed reply adds.
pub fn stream_text(chunk: &str) -> (r: String)
    ensures
        r@ == chunk_text(chunk@),
{
    let all = lines(&chars_of(chunk));
    let mut out: Vec<char> = Vec::new();
    let mut i: usize = 0;
    while i < all.len()
        invariant
            i <= all.len(),
            out@ == events_text(rows(all@).take(i as int)),
        decreases all.len() - i,
    {
        proof {
            let next = rows(all@).take(i + 1);
            assert(next.drop_last() == rows(all@).take(i as int));
            assert(next.last() == all@[i as int]@);
        }
        append(&mut out, &text_of_event(&all[i]));
        i += 1;
    }
    proof {
        assert(rows(all@).take(i as int) == rows(all@));
    }
    text_of(&out)
}

/// The position of the last of `messages` with the role `role`.
pub fn find_last_with_role(messages: &Vec<ChatMessage>, role: &str) -> (r: Option<usize>)
    ensures
        match r {
            Some(i) => i == last_with_role(chat_views(messages@), role@),
            None => last_with_role(chat_views(messages@), role@) < 0,
        },
{
    let wanted = chars_of(role);
    let mut i: usize = messages.len();
    proof {
        assert(chat_views(messages@).take(i as int) == chat_views(messages@));
    }
    while i > 0
        invariant
            i <= messages.len(),
            wanted@ == role@,
            last_with_role(chat_views(messages@), role@) == last_with_role(
                chat_views(messages@).take(i as int),
                role@,
            ),
        decreases i,
    {
        proof {
            let upto = chat_views(messages@).take(i as int);
            assert(upto.drop_last() == chat_views(messages@).take(i - 1));
            assert(upto.last() == messages@[i - 1]@);
        }
        if equals(&chars_of(messages[i - 1].role.as_str()), &wanted) {
            return Some(i - 1);
        }
        i -= 1;
    }
    None
}

/// What is saved of the last exchange of the conversation.
pub fn last_interaction(messages: &Vec<ChatMessage>) -> (r: Result<Option<String>, SaveError>)
    ensures
        exchange_view(r) == last_exchange_of(chat_views(messages@)),
{
    if messages.len() < 2 {
        return Ok(None);
    }
    let user = match find_last_with_role(messages, USER_ROLE) {
        Some(i) => i,
        None => {
            return Err(SaveError::NoUserMessage);
        },
    };
    let assistant = match find_last_with_role(messages, ASSISTANT_ROLE) {
        Some(i) => i,
        None => {
            return Err(SaveError::NoAssistantMessage);
        },
    };
    proof {
        lemma_last_with_role_bound(chat_views(messages@), USER_ROLE@);
        lemma_last_with_role_bound(chat_views(messages@), ASSISTANT_ROLE@);
    }
    let mut out = String::new();
    push_text(&mut out, "User:");
    push_text(&mut out, messages[user].raw_content.as_str());
    push_text(&mut out, "\nAssistant:");
    push_text(&mut out, messages[assistant].raw_content.as_str());
    push_text(&mut out, "\n\n");
    Ok(Some(out))
}

/// What is saved of the whole conversation.
pub fn history_text(messages: &Vec<ChatMessage>) -> (r: Option<String>)
    ensures
        text_view(r) == history_of(chat_views(messages@)),
{
    if messages.len() == 0 {
        return None;
    }
    let ghost rest = chat_views(messages@).skip(1);
    let mut out = String::new();
    let mut i: usize = 1;
    while i < messages.len()
        invariant
            1 <= i <= messages.len(),
            rest == chat_views(messages@).skip(1),
            out@ == history_entries(rest.take(i - 1)),
        decreases messages.len() - i,
    {
        proof {
            let next = rest.take(i as int);
            assert(next.drop_last() == rest.take(i - 1));
            assert(next.last() == messages@[i as int]@);
        }
        push_text(&mut out, messages[i].role.as_str());
        push_text(&mut out, ":");
        push_text(&mut out, messages[i].raw_content.as_str());
        push_text(&mut out, "\n\n");
        i += 1;
    }
    proof {
        assert(rest.take(i - 1) == rest);
    }
    Some(out)
}

/// The name of the directory of the topic `topic`: the topic with an
/// underscore in the place of each space.
pub fn sanitize_topic(topic: &str) -> (r: String)
    ensures
        r@ == topic_name(topic@),
{
    text_of(&replace_char(&chars_of(topic), ' ', '_'))
}

/// The last message with a role stands in the conversation.
pub proof fn lemma_last_with_role_bound(messages: Seq<ChatMessageView>, role: Seq<char>)
    ensures
        -1 <= last_with_role(messages, role) < messages.len(),
        last_with_role(messages, role) >= 0 ==> messages[last_with_role(messages, role)].role
            == role,
    decreases messages.len(),
{
    if messages.len() > 0 && messages.last().role != role {
        lemma_last_with_role_bound(messages.drop_last(), role);
    }
}

} // verus!
