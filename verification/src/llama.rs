//! The chat backend's protocol: messages, the shape of a request, and what a
//! reply means.

use vstd::prelude::*;
use crate::json::{
    first, first_of, member, member_of, parse_json, parsed_json, referred, text, text_in, Json,
};
use crate::text::{
    append, chars_of, contains, contains_text, join, joined, push_text, rows, text_of, trim,
    trimmed,
};

verus! {

/// One turn of a conversation.
#[derive(Debug, PartialEq, Eq)]
pub struct Message {
    pub role: String,
    pub content: String,
}

/// A message as specifications see it.
pub struct MessageView {
    pub role: Seq<char>,
    pub content: Seq<char>,
}

impl View for Message {
    type V = MessageView;

    open spec fn view(&self) -> MessageView {
        MessageView { role: self.role@, content: self.content@ }
    }
}

impl Clone for Message {
    fn clone(&self) -> (r: Self)
        ensures
            r@ == self@,
    {
        Message { role: self.role.clone(), content: self.content.clone() }
    }
}

/// The views of a sequence of messages.
pub open spec fn message_views(v: Seq<Message>) -> Seq<MessageView> {
    v.map_values(|m: Message| m@)
}

/// Why the backend gave no usable reply.
#[derive(Debug, PartialEq, Eq)]
pub enum LlamaError {
    ServiceUnavailable(String),
    ModelNotAvailable(String, String),
    RequestFailed(String),
    ResponseParseError(String),
    AuthenticationError(String),
}

/// A backend error as specifications see it.
pub enum LlamaErrorView {
    ServiceUnavailable(Seq<char>),
    ModelNotAvailable(Seq<char>, Seq<char>),
    RequestFailed(Seq<char>),
    ResponseParseError(Seq<char>),
    AuthenticationError(Seq<char>),
}

impl View for LlamaError {
    type V = LlamaErrorView;

    open spec fn view(&self) -> LlamaErrorView {
        match *self {
            LlamaError::ServiceUnavailable(d) => LlamaErrorView::ServiceUnavailable(d@),
            LlamaError::ModelNotAvailable(m, d) => LlamaErrorView::ModelNotAvailable(m@, d@),
            LlamaError::RequestFailed(d) => LlamaErrorView::RequestFailed(d@),
            LlamaError::ResponseParseError(d) => LlamaErrorView::ResponseParseError(d@),
            LlamaError::AuthenticationError(d) => LlamaErrorView::AuthenticationError(d@),
        }
    }
}

/// The view of a step that gives nothing or fails.
pub open spec fn check_view(r: Result<(), LlamaError>) -> Result<(), LlamaErrorView> {
    match r {
        Ok(_) => Ok(()),
        Err(e) => Err(e@),
    }
}

/// The view of a step that gives a text or fails.
pub open spec fn text_result_view(r: Result<String, LlamaError>) -> Result<
    Seq<char>,
    LlamaErrorView,
> {
    match r {
        Ok(s) => Ok(s@),
        Err(e) => Err(e@),
    }
}

impl LlamaError {
    /// The text that describes the error.
    pub open spec fn message_text(self) -> Seq<char> {
        match self {
            LlamaError::ServiceUnavailable(detail) => "Service is not available: "@ + detail@,
            LlamaError::ModelNotAvailable(model, detail) => "Model '"@ + model@
                + "' is not available: "@ + detail@,
            LlamaError::RequestFailed(detail) => "Request failed: "@ + detail@,
            LlamaError::ResponseParseError(detail) => "Failed to parse response: "@ + detail@,
            LlamaError::AuthenticationError(detail) => "Authentication failed: "@ + detail@,
        }
    }

    /// The text that describes the error.
    pub fn message(&self) -> (r: String)
        ensures
            r@ == self.message_text(),
    {
        let mut out = String::new();
        match self {
            LlamaError::ServiceUnavailable(detail) => {
                push_text(&mut out, "Service is not available: ");
                push_text(&mut out, detail.as_str());
            },
            LlamaError::ModelNotAvailable(model, detail) => {
                push_text(&mut out, "Model '");
                push_text(&mut out, model.as_str());
                push_text(&mut out, "' is not available: ");
                push_text(&mut out, detail.as_str());
            },
            LlamaError::RequestFailed(detail) => {
                push_text(&mut out, "Request failed: ");
                push_text(&mut out, detail.as_str());
            },
            LlamaError::ResponseParseError(detail) => {
                push_text(&mut out, "Failed to parse response: ");
                push_text(&mut out, detail.as_str());
            },
            LlamaError::AuthenticationError(detail) => {
                push_text(&mut out, "Authentication failed: ");
                push_text(&mut out, detail.as_str());
            },
        }
        out
    }
}

/// How the body of a request is laid out.
#[derive(Clone, Copy, Debug, PartialEq, Eq, Structural)]
pub enum RequestFormat {
    /// One prompt text, with the sampling settings under `options`.
    Ollama,
    /// A list of messages, as llama.cpp takes it.
    LlamaCpp,
    /// A list of messages, as OpenAI and DeepSeek take it.
    OpenAi,
}

/// What marks the address of an Ollama server.
pub const OLLAMA_MARK: &'static str = "ollama";

/// What marks the address of a llama.cpp server.
pub const LLAMACPP_MARK: &'static str = "llamacpp";

/// What stands between the role and the content of a message in a prompt.
pub const ROLE_SEPARATOR: &'static str = ": ";

/// Whether replies are streamed where the configuration does not say.
pub const DEFAULT_STREAM: bool = true;

/// What precedes the key in the authorization header.
pub const BEARER: &'static str = "Bearer ";

/// The status that says the key was refused.
pub const STATUS_UNAUTHORIZED: u16 = 401;

/// What an authentication error says.
pub const INVALID_KEY: &'static str = "Invalid API key";

/// What a parse error says.
pub const NO_FORMAT: &'static str = "No valid response format detected";

/// The member of a reply that lists the choices.
pub const CHOICES: &'static str = "choices";

/// The member of a choice that holds the whole message.
pub const MESSAGE: &'static str = "message";

/// The member of a streamed choice that holds the next piece.
pub const DELTA: &'static str = "delta";

/// The member of a message that holds its text.
pub const CONTENT: &'static str = "content";

/// The member of an Ollama reply that holds its text.
pub const RESPONSE: &'static str = "response";

/// The layout of the body for the server at `api_url`.
pub open spec fn format_for(api_url: Seq<char>) -> RequestFormat {
    if contains_text(api_url, OLLAMA_MARK@) {
        RequestFormat::Ollama
    } else if contains_text(api_url, LLAMACPP_MARK@) {
        RequestFormat::LlamaCpp
    } else {
        RequestFormat::OpenAi
    }
}

/// One message as a line of a prompt.
pub open spec fn prompt_line(m: MessageView) -> Seq<char> {
    m.role + ROLE_SEPARATOR@ + m.content
}

/// The messages as the lines of a prompt.
pub open spec fn prompt_lines(messages: Seq<MessageView>) -> Seq<Seq<char>> {
    messages.map_values(|m: MessageView| prompt_line(m))
}

/// The conversation as one prompt text: a line for each message.
pub open spec fn prompt_of(messages: Seq<MessageView>) -> Seq<char> {
    joined(prompt_lines(messages), seq!['\n'])
}

/// Whether `status` says that the request succeeded.
pub open spec fn is_success(status: u16) -> bool {
    200 <= status < 300
}

/// The text of the first choice of a complete reply.
pub open spec fn choice_content(reply: Option<Json>) -> Option<Seq<char>> {
    text_in(member_of(member_of(first_of(member_of(reply, CHOICES@)), MESSAGE@), CONTENT@))
}

/// The next piece of text in one event of a streamed reply.
pub open spec fn delta_content(event: Option<Json>) -> Option<Seq<char>> {
    text_in(member_of(member_of(first_of(member_of(event, CHOICES@)), DELTA@), CONTENT@))
}

/// The text of an Ollama reply.
pub open spec fn response_content(reply: Option<Json>) -> Option<Seq<char>> {
    text_in(member_of(reply, RESPONSE@))
}

/// The text that a reply with body `raw` gives, `parsed` being the body as
/// JSON: the content of the first choice, else the response text, else the
/// body itself, and a parse error where the body is blank.
pub open spec fn reply_text_of(parsed: Option<Json>, raw: Seq<char>) -> Result<
    Seq<char>,
    LlamaErrorView,
> {
    match choice_content(parsed) {
        Some(content) => Ok(content),
        None => match response_content(parsed) {
            Some(response) => Ok(response),
            None => if trimmed(raw).len() > 0 {
                Ok(raw)
            } else {
                Err(LlamaErrorView::ResponseParseError(NO_FORMAT@))
            },
        },
    }
}

/// What the status of a reply means: nothing is wrong with a success; the
/// status for a refused key is an authentication error; every other status
/// is a failed request, described by the text of the status and the body.
pub open spec fn status_outcome(status: u16, status_text: Seq<char>, body: Seq<char>) -> Result<
    (),
    LlamaErrorView,
> {
    if is_success(status) {
        Ok(())
    } else if status == STATUS_UNAUTHORIZED {
        Err(LlamaErrorView::AuthenticationError(INVALID_KEY@))
    } else {
        Err(LlamaErrorView::RequestFailed("Status: "@ + status_text + ", Body: "@ + body))
    }
}

/// The layout of the body for the server at `api_url`.
pub fn request_format(api_url: &str) -> (r: RequestFormat)
    ensures
        r == format_for(api_url@),
{
    let url = chars_of(api_url);
    if contains(&url, &chars_of(OLLAMA_MARK)) {
        RequestFormat::Ollama
    } else if contains(&url, &chars_of(LLAMACPP_MARK)) {
        RequestFormat::LlamaCpp
    } else {
        RequestFormat::OpenAi
    }
}

/// The conversation as one prompt text.
pub fn flatten_prompt(messages: &Vec<Message>) -> (r: String)
    ensures
        r@ == prompt_of(message_views(messages@)),
{
    let mut lines: Vec<Vec<char>> = Vec::new();
    let mut i: usize = 0;
    while i < messages.len()
        invariant
            i <= messages.len(),
            rows(lines@) == prompt_lines(message_views(messages@)).take(i as int),
        decreases messages.len() - i,
    {
        let ghost before = rows(lines@);
        let mut line = chars_of(messages[i].role.as_str());
        append(&mut line, &chars_of(ROLE_SEPARATOR));
        append(&mut line, &chars_of(messages[i].content.as_str()));
        lines.push(line);
        proof {
            assert(rows(lines@) == before.push(prompt_line(messages@[i as int]@)));
        }
        i += 1;
    }
    proof {
        let all = prompt_lines(message_views(messages@));
        assert(all.take(i as int) == all);
    }
    let mut newline: Vec<char> = Vec::new();
    newline.push('\n');
    proof {
        assert(newline@ == seq!['\n']);
    }
    text_of(&join(&lines, &newline))
}

/// Whether replies are streamed under the setting `stream`.
pub fn stream_setting(stream: Option<bool>) -> (r: bool)
    ensures
        r == match stream {
            Some(s) => s,
            None => DEFAULT_STREAM,
        },
{
    match stream {
        Some(s) => s,
        None => DEFAULT_STREAM,
    }
}

/// The value of the authorization header for `api_key`.
pub fn bearer_token(api_key: &str) -> (r: String)
    ensures
        r@ == BEARER@ + api_key@,
{
    let mut out = String::new();
    push_text(&mut out, BEARER);
    push_text(&mut out, api_key);
    out
}

/// What the status of a reply means.
pub fn check_status(status: u16, status_text: &str, body: &str) -> (r: Result<(), LlamaError>)
    ensures
        check_view(r) == status_outcome(status, status_text@, body@),
{
    if 200 <= status && status < 300 {
        Ok(())
    } else if status == STATUS_UNAUTHORIZED {
        let mut detail = String::new();
        push_text(&mut detail, INVALID_KEY);
        Err(LlamaError::AuthenticationError(detail))
    } else {
        let mut detail = String::new();
        push_text(&mut detail, "Status: ");
        push_text(&mut detail, status_text);
        push_text(&mut detail, ", Body: ");
        push_text(&mut detail, body);
        Err(LlamaError::RequestFailed(detail))
    }
}

/// The text that a reply gives, the body being `raw` and `parsed` what it
/// holds as JSON, or a parse error where it gives none.
pub fn reply_text(parsed: Option<&Json>, raw: &str) -> (r: Result<String, LlamaError>)
    ensures
        text_result_view(r) == reply_text_of(referred(parsed), raw@),
{
    let choice = text(member(member(first(member(parsed, CHOICES)), MESSAGE), CONTENT));
    match choice {
        Some(content) => {
            return Ok(content.clone());
        },
        None => {},
    }
    match text(member(parsed, RESPONSE)) {
        Some(response) => {
            return Ok(response.clone());
        },
        None => {},
    }
    let body = chars_of(raw);
    if trim(&body).len() > 0 {
        Ok(text_of(&body))
    } else {
        let mut detail = String::new();
        push_text(&mut detail, NO_FORMAT);
        Err(LlamaError::ResponseParseError(detail))
    }
}

/// The text of the reply whose body is `raw`.
pub fn get_response_text(raw: &str) -> (r: Result<String, LlamaError>)
    ensures
        text_result_view(r) == reply_text_of(parsed_json(raw@), raw@),
{
    let parsed = parse_json(raw);
    reply_text(parsed.as_ref(), raw)
}

/// The next piece of text in one event of a streamed reply.
pub fn stream_delta<'a>(event: Option<&'a Json>) -> (r: Option<&'a String>)
    ensures
        match r {
            Some(s) => delta_content(referred(event)) == Some(s@),
            None => delta_content(referred(event)) is None,
        },
{
    text(member(member(first(member(event, CHOICES)), DELTA), CONTENT))
}

} // verus!
