//! Calling a llama.cpp server for a completion: what is asked, and what the
//! reply holds.

use vstd::prelude::*;
use crate::json::{member, member_of, parse_json, parsed_json, referred, text, text_in, Json};
use crate::llama::is_success;
use crate::text::push_text;

verus! {

/// Where completions are asked for.
pub const COMPLETION_ENDPOINT: &'static str = "http://localhost:9000/completion";

/// How many tokens are asked for.
pub const PREDICT_LENGTH: u32 = 128;

/// The member of a reply that holds the completion.
pub const COMPLETION_MEMBER: &'static str = "content";

/// The instruction for taking a page apart, up to the query.
pub const EXTRACTION_HEAD: &'static str =
    "You are a web content analyzer. Please analyze the following HTML document and extract key information into a structured JSON format. Focus on:\n\n1. Main topic or title\n2. Key concepts and ideas\n3. Important facts and data\n4. Relevant dates and timestamps\n5. Author information (if available)\n6. Links and references\n7. Any content specifically related to: \"";

/// The instruction for taking a page apart, from the query to the page.
pub const EXTRACTION_TAIL: &'static str =
    "\"\n\nFormat the response as a JSON object with these categories. If any category is not found, set it to null.\nHere's the document to analyze:\n\n";

/// Why a completion gave no text.
#[derive(Debug, PartialEq, Eq)]
pub enum CompletionError {
    /// The server answered with a status that is no success.
    RequestFailed(String),
    /// The reply is not JSON.
    InvalidJson,
    /// The reply holds no completion.
    MissingContent,
}

/// A completion error as specifications see it.
pub enum CompletionErrorView {
    RequestFailed(Seq<char>),
    InvalidJson,
    MissingContent,
}

impl View for CompletionError {
    type V = CompletionErrorView;

    open spec fn view(&self) -> CompletionErrorView {
        match *self {
            CompletionError::RequestFailed(d) => CompletionErrorView::RequestFailed(d@),
            CompletionError::InvalidJson => CompletionErrorView::InvalidJson,
            CompletionError::MissingContent => CompletionErrorView::MissingContent,
        }
    }
}

impl CompletionError {
    /// The text that describes the error.
    pub open spec fn message_text(self) -> Seq<char> {
        match self {
            CompletionError::RequestFailed(detail) => detail@,
            CompletionError::InvalidJson => "Failed to parse response JSON"@,
            CompletionError::MissingContent => "Missing 'content' field in response"@,
        }
    }

    /// The text that describes the error.
    pub fn message(&self) -> (r: String)
        ensures
            r@ == self.message_text(),
    {
        match self {
            CompletionError::RequestFailed(detail) => detail.clone(),
            CompletionError::InvalidJson => {
                let mut out = String::new();
                push_text(&mut out, "Failed to parse response JSON");
                out
            },
            CompletionError::MissingContent => {
                let mut out = String::new();
                push_text(&mut out, "Missing 'content' field in response");
                out
            },
        }
    }
}

/// The prompt that asks for what the page `html` holds on `query`.
pub open spec fn extraction_text(query: Seq<char>, html: Seq<char>) -> Seq<char> {
    EXTRACTION_HEAD@ + query + EXTRACTION_TAIL@ + html
}

/// What the status of a reply means for a completion.
pub open spec fn completion_status_outcome(
    status: u16,
    status_text: Seq<char>,
    body: Seq<char>,
) -> Result<(), CompletionErrorView> {
    if is_success(status) {
        Ok(())
    } else {
        Err(
            CompletionErrorView::RequestFailed(
                "Request failed with status "@ + status_text + ": "@ + body,
            ),
        )
    }
}

/// The completion in a reply, `parsed` being its body as JSON.
pub open spec fn completion_of(parsed: Option<Json>) -> Result<Seq<char>, CompletionErrorView> {
    match parsed {
        None => Err(CompletionErrorView::InvalidJson),
        Some(_) => match text_in(member_of(parsed, COMPLETION_MEMBER@)) {
            Some(content) => Ok(content),
            None => Err(CompletionErrorView::MissingContent),
        },
    }
}

/// The view of a check.
pub open spec fn status_view(r: Result<(), CompletionError>) -> Result<(), CompletionErrorView> {
    match r {
        Ok(_) => Ok(()),
        Err(e) => Err(e@),
    }
}

/// The view of a completion.
pub open spec fn completion_view(r: Result<String, CompletionError>) -> Result<
    Seq<char>,
    CompletionErrorView,
> {
    match r {
        Ok(s) => Ok(s@),
        Err(e) => Err(e@),
    }
}

/// The prompt that asks for what the page `html` holds on `query`.
pub fn extraction_prompt(query: &str, html: &str) -> (r: String)
    ensures
        r@ == extraction_text(query@, html@),
{
    let mut out = String::new();
    push_text(&mut out, EXTRACTION_HEAD);
    push_text(&mut out, query);
    push_text(&mut out, EXTRACTION_TAIL);
    push_text(&mut out, html);
    out
}

/// What the status of a reply means for a completion.
pub fn completion_status(status: u16, status_text: &str, body: &str) -> (r: Result<
    (),
    CompletionError,
>)
    ensures
        status_view(r) == completion_status_outcome(status, status_text@, body@),
{
    if 200 <= status && status < 300 {
        Ok(())
    } else {
        let mut detail = String::new();
        push_text(&mut detail, "Request failed with status ");
        push_text(&mut detail, status_text);
        push_text(&mut detail, ": ");
        push_text(&mut detail, body);
        Err(CompletionError::RequestFailed(detail))
    }
}

/// The completion in a reply, `parsed` being its body as JSON.
pub fn completion_in(parsed: Option<&Json>) -> (r: Result<String, CompletionError>)
    ensures
        completion_view(r) == completion_of(referred(parsed)),
{
    match parsed {
        None => Err(CompletionError::InvalidJson),
        Some(_) => match text(member(parsed, COMPLETION_MEMBER)) {
            Some(content) => Ok(content.clone()),
            None => Err(CompletionError::MissingContent),
        },
    }
}

/// The completion in the reply whose body is `body`.
pub fn completion_content(body: &str) -> (r: Result<String, CompletionError>)
    ensures
        completion_view(r) == completion_of(parsed_json(body@)),
{
    let parsed = parse_json(body);
    completion_in(parsed.as_ref())
}

} // verus!
