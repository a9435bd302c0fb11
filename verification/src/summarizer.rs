//! The summariser: what is asked of the text-generation backend, and what
//! the summary of a page is once the backend has answered or failed.
//!
//! The request itself is the caller's part. Whatever becomes of it, a summary
//! comes out: a failure of the backend never fails the page.

use vstd::prelude::*;
use crate::llama::{Message, MessageView};
use crate::text::{chars_of, prefix, push_text, take_chars, text_of, trim, trimmed};

verus! {

/// How many characters of a page stand in for a summary that the backend
/// did not give.
pub const FALLBACK_LENGTH: usize = 500;

/// For how many seconds the backend is waited for.
pub const SUMMARY_TIMEOUT_SECS: u64 = 15;

/// The role under which the request is sent.
pub const REQUEST_ROLE: &'static str = "user";

/// The instruction, up to the query.
pub const INSTRUCTION_HEAD: &'static str = "Given the query \"";

/// The instruction, from the query to the page.
pub const INSTRUCTION_TAIL: &'static str =
    "\", extract the information in the following page that is relevant to it:\n\n";

/// Why the backend gave no summary.
#[derive(Clone, Copy, Debug, PartialEq, Eq, Structural)]
pub enum SummaryError {
    /// The request failed, or the reply could not be read.
    SummarizeFailed,
    /// The reply took longer than was allowed.
    SummarizeTimeout,
}

/// The text of the request for `content` and `query`.
pub open spec fn instruction(content: Seq<char>, query: Seq<char>) -> Seq<char> {
    INSTRUCTION_HEAD@ + query + INSTRUCTION_TAIL@ + content
}

/// What stands in for a summary: the first `FALLBACK_LENGTH` characters of
/// the page, trimmed.
pub open spec fn fallback(content: Seq<char>) -> Seq<char> {
    trimmed(prefix(content, FALLBACK_LENGTH as nat))
}

/// The view of what the backend answered.
pub open spec fn reply_view(reply: Result<String, SummaryError>) -> Result<
    Seq<char>,
    SummaryError,
> {
    match reply {
        Ok(s) => Ok(s@),
        Err(e) => Err(e),
    }
}

/// The summary of a page: empty where summarising is switched off, the
/// backend's answer where it gave one, else the fallback.
pub open spec fn summary_of(
    content: Seq<char>,
    enabled: bool,
    reply: Result<Seq<char>, SummaryError>,
) -> Seq<char> {
    if !enabled {
        Seq::empty()
    } else {
        match reply {
            Ok(text) => text,
            Err(_) => fallback(content),
        }
    }
}

/// The first `FALLBACK_LENGTH` characters of `content`, trimmed.
pub fn fallback_summary(content: &str) -> (r: String)
    ensures
        r@ == fallback(content@),
{
    let chars = chars_of(content);
    let head = take_chars(&chars, FALLBACK_LENGTH);
    text_of(&trim(&head))
}

/// The message to send to the backend for a page, or `None` where
/// summarising is switched off and nothing is sent.
pub fn summary_request(content: &str, query: &str, enabled: bool) -> (r: Option<Message>)
    ensures
        r is Some <==> enabled,
        r matches Some(m) ==> m@ == (MessageView {
            role: REQUEST_ROLE@,
            content: instruction(content@, query@),
        }),
{
    if !enabled {
        return None;
    }
    let mut text = String::new();
    push_text(&mut text, INSTRUCTION_HEAD);
    push_text(&mut text, query);
    push_text(&mut text, INSTRUCTION_TAIL);
    push_text(&mut text, content);
    let mut role = String::new();
    push_text(&mut role, REQUEST_ROLE);
    Some(Message { role, content: text })
}

/// The summary of a page, given what the backend answered. `reply` is not
/// looked at where summarising is switched off.
pub fn summarize(content: &str, enabled: bool, reply: &Result<String, SummaryError>) -> (r:
    String)
    ensures
        r@ == summary_of(content@, enabled, reply_view(*reply)),
{
    if !enabled {
        String::new()
    } else {
        match reply {
            Ok(text) => text.clone(),
            Err(_) => fallback_summary(content),
        }
    }
}

} // verus!
