//! The document cache: its keys, its records, and when a record still counts.
//!
//! The records live in files, one per key, which the caller reads and writes.
//! This module says under which name a URL is kept, what a write stores and
//! which stored records a read hands out. The directory is modelled as a map
//! from keys to records; the laws at the end are stated over that map.

use vstd::prelude::*;
use vstd::utf8::{encode_utf8, encode_utf8_decode_utf8};
use crate::encoding::{
    encode_non_alphanumeric, is_key_char, lemma_percent_encoded_alphabet,
    lemma_percent_encoded_injective, percent_encoded_text, SafeSet,
};

verus! {

/// For how many seconds after it was written a record is handed out.
pub const FRESHNESS_WINDOW_SECS: u64 = 86400;

/// A fetched and summarised page as the cache keeps it. `timestamp` is the
/// time of the write, in seconds since the epoch.
#[derive(Debug, PartialEq, Eq)]
pub struct CachedDocument {
    pub url: String,
    pub snippet: String,
    pub document: String,
    pub summary: String,
    pub timestamp: u64,
}

/// A record as specifications see it.
pub struct CachedDocumentView {
    pub url: Seq<char>,
    pub snippet: Seq<char>,
    pub document: Seq<char>,
    pub summary: Seq<char>,
    pub timestamp: u64,
}

impl View for CachedDocument {
    type V = CachedDocumentView;

    open spec fn view(&self) -> CachedDocumentView {
        CachedDocumentView {
            url: self.url@,
            snippet: self.snippet@,
            document: self.document@,
            summary: self.summary@,
            timestamp: self.timestamp,
        }
    }
}

impl Clone for CachedDocument {
    fn clone(&self) -> (r: Self)
        ensures
            r@ == self@,
    {
        CachedDocument {
            url: self.url.clone(),
            snippet: self.snippet.clone(),
            document: self.document.clone(),
            summary: self.summary.clone(),
            timestamp: self.timestamp,
        }
    }
}

/// The view of a record that may be absent.
pub open spec fn document_view(o: Option<CachedDocument>) -> Option<CachedDocumentView> {
    match o {
        Some(d) => Some(d@),
        None => None,
    }
}

/// The key under which the record of `url` is kept: its UTF-8 form with every
/// byte but the ASCII letters and digits percent-encoded.
pub open spec fn key_of(url: Seq<char>) -> Seq<char> {
    percent_encoded_text(url, SafeSet::Alphanumeric)
}

/// A record written at `timestamp` is fresh at `now`: its age is below the
/// window.
pub open spec fn fresh_at(timestamp: u64, now: u64) -> bool {
    now - timestamp < FRESHNESS_WINDOW_SECS
}

/// The record that a write at `now` stores.
pub open spec fn written(
    url: Seq<char>,
    snippet: Seq<char>,
    document: Seq<char>,
    summary: Seq<char>,
    now: u64,
) -> CachedDocumentView {
    CachedDocumentView { url, snippet, document, summary, timestamp: now }
}

/// What a read at `now` hands out of what is stored under a key.
pub open spec fn readable(stored: Option<CachedDocumentView>, now: u64) -> Option<
    CachedDocumentView,
> {
    match stored {
        Some(d) => if fresh_at(d.timestamp, now) {
            Some(d)
        } else {
            None
        },
        None => None,
    }
}

/// The cache directory after `doc` was written into `store`.
pub open spec fn store_after_write(
    store: Map<Seq<char>, CachedDocumentView>,
    doc: CachedDocumentView,
) -> Map<Seq<char>, CachedDocumentView> {
    store.insert(key_of(doc.url), doc)
}

/// What is stored for `url` in `store`.
pub open spec fn stored_for(store: Map<Seq<char>, CachedDocumentView>, url: Seq<char>) -> Option<
    CachedDocumentView,
> {
    if store.dom().contains(key_of(url)) {
        Some(store[key_of(url)])
    } else {
        None
    }
}

/// What a read of `url` at `now` finds in `store`.
pub open spec fn store_read(
    store: Map<Seq<char>, CachedDocumentView>,
    url: Seq<char>,
    now: u64,
) -> Option<CachedDocumentView> {
    readable(stored_for(store, url), now)
}

/// The name of the file that keeps the record of `url`.
pub fn cache_key(url: &str) -> (r: String)
    ensures
        r@ == key_of(url@),
        forall|i: int| 0 <= i < r@.len() ==> is_key_char(#[trigger] r@[i]),
{
    let key = encode_non_alphanumeric(url);
    proof {
        assert forall|i: int| 0 <= i < key@.len() implies is_key_char(#[trigger] key@[i]) by {
            lemma_percent_encoded_alphabet(encode_utf8(url@), i);
        }
    }
    key
}

impl CachedDocument {
    /// The record that a write at `now` stores.
    pub fn new(url: &str, snippet: &str, document: &str, summary: &str, now: u64) -> (r: Self)
        ensures
            r@ == written(url@, snippet@, document@, summary@, now),
    {
        CachedDocument {
            url: url.to_owned(),
            snippet: snippet.to_owned(),
            document: document.to_owned(),
            summary: summary.to_owned(),
            timestamp: now,
        }
    }

    /// Whether the record still counts at `now`.
    pub fn is_fresh(&self, now: u64) -> (r: bool)
        ensures
            r == fresh_at(self.timestamp, now),
    {
        now < self.timestamp || now - self.timestamp < FRESHNESS_WINDOW_SECS
    }
}

/// What a read at `now` hands out, given what the file of the key held:
/// the record if there is one and it is fresh, else nothing. `stored` is
/// `None` where the file is missing or cannot be read.
pub fn read(stored: Option<CachedDocument>, now: u64) -> (r: Option<CachedDocument>)
    ensures
        document_view(r) == readable(document_view(stored), now),
{
    match stored {
        Some(d) => if d.is_fresh(now) {
            Some(d)
        } else {
            None
        },
        None => None,
    }
}

/// The record to store for a page that was fetched and summarised, stamped
/// with the time of the write.
pub fn write(url: &str, snippet: &str, content: &str, summary: &str, now: u64) -> (r:
    CachedDocument)
    ensures
        r@ == written(url@, snippet@, content@, summary@, now),
{
    CachedDocument::new(url, snippet, content, summary, now)
}

/// Two URLs are kept under one key only if they are the same URL.
pub proof fn lemma_key_injective(a: Seq<char>, b: Seq<char>)
    requires
        key_of(a) == key_of(b),
    ensures
        a == b,
{
    lemma_percent_encoded_injective(encode_utf8(a), encode_utf8(b), SafeSet::Alphanumeric);
    encode_utf8_decode_utf8(a);
    encode_utf8_decode_utf8(b);
}

/// A record that was written is read back unchanged for as long as it is
/// fresh: the same content and the same summary.
pub proof fn lemma_write_then_read(
    store: Map<Seq<char>, CachedDocumentView>,
    url: Seq<char>,
    snippet: Seq<char>,
    content: Seq<char>,
    summary: Seq<char>,
    written_at: u64,
    now: u64,
)
    requires
        fresh_at(written_at, now),
    ensures
        store_read(
            store_after_write(store, written(url, snippet, content, summary, written_at)),
            url,
            now,
        ) == Some(written(url, snippet, content, summary, written_at)),
{
}

/// A record whose age has reached the window is not handed out.
pub proof fn lemma_stale_is_miss(
    store: Map<Seq<char>, CachedDocumentView>,
    url: Seq<char>,
    now: u64,
)
    requires
        stored_for(store, url) matches Some(d) && now - d.timestamp >= FRESHNESS_WINDOW_SECS,
    ensures
        store_read(store, url, now) is None,
{
}

/// A write replaces what was stored for its URL, whatever that was.
pub proof fn lemma_write_overwrites(
    store: Map<Seq<char>, CachedDocumentView>,
    earlier: CachedDocumentView,
    later: CachedDocumentView,
)
    requires
        earlier.url == later.url,
    ensures
        store_after_write(store_after_write(store, earlier), later) == store_after_write(
            store,
            later,
        ),
{
    assert(store_after_write(store_after_write(store, earlier), later) =~= store_after_write(
        store,
        later,
    ));
}

/// A write for one URL leaves what is stored for every other URL as it was.
pub proof fn lemma_write_leaves_others(
    store: Map<Seq<char>, CachedDocumentView>,
    doc: CachedDocumentView,
    other: Seq<char>,
)
    requires
        other != doc.url,
    ensures
        stored_for(store_after_write(store, doc), other) == stored_for(store, other),
{
    if key_of(other) == key_of(doc.url) {
        lemma_key_injective(other, doc.url);
    }
}

} // verus!
