//! The settings that the library itself reads, and the choice of a provider.

use vstd::prelude::*;
use crate::text::{chars_of, contains, contains_text, equals, push_text};

verus! {

/// How many results a research call works on where nothing else is set.
pub const DEFAULT_RESULT_LIMIT: usize = 10;

/// What marks a key that was never filled in.
pub const PLACEHOLDER_MARK: &'static str = "your-";

/// The settings of the web search.
#[derive(Clone, Copy, Debug)]
pub struct WebSearchConfig {
    pub result_limit: usize,
}

impl Default for WebSearchConfig {
    fn default() -> (r: Self)
        ensures
            r.result_limit == DEFAULT_RESULT_LIMIT,
    {
        WebSearchConfig { result_limit: DEFAULT_RESULT_LIMIT }
    }
}

/// A chat backend that can be chosen.
#[derive(Clone, Copy, Debug, PartialEq, Eq, Structural)]
pub enum Provider {
    Deepseek,
    OpenAi,
    LlamaCpp,
    Ollama,
}

/// Why a provider cannot be used.
#[derive(Debug, PartialEq, Eq)]
pub enum ProviderError {
    /// No provider has the name.
    Unsupported(String),
    /// The key of the provider with the name was never filled in.
    PlaceholderKey(String),
}

/// A provider error as specifications see it.
pub enum ProviderErrorView {
    Unsupported(Seq<char>),
    PlaceholderKey(Seq<char>),
}

impl View for ProviderError {
    type V = ProviderErrorView;

    open spec fn view(&self) -> ProviderErrorView {
        match *self {
            ProviderError::Unsupported(name) => ProviderErrorView::Unsupported(name@),
            ProviderError::PlaceholderKey(name) => ProviderErrorView::PlaceholderKey(name@),
        }
    }
}

impl ProviderError {
    /// The text that describes the error.
    pub open spec fn message_text(self) -> Seq<char> {
        match self {
            ProviderError::Unsupported(name) => "Unsupported provider: "@ + name@,
            ProviderError::PlaceholderKey(name) => "Please set your API key for "@ + name@
                + " in the config file"@,
        }
    }

    /// The text that describes the error.
    pub fn message(&self) -> (r: String)
        ensures
            r@ == self.message_text(),
    {
        let mut out = String::new();
        match self {
            ProviderError::Unsupported(name) => {
                push_text(&mut out, "Unsupported provider: ");
                push_text(&mut out, name.as_str());
            },
            ProviderError::PlaceholderKey(name) => {
                push_text(&mut out, "Please set your API key for ");
                push_text(&mut out, name.as_str());
                push_text(&mut out, " in the config file");
            },
        }
        out
    }
}

/// The provider with the name `name`.
pub open spec fn provider_named(name: Seq<char>) -> Option<Provider> {
    if name == "deepseek"@ {
        Some(Provider::Deepseek)
    } else if name == "openai"@ {
        Some(Provider::OpenAi)
    } else if name == "llamacpp"@ {
        Some(Provider::LlamaCpp)
    } else if name == "ollama"@ {
        Some(Provider::Ollama)
    } else {
        None
    }
}

/// What the choice of the provider `name` gives.
pub open spec fn selection(name: Seq<char>) -> Result<Provider, ProviderErrorView> {
    match provider_named(name) {
        Some(p) => Ok(p),
        None => Err(ProviderErrorView::Unsupported(name)),
    }
}

/// What the check of the key of the provider `name` gives: a key that holds
/// the placeholder mark is refused; any other key, and no key, passes.
pub open spec fn key_check(name: Seq<char>, api_key: Option<Seq<char>>) -> Result<
    (),
    ProviderErrorView,
> {
    match api_key {
        Some(key) => if contains_text(key, PLACEHOLDER_MARK@) {
            Err(ProviderErrorView::PlaceholderKey(name))
        } else {
            Ok(())
        },
        None => Ok(()),
    }
}

/// The view of a choice.
pub open spec fn selection_view(r: Result<Provider, ProviderError>) -> Result<
    Provider,
    ProviderErrorView,
> {
    match r {
        Ok(p) => Ok(p),
        Err(e) => Err(e@),
    }
}

/// The view of a check.
pub open spec fn key_check_view(r: Result<(), ProviderError>) -> Result<(), ProviderErrorView> {
    match r {
        Ok(_) => Ok(()),
        Err(e) => Err(e@),
    }
}

/// The view of a key that may be absent.
pub open spec fn key_view(o: Option<&str>) -> Option<Seq<char>> {
    match o {
        Some(s) => Some(s@),
        None => None,
    }
}

/// Chooses the provider by its name.
pub fn select_provider(name: &str) -> (r: Result<Provider, ProviderError>)
    ensures
        selection_view(r) == selection(name@),
{
    let token = chars_of(name);
    if equals(&token, &chars_of("deepseek")) {
        Ok(Provider::Deepseek)
    } else if equals(&token, &chars_of("openai")) {
        Ok(Provider::OpenAi)
    } else if equals(&token, &chars_of("llamacpp")) {
        Ok(Provider::LlamaCpp)
    } else if equals(&token, &chars_of("ollama")) {
        Ok(Provider::Ollama)
    } else {
        Err(ProviderError::Unsupported(name.to_owned()))
    }
}

/// Checks that the key of the provider `name` was filled in.
pub fn check_api_key(name: &str, api_key: Option<&str>) -> (r: Result<(), ProviderError>)
    ensures
        key_check_view(r) == key_check(name@, key_view(api_key)),
{
    match api_key {
        Some(key) => if contains(&chars_of(key), &chars_of(PLACEHOLDER_MARK)) {
            Err(ProviderError::PlaceholderKey(name.to_owned()))
        } else {
            Ok(())
        },
        None => Ok(()),
    }
}

} // verus!
