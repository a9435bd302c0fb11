//! An assistant for the terminal that forwards what the user writes to a
//! chat backend and, on request, researches the question on the web first.
//!
//! The heart of the library is the research pipeline: [`search`] reads the
//! candidates out of a result page, [`fetch`] cleans the pages, [`summarizer`]
//! reduces them, [`cache`] keeps them for a day, and [`research`] drives the
//! whole in batches and publishes the results. Around it stand the protocol
//! of the chat backend ([`llama`], [`llama_function`]), the conversation
//! ([`chatbot`]), the drawing of markdown ([`markdown`]) and the decisions of
//! the front end ([`ui`]).
//!
//! Requests, files, clocks and the terminal are left to the caller: every
//! function here goes from values to values.

pub mod cache;
pub mod chatbot;
pub mod config;
pub mod encoding;
pub mod fetch;
pub mod html;
pub mod json;
pub mod llama;
pub mod llama_function;
pub mod markdown;
pub mod research;
pub mod search;
pub mod summarizer;
pub mod text;
pub mod transfer;
pub mod ui;
