//! Rate-limited, cached aggregation of upstream items.
//!
//! The crate holds the decisions of a tool server that fronts two upstream
//! content sources: when an outbound call may be made, which items are served
//! from memory, in which groups the missing ones are requested, and how the
//! answers are worded. Network calls, task scheduling and transport stay with
//! the embedding program, which performs the actions that the functions here
//! hand out and reports back what happened.
//!
//! - [`rate_limit`]: the request budget with its two windows.
//! - [`cache`]: the fixed-capacity cache of stories, ordered by recency.
//! - [`story`]: stories, and the form in which the cache keeps them.
//! - [`client`]: single and batched fetches of stories through the cache.
//! - [`listing`], [`ranking`], [`story_text`], [`router`]: the story tools.
//! - [`codes`], [`search_text`], [`brave`]: the search tools.
//! - [`text`]: numerals and separated lists.
pub mod brave;
pub mod cache;
pub mod client;
pub mod codes;
pub mod listing;
pub mod ranking;
pub mod rate_limit;
pub mod router;
pub mod search_text;
pub mod story;
pub mod story_text;
pub mod text;
