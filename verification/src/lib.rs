//! Extraction of Cookie Run: Kingdom wiki data from the wiki's HTML pages.
//!
//! The library works on page text that a caller has fetched. The HTML crate
//! parses the page into a pre-order outline of its nodes and says which
//! elements match each CSS selector, what their attributes are and what their
//! inner HTML is; walking subtrees, reading text and assembling the records
//! is done here, in verified code.
pub mod error;
pub mod text;
pub mod tools;
pub mod dom;
pub mod pattern;
pub mod extract;
pub mod api;
pub mod character;
pub mod rarity;
pub mod legacy_scraper;
pub mod t_characters;
pub mod cli;
