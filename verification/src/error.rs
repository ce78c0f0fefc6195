//! Why a page could not be read.
use vstd::prelude::*;

verus! {

/// The ways in which a page can fail to hold what a reader expects.
#[derive(Debug, Clone, Copy, PartialEq, Eq, Structural)]
pub enum ScrapeError {
    /// A CSS selector that the reader uses was refused by the HTML crate.
    InvalidSelector,
    /// No element matched where one was needed.
    MissingElement,
    /// A node that had to be an element is a text or other node.
    NotAnElement,
    /// An element lacks an attribute that was needed.
    MissingAttribute,
    /// An element's text was empty where its first character had to be dropped.
    EmptyText,
    /// An element holds no text node where its first one was needed.
    MissingText,
    /// A rarity name that had to name a rarity names none.
    UnknownRarity,
}

} // verus!
