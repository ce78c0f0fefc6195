//! The record types of the first reader, with the image path field named as
//! its early version names it.
use vstd::prelude::*;

pub use crate::legacy_scraper::{CharacterRarity, CharacterSelectors, CharacterType};

verus! {

/// A cookie as the first reader's early record describes it.
pub struct Character {
    pub name: String,
    pub char_type: CharacterType,
    pub imagepath: String,
    pub rarity: CharacterRarity,
}

} // verus!
