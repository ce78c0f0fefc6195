//! Readers for the wiki pages that the program scrapes.
pub mod character;
pub mod rarity;
pub mod topping;
