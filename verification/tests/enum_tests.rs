use cookie_run_kingdom_wiki_scraper::api::character::{CharacterPos, CharacterType};
use cookie_run_kingdom_wiki_scraper::api::rarity::Rarity;
use cookie_run_kingdom_wiki_scraper::legacy_scraper;

#[test]
fn rarity_names_parse() {
    assert_eq!(Rarity::from_str("Special"), Some(Rarity::Special));
    assert_eq!(Rarity::from_str("Common"), Some(Rarity::Common));
    assert_eq!(Rarity::from_str("Rare"), Some(Rarity::Rare));
    assert_eq!(Rarity::from_str("Epic"), Some(Rarity::Epic));
    assert_eq!(Rarity::from_str("Legendary"), Some(Rarity::Legendary));
    assert_eq!(Rarity::from_str("Ancient"), Some(Rarity::Ancient));
    assert_eq!(Rarity::from_str("epic"), None);
    assert_eq!(Rarity::from_str(" Epic"), None);
    assert_eq!(Rarity::from_str(""), None);
}

#[test]
fn character_type_names_parse() {
    assert_eq!(CharacterType::from_str("Ambush"), Some(CharacterType::Ambush));
    assert_eq!(CharacterType::from_str("Bomber"), Some(CharacterType::Bomber));
    assert_eq!(CharacterType::from_str("Charge"), Some(CharacterType::Charge));
    assert_eq!(CharacterType::from_str("Defense"), Some(CharacterType::Defense));
    assert_eq!(CharacterType::from_str("Healing"), Some(CharacterType::Healing));
    assert_eq!(CharacterType::from_str("Magic"), Some(CharacterType::Magic));
    assert_eq!(CharacterType::from_str("Ranged"), Some(CharacterType::Ranged));
    assert_eq!(CharacterType::from_str("Support"), Some(CharacterType::Support));
    assert_eq!(CharacterType::from_str("Null"), None);
}

#[test]
fn character_pos_names_parse() {
    assert_eq!(CharacterPos::from_str("Rear"), Some(CharacterPos::Rear));
    assert_eq!(CharacterPos::from_str("Middle"), Some(CharacterPos::Middle));
    assert_eq!(CharacterPos::from_str("Front"), Some(CharacterPos::Front));
    assert_eq!(CharacterPos::from_str("Back"), None);
}

#[test]
fn legacy_names_parse_with_null() {
    assert_eq!(
        legacy_scraper::CharacterType::from_str("Null"),
        Some(legacy_scraper::CharacterType::Null)
    );
    assert_eq!(
        legacy_scraper::CharacterType::from_str("Magic"),
        Some(legacy_scraper::CharacterType::Magic)
    );
    assert_eq!(legacy_scraper::CharacterType::from_str("magic"), None);
    assert_eq!(
        legacy_scraper::CharacterRarity::from_str("Null"),
        Some(legacy_scraper::CharacterRarity::Null)
    );
    assert_eq!(
        legacy_scraper::CharacterRarity::from_str("Legendary"),
        Some(legacy_scraper::CharacterRarity::Legendary)
    );
    assert_eq!(legacy_scraper::CharacterRarity::from_str("Mythic"), None);
}
