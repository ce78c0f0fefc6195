use cookie_run_kingdom_wiki_scraper::api::rarity::Rarity;
use cookie_run_kingdom_wiki_scraper::api::topping::ToppingTools;
use cookie_run_kingdom_wiki_scraper::character as earlier;
use cookie_run_kingdom_wiki_scraper::error::ScrapeError;

const TREASURE_PAGE: &str = "<html><body><table border=\"0\"><tbody><tr><td><span class=\"mw-headline\" id=\"Epic_Treasures\">Epic Treasures</span></td></tr></tbody></table>\n<div><table><tbody><tr><th style=\"text-align:left\"><a href=\"https://x/T1.png/revision/latest?cb=1\" title=\"Squishy Jelly Watch\">S</a></th><th style=\"text-align:left\"><a href=\"https://x/T2.png\" title=\"Old Pilgrim's Scroll\">O</a></th></tr></tbody></table></div>\n<table border=\"0\"><tbody><tr><td><span class=\"mw-headline\" id=\"Rare_Treasures\">Rare Treasures</span></td></tr></tbody></table>\n<div><table><tbody><tr><th style=\"text-align:left\"><a href=\"https://x/T3.png\" title=\"Bookseller's Monocle\">B</a></th></tr></tbody></table></div></body></html>";

#[test]
fn treasures_are_read_per_rarity() {
    let v = ToppingTools::new().get_treasures(TREASURE_PAGE);
    assert_eq!(v.len(), 3);
    assert_eq!(v[0].name, "Squishy Jelly Watch");
    assert_eq!(v[0].illustration_path, "https://x/T1.png");
    assert_eq!(v[0].rarity, Rarity::Epic);
    assert_eq!(v[1].name, "Old Pilgrim's Scroll");
    assert_eq!(v[1].illustration_path, "https://x/T2.png");
    assert_eq!(v[1].rarity, Rarity::Epic);
    assert_eq!(v[2].name, "Bookseller's Monocle");
    assert_eq!(v[2].rarity, Rarity::Rare);
}

#[test]
fn earlier_reader_reads_treasures() {
    let v = earlier::CharacterTools::new().get_treasures(TREASURE_PAGE);
    assert_eq!(v.len(), 3);
    assert_eq!(v[0].image_path, "https://x/T1.png");
    assert_eq!(v[2].rarity, Rarity::Rare);
}

#[test]
fn unknown_treasure_rarity_is_reported() {
    let page = TREASURE_PAGE.replace("Rare_Treasures", "Mythic_Treasures");
    assert_eq!(ToppingTools::new().try_get_treasures(&page).err(), Some(ScrapeError::UnknownRarity));
}

#[test]
fn header_without_treasure_table_is_reported() {
    let page = TREASURE_PAGE.replace("</table>\n<div>", "</table><div>");
    assert!(ToppingTools::new().try_get_treasures(&page).is_err());
    let page = TREASURE_PAGE.replace("mw-headline", "headline");
    assert_eq!(ToppingTools::new().try_get_treasures(&page).err(), Some(ScrapeError::MissingElement));
}

#[test]
fn no_headers_no_treasures() {
    let v = ToppingTools::new().get_treasures("<html><body><p>none</p></body></html>");
    assert!(v.is_empty());
}

#[test]
fn checked_treasure_readers_agree_on_a_readable_page() {
    let v = ToppingTools::new().try_get_treasures(TREASURE_PAGE).unwrap();
    assert_eq!(v.len(), 3);
    assert_eq!(v[2].name, "Bookseller's Monocle");
    let w = earlier::CharacterTools::new().try_get_treasures(TREASURE_PAGE).unwrap();
    assert_eq!(w.len(), 3);
    assert_eq!(w[0].image_path, "https://x/T1.png");
}
