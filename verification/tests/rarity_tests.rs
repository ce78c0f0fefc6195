use cookie_run_kingdom_wiki_scraper::api::rarity::{rarity_chances_from_cells, Rarity, RarityTools};
use cookie_run_kingdom_wiki_scraper::error::ScrapeError;
use cookie_run_kingdom_wiki_scraper::rarity as earlier;

const GACHA_PAGE: &str = "<html><body><div class=\"wds-tab__content\"><table class=\"wikitable\"><tbody><tr><th>Rarity</th><th>Common</th><th>Rare</th><th>Epic</th></tr><tr><th>Soulstone</th><td>38.5%\n</td><td>25%</td><td>10.2%</td></tr><tr><th>Cookie</th><td>40%</td><td>1%</td></tr></tbody></table></div><div class=\"wds-tab__content\"><table class=\"wikitable\"><tbody><tr><th>x</th><th>Ancient</th></tr></tbody></table></div></body></html>";

const EARLIER_GACHA_PAGE: &str = "<html><body><div class=\"mw-parser-output\"><table class=\"wikitable\"><tbody><tr><th>Old</th></tr></tbody></table><table class=\"wikitable\"><tbody><tr><th>Rarity</th><th>Cookie</th><th>Soulstone</th></tr><tr><th><a title=\"Common Cookie\">C</a></th><th>40%\n</th><th>38.5%</th></tr><tr><th><a title=\"Epic Cookie\">E</a></th><th>10%</th><th>2%</th></tr></tbody></table></div></body></html>";

fn cell(s: &str) -> Option<String> {
    Some(s.to_string())
}

#[test]
fn cells_are_assembled_by_column() {
    let rows = vec![
        vec![cell("Rarity"), cell("Common"), cell("Rare")],
        vec![cell("Soulstone"), cell("38.5%"), cell("25%\n")],
        vec![cell("Cookie"), cell("40%")],
        vec![cell("Extra"), None, None, None],
    ];
    let v = rarity_chances_from_cells(&rows).unwrap();
    assert_eq!(v.len(), 3);
    assert_eq!(v[0].rarity, Some(Rarity::Common));
    assert_eq!(v[0].soulstone, "38.5");
    assert_eq!(v[0].cookie, "40");
    assert_eq!(v[1].rarity, Some(Rarity::Rare));
    assert_eq!(v[1].soulstone, "25");
    assert_eq!(v[1].cookie, "");
    assert_eq!(v[2].rarity, None);
    assert_eq!(v[2].soulstone, "");
    assert_eq!(v[2].cookie, "");
}

#[test]
fn empty_table_gives_no_columns() {
    let rows: Vec<Vec<Option<String>>> = vec![];
    assert!(rarity_chances_from_cells(&rows).unwrap().is_empty());
    let header_only = vec![vec![cell("Rarity")]];
    assert!(rarity_chances_from_cells(&header_only).unwrap().is_empty());
}

#[test]
fn cell_without_text_is_reported() {
    let rows = vec![vec![cell("Rarity"), cell("Common")], vec![cell("Soulstone"), None]];
    assert_eq!(rarity_chances_from_cells(&rows).err(), Some(ScrapeError::MissingText));
    // Header cells and rows after the third are not read for text.
    let rows = vec![vec![None, cell("Common")]];
    assert!(rarity_chances_from_cells(&rows).is_ok());
}

#[test]
fn gacha_page_is_read() {
    let v = RarityTools::new().get_rarity_chances(GACHA_PAGE);
    assert_eq!(v.len(), 3);
    assert_eq!(v[0].rarity, Some(Rarity::Common));
    assert_eq!(v[0].soulstone, "38.5");
    assert_eq!(v[0].cookie, "40");
    assert_eq!(v[1].rarity, Some(Rarity::Rare));
    assert_eq!(v[1].cookie, "1");
    assert_eq!(v[2].rarity, Some(Rarity::Epic));
    assert_eq!(v[2].soulstone, "10.2");
    assert_eq!(v[2].cookie, "");
}

#[test]
fn gacha_page_without_table_is_reported() {
    let page = GACHA_PAGE.replace("wds-tab__content", "other");
    assert_eq!(RarityTools::new().try_get_rarity_chances(&page).err(), Some(ScrapeError::MissingElement));
}

#[test]
fn earlier_gacha_page_is_read() {
    let v = earlier::RarityTools::new().get_rarity_chances(EARLIER_GACHA_PAGE);
    assert_eq!(v.len(), 2);
    assert_eq!(v[0].rarity, Some(earlier::Rarity::Common));
    assert_eq!(v[0].cookie, "40");
    assert_eq!(v[0].soulstone, "38.5");
    assert_eq!(v[1].rarity, Some(earlier::Rarity::Epic));
    assert_eq!(v[1].cookie, "10");
    assert_eq!(v[1].soulstone, "2");
}

#[test]
fn earlier_gacha_row_without_chances_is_reported() {
    let page = EARLIER_GACHA_PAGE.replace("<th>10%</th><th>2%</th>", "");
    assert_eq!(earlier::RarityTools::new().try_get_rarity_chances(&page).err(), Some(ScrapeError::MissingElement));
    let page = EARLIER_GACHA_PAGE.replace("title=\"Epic Cookie\"", "name=\"Epic Cookie\"");
    assert_eq!(earlier::RarityTools::new().try_get_rarity_chances(&page).err(), Some(ScrapeError::MissingAttribute));
    let page = EARLIER_GACHA_PAGE.replace("<th><a title=\"Epic Cookie\">E</a>", "<th>E<a title=\"Epic Cookie\">E</a>");
    assert_eq!(earlier::RarityTools::new().try_get_rarity_chances(&page).err(), Some(ScrapeError::NotAnElement));
}

#[test]
fn checked_gacha_readers_read_a_readable_page() {
    let v = RarityTools::new().try_get_rarity_chances(GACHA_PAGE).unwrap();
    assert_eq!(v.len(), 3);
    assert_eq!(v[2].rarity, Some(Rarity::Epic));
    let w = earlier::RarityTools::new().try_get_rarity_chances(EARLIER_GACHA_PAGE).unwrap();
    assert_eq!(w.len(), earlier::RarityTools::new().get_rarity_chances(EARLIER_GACHA_PAGE).len());
}
