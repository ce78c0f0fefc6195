use cookie_run_kingdom_wiki_scraper::api::character::{CharacterPos, CharacterTools, CharacterType};
use cookie_run_kingdom_wiki_scraper::api::rarity::Rarity;
use cookie_run_kingdom_wiki_scraper::character as earlier;
use cookie_run_kingdom_wiki_scraper::error::ScrapeError;
use cookie_run_kingdom_wiki_scraper::legacy_scraper::{CharacterRarity, Scraper};
use cookie_run_kingdom_wiki_scraper::legacy_scraper;

const LIST_PAGE: &str = "<html><body><table class=\"wikitable\"><tbody><tr><th><a class=\"image\" href=\"/img\">x</a><a href=\"/wiki/GingerBrave\">GingerBrave</a></th><th><a href=\"/wiki/Strawberry_Cookie\">Strawberry Cookie</a></th></tr><tr><th><a href=\"/wiki/Pure_Vanilla\">Pure Vanilla (non-playable)</a></th><th><a>No link</a></th></tr></tbody></table><p><a href=\"/wiki/Elsewhere\">x</a></p></body></html>";

const COOKIE_PAGE: &str = "<html><body><h1 class=\"page-header__title\" id=\"firstHeading\">\n\tGingerbrave Cookie\n</h1><figure><img class=\"pi-image-thumbnail\" src=\"https://static.wikia.nocookie.net/x/images/a/ab/GB.png/revision/latest?cb=2021\"></figure><div data-source=\"rarity\"><img alt='\"Common\"' src=\"c.png\"></div><img data-image-name=\"Gingerbrave Soulstone.png\" data-src=\"https://static.wikia.nocookie.net/x/soul.png\"><table><tbody><tr><td data-source=\"role\"> Wrong</td></tr><tr><td data-source=\"role\"> Charge</td></tr><tr><td data-source=\"position\"> Front</td></tr></tbody></table></body></html>";

#[test]
fn playable_cookie_links_are_listed() {
    let tools = CharacterTools::new();
    let urls = tools.get_characters_urls(LIST_PAGE).unwrap();
    assert_eq!(urls, vec!["/wiki/GingerBrave".to_string(), "/wiki/Strawberry_Cookie".to_string(), String::new()]);
}

#[test]
fn first_reader_lists_every_cookie_link() {
    let urls = Scraper::new().get_characters_urls(LIST_PAGE).unwrap();
    assert_eq!(
        urls,
        vec![
            "/wiki/GingerBrave".to_string(),
            "/wiki/Strawberry_Cookie".to_string(),
            "/wiki/Pure_Vanilla".to_string(),
            String::new()
        ]
    );
}

#[test]
fn earlier_reader_lists_playable_cookie_links() {
    let urls = earlier::CharacterTools::new().get_characters_urls(LIST_PAGE).unwrap();
    assert_eq!(urls.len(), 3);
}

#[test]
fn cookie_page_is_read() {
    let c = CharacterTools::new().get_character(COOKIE_PAGE);
    assert_eq!(c.name, "Gingerbrave Cookie");
    assert_eq!(c.char_type, Some(CharacterType::Charge));
    assert_eq!(c.illustration_img_path, "https://static.wikia.nocookie.net/x/images/a/ab/GB.png");
    assert_eq!(c.soulstone_img_path, "https://static.wikia.nocookie.net/x/soul.png");
    assert_eq!(c.rarity, Some(Rarity::Common));
    assert_eq!(c.position, Some(CharacterPos::Front));
}

#[test]
fn earlier_reader_reads_cookie_page() {
    let c = earlier::CharacterTools::new().get_character(COOKIE_PAGE);
    assert_eq!(c.name, "Gingerbrave Cookie");
    assert_eq!(c.char_type, Some(CharacterType::Charge));
    assert_eq!(c.image_path, "https://static.wikia.nocookie.net/x/images/a/ab/GB.png");
    assert_eq!(c.rarity, Some(Rarity::Common));
    assert_eq!(c.position, Some(CharacterPos::Front));
}

#[test]
fn first_reader_reads_cookie_page() {
    let c = Scraper::new().get_character(COOKIE_PAGE);
    assert_eq!(c.name, "Gingerbrave Cookie");
    assert_eq!(c.char_type, legacy_scraper::CharacterType::Charge);
    assert_eq!(c.image_path, "https://static.wikia.nocookie.net/x/images/a/ab/GB.png");
    assert_eq!(c.rarity, CharacterRarity::Common);
}

#[test]
fn unknown_names_read_as_none_or_null() {
    let page = COOKIE_PAGE.replace(" Charge", " Tank").replace("\"Common\"", "Mythic");
    let c = CharacterTools::new().get_character(&page);
    assert_eq!(c.char_type, None);
    assert_eq!(c.rarity, None);
    let l = Scraper::new().get_character(&page);
    assert_eq!(l.char_type, legacy_scraper::CharacterType::Null);
    assert_eq!(l.rarity, CharacterRarity::Null);
}

#[test]
fn missing_role_is_reported() {
    let page = COOKIE_PAGE.replace("data-source=\"role\"", "data-source=\"other\"");
    assert_eq!(CharacterTools::new().try_get_character(&page).err(), Some(ScrapeError::MissingElement));
}

#[test]
fn empty_position_is_reported() {
    let page = COOKIE_PAGE.replace(" Front", "");
    assert_eq!(CharacterTools::new().try_get_character(&page).err(), Some(ScrapeError::EmptyText));
}

#[test]
fn missing_soulstone_source_is_reported() {
    let page = COOKIE_PAGE.replace("data-src=", "data-x=");
    assert_eq!(CharacterTools::new().try_get_character(&page).err(), Some(ScrapeError::MissingAttribute));
    // The earlier reader does not look at the soulstone.
    assert!(earlier::CharacterTools::new().try_get_character(&page).is_ok());
}

#[test]
fn missing_heading_is_reported() {
    let page = COOKIE_PAGE.replace("firstHeading", "otherHeading");
    assert_eq!(CharacterTools::new().try_get_character(&page).err(), Some(ScrapeError::MissingElement));
}

#[test]
fn checked_cookie_readers_read_a_readable_page() {
    let c = CharacterTools::new().try_get_character(COOKIE_PAGE).unwrap();
    assert_eq!(c.name, "Gingerbrave Cookie");
    assert_eq!(c.position, Some(CharacterPos::Front));
    let e = earlier::CharacterTools::new().try_get_character(COOKIE_PAGE).unwrap();
    assert_eq!(e.image_path, "https://static.wikia.nocookie.net/x/images/a/ab/GB.png");
    let f = Scraper::new().try_get_character(COOKIE_PAGE).unwrap();
    assert_eq!(f.name, "Gingerbrave Cookie");
}

#[test]
fn link_readers_agree_up_to_non_playable_links() {
    let current = CharacterTools::new().get_characters_urls(LIST_PAGE).unwrap();
    let first = Scraper::new().get_characters_urls(LIST_PAGE).unwrap();
    let kept: Vec<String> = vec![first[0].clone(), first[1].clone(), first[3].clone()];
    assert_eq!(current, kept);
    let plain = LIST_PAGE.replace(" (non-playable)", "");
    assert_eq!(
        CharacterTools::new().get_characters_urls(&plain).unwrap(),
        Scraper::new().get_characters_urls(&plain).unwrap()
    );
}
