use cookie_run_kingdom_wiki_scraper::cli::{parse_flags, with_trailing_separator};
use cookie_run_kingdom_wiki_scraper::text::{
    contains_str, percent_text_exec, remove_all_exec, str_eq, strip_chars_exec,
};
use cookie_run_kingdom_wiki_scraper::tools::{wiki_url, BASE_URL, COOKIE_LIST_PATH};

#[test]
fn contains_finds_substrings() {
    assert!(contains_str("Pure Vanilla (non-playable)", "non-playable"));
    assert!(!contains_str("Pure Vanilla", "non-playable"));
    assert!(contains_str("abc", ""));
    assert!(!contains_str("ab", "abc"));
}

#[test]
fn remove_all_drops_each_occurrence() {
    assert_eq!(remove_all_exec("Epic_Treasures", "_Treasures"), "Epic");
    assert_eq!(remove_all_exec("Common Cookie", " Cookie"), "Common");
    assert_eq!(remove_all_exec("aabb", "ab"), "ab");
    assert_eq!(remove_all_exec("xyz", ""), "xyz");
}

#[test]
fn strip_chars_drops_listed_characters() {
    assert_eq!(strip_chars_exec("\n\tGingerBrave\tCookie\n", "\t\n"), "GingerBraveCookie");
    assert_eq!(strip_chars_exec("\"Epic\"", "\""), "Epic");
}

#[test]
fn percent_text_drops_breaks_and_signs() {
    assert_eq!(percent_text_exec("38.5%\n"), "38.5");
    assert_eq!(percent_text_exec(""), "");
}

#[test]
fn str_eq_compares_characters() {
    assert!(str_eq("Epic", "Epic"));
    assert!(!str_eq("Epic", "epic"));
    assert!(!str_eq("Epic", "Epi"));
}

#[test]
fn characters_beyond_ascii_are_kept_whole() {
    assert_eq!(strip_chars_exec("héllo%", "%"), "héllo");
    assert_eq!(remove_all_exec("naïve Cookie", " Cookie"), "naïve");
    assert!(str_eq("é", "é"));
}

#[test]
fn wiki_url_joins_base_and_path() {
    assert_eq!(
        wiki_url(BASE_URL, COOKIE_LIST_PATH),
        "https://cookierunkingdom.fandom.com/wiki/List_of_Cookies"
    );
}

#[test]
fn stripping_twice_is_stripping_once() {
    let once = strip_chars_exec("\t\na\tb\n", "\t\n");
    assert_eq!(strip_chars_exec(&once, "\t\n"), once);
    assert_eq!(once, "ab");
}

#[test]
fn removing_an_absent_string_keeps_the_text() {
    assert_eq!(remove_all_exec("Legendary", "_Treasures"), "Legendary");
    assert!(remove_all_exec("x_Treasures_Treasures", "_Treasures").len() <= "x_Treasures_Treasures".len());
}

#[test]
fn flags_are_read_from_arguments() {
    let args = vec!["prog".to_string(), "--save-chances".to_string(), "--other".to_string()];
    let f = parse_flags(&args);
    assert!(!f.save_imgs);
    assert!(f.save_chances);
    assert!(!f.save_treasures);
    let all = vec!["--save-treasures".to_string(), "--save-imgs".to_string(), "--save-chances".to_string()];
    let f = parse_flags(&all);
    assert!(f.save_imgs && f.save_chances && f.save_treasures);
}

#[test]
fn trailing_separator_is_added_once() {
    assert_eq!(with_trailing_separator("./scraper_output", '/'), "./scraper_output/");
    assert_eq!(with_trailing_separator("./scraper_output/", '/'), "./scraper_output/");
    assert_eq!(with_trailing_separator("", '/'), "/");
}
