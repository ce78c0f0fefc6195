//! The wiki's address and the paths of the pages that are read.
use vstd::prelude::*;

verus! {

/// The address of the Cookie Run: Kingdom wiki.
pub const BASE_URL: &'static str = "https://cookierunkingdom.fandom.com";
/// The path of the list of cookies.
pub const COOKIE_LIST_PATH: &'static str = "/wiki/List_of_Cookies";
/// The path of the gacha page.
pub const GACHA_PATH: &'static str = "/wiki/Gacha";
/// The path of the treasure page.
pub const TREASURES_PATH: &'static str = "/wiki/Treasures";

/// The address of the page at `path` on the site at `base_url`.
pub fn wiki_url(base_url: &str, path: &str) -> (r: String)
    ensures
        r@ == base_url@ + path@,
{
    let mut r = base_url.to_owned();
    r.append(path);
    r
}

} // verus!
