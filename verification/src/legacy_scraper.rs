//! The first reader of cookie pages, in which an unknown role or rarity reads
//! as `Null`.
use vstd::prelude::*;
use crate::api::character::{
    character_attrs, character_of, character_selectors,
    links_from_page, link_attrs, link_selectors, page_links, COOKIE_LINK_SELECTOR, ILLUSTRATION_SELECTOR,
    NAME_SELECTOR, RARITY_SELECTOR, TYPE_SELECTOR,
};
use crate::dom::{page_of, selectors_valid, PageData, PageView};
use crate::error::ScrapeError;
use crate::extract::{first_attr, first_attr_exec, first_inner_html, first_inner_html_exec, last_text_tail, last_text_tail_exec};
use crate::pattern::{strip_revision, without_revision};
use crate::text::{str_eq, strip_chars, strip_chars_exec};
use crate::tools::{wiki_url, BASE_URL};

verus! {

/// A cookie's role in battle, with `Null` for a role that is not known.
#[derive(Debug, Clone, Copy, PartialEq, Eq, Structural)]
pub enum CharacterType {
    Ambush,
    Bomber,
    Charge,
    Defense,
    Healing,
    Magic,
    Ranged,
    Support,
    Null,
}

impl CharacterType {
    /// The name of a variant.
    pub open spec fn name(self) -> Seq<char> {
        match self {
            CharacterType::Ambush => "Ambush"@,
            CharacterType::Bomber => "Bomber"@,
            CharacterType::Charge => "Charge"@,
            CharacterType::Defense => "Defense"@,
            CharacterType::Healing => "Healing"@,
            CharacterType::Magic => "Magic"@,
            CharacterType::Ranged => "Ranged"@,
            CharacterType::Support => "Support"@,
            CharacterType::Null => "Null"@,
        }
    }

    /// The variant whose name is exactly `s`, if any.
    pub open spec fn from_name(s: Seq<char>) -> Option<CharacterType> {
        if s == "Ambush"@ {
            Some(CharacterType::Ambush)
        } else if s == "Bomber"@ {
            Some(CharacterType::Bomber)
        } else if s == "Charge"@ {
            Some(CharacterType::Charge)
        } else if s == "Defense"@ {
            Some(CharacterType::Defense)
        } else if s == "Healing"@ {
            Some(CharacterType::Healing)
        } else if s == "Magic"@ {
            Some(CharacterType::Magic)
        } else if s == "Ranged"@ {
            Some(CharacterType::Ranged)
        } else if s == "Support"@ {
            Some(CharacterType::Support)
        } else if s == "Null"@ {
            Some(CharacterType::Null)
        } else {
            None
        }
    }

    /// The variant whose name is exactly `s`, if any.
    pub fn from_str(s: &str) -> (r: Option<CharacterType>)
        ensures
            r == CharacterType::from_name(s@),
    {
        if str_eq(s, "Ambush") {
            Some(CharacterType::Ambush)
        } else if str_eq(s, "Bomber") {
            Some(CharacterType::Bomber)
        } else if str_eq(s, "Charge") {
            Some(CharacterType::Charge)
        } else if str_eq(s, "Defense") {
            Some(CharacterType::Defense)
        } else if str_eq(s, "Healing") {
            Some(CharacterType::Healing)
        } else if str_eq(s, "Magic") {
            Some(CharacterType::Magic)
        } else if str_eq(s, "Ranged") {
            Some(CharacterType::Ranged)
        } else if str_eq(s, "Support") {
            Some(CharacterType::Support)
        } else if str_eq(s, "Null") {
            Some(CharacterType::Null)
        } else {
            None
        }
    }
}

/// Each role's name reads back as that role.
pub proof fn lemma_legacy_type_name_round_trip(t: CharacterType)
    ensures
        CharacterType::from_name(t.name()) == Some(t),
{
    reveal_strlit("Ambush");
    reveal_strlit("Bomber");
    reveal_strlit("Charge");
    reveal_strlit("Defense");
    reveal_strlit("Healing");
    reveal_strlit("Magic");
    reveal_strlit("Ranged");
    reveal_strlit("Support");
    reveal_strlit("Null");
    let firsts = seq![
        "Ambush"@[0],
        "Bomber"@[0],
        "Charge"@[0],
        "Defense"@[0],
        "Healing"@[0],
        "Magic"@[0],
        "Ranged"@[0],
        "Support"@[0],
        "Null"@[0],
    ];
    assert(firsts =~= seq!['A', 'B', 'C', 'D', 'H', 'M', 'R', 'S', 'N']);
}

/// How rare a cookie is, with `Null` for a rarity that is not known.
#[derive(Debug, Clone, Copy, PartialEq, Eq, Structural)]
pub enum CharacterRarity {
    Special,
    Common,
    Rare,
    Epic,
    Legendary,
    Ancient,
    Null,
}

impl CharacterRarity {
    /// The name of a variant.
    pub open spec fn name(self) -> Seq<char> {
        match self {
            CharacterRarity::Special => "Special"@,
            CharacterRarity::Common => "Common"@,
            CharacterRarity::Rare => "Rare"@,
            CharacterRarity::Epic => "Epic"@,
            CharacterRarity::Legendary => "Legendary"@,
            CharacterRarity::Ancient => "Ancient"@,
            CharacterRarity::Null => "Null"@,
        }
    }

    /// The variant whose name is exactly `s`, if any.
    pub open spec fn from_name(s: Seq<char>) -> Option<CharacterRarity> {
        if s == "Special"@ {
            Some(CharacterRarity::Special)
        } else if s == "Common"@ {
            Some(CharacterRarity::Common)
        } else if s == "Rare"@ {
            Some(CharacterRarity::Rare)
        } else if s == "Epic"@ {
            Some(CharacterRarity::Epic)
        } else if s == "Legendary"@ {
            Some(CharacterRarity::Legendary)
        } else if s == "Ancient"@ {
            Some(CharacterRarity::Ancient)
        } else if s == "Null"@ {
            Some(CharacterRarity::Null)
        } else {
            None
        }
    }

    /// The variant whose name is exactly `s`, if any.
    pub fn from_str(s: &str) -> (r: Option<CharacterRarity>)
        ensures
            r == CharacterRarity::from_name(s@),
    {
        if str_eq(s, "Special") {
            Some(CharacterRarity::Special)
        } else if str_eq(s, "Common") {
            Some(CharacterRarity::Common)
        } else if str_eq(s, "Rare") {
            Some(CharacterRarity::Rare)
        } else if str_eq(s, "Epic") {
            Some(CharacterRarity::Epic)
        } else if str_eq(s, "Legendary") {
            Some(CharacterRarity::Legendary)
        } else if str_eq(s, "Ancient") {
            Some(CharacterRarity::Ancient)
        } else if str_eq(s, "Null") {
            Some(CharacterRarity::Null)
        } else {
            None
        }
    }
}

/// Each rarity's name reads back as that rarity.
pub proof fn lemma_legacy_rarity_name_round_trip(r: CharacterRarity)
    ensures
        CharacterRarity::from_name(r.name()) == Some(r),
{
    reveal_strlit("Special");
    reveal_strlit("Common");
    reveal_strlit("Rare");
    reveal_strlit("Epic");
    reveal_strlit("Legendary");
    reveal_strlit("Ancient");
    reveal_strlit("Null");
    let firsts = seq![
        "Special"@[0],
        "Common"@[0],
        "Rare"@[0],
        "Epic"@[0],
        "Legendary"@[0],
        "Ancient"@[0],
        "Null"@[0],
    ];
    assert(firsts =~= seq!['S', 'C', 'R', 'E', 'L', 'A', 'N']);
}

/// A cookie as the first reader describes it.
pub struct Character {
    pub name: String,
    pub char_type: CharacterType,
    pub image_path: String,
    pub rarity: CharacterRarity,
}

/// The mathematical view of a [`Character`].
pub struct CharacterView {
    pub name: Seq<char>,
    pub char_type: CharacterType,
    pub image_path: Seq<char>,
    pub rarity: CharacterRarity,
}

impl View for Character {
    type V = CharacterView;

    open spec fn view(&self) -> CharacterView {
        CharacterView { name: self.name@, char_type: self.char_type, image_path: self.image_path@, rarity: self.rarity }
    }
}

/// The CSS selectors that the first reader uses on a cookie's page.
pub struct CharacterSelectors {
    pub name: String,
    pub char_type: String,
    pub imagepath: String,
    pub rarity: String,
}

impl CharacterSelectors {
    /// Whether these are the selectors that [`CharacterSelectors::new`] gives.
    pub open spec fn is_standard(&self) -> bool {
        &&& self.name@ == NAME_SELECTOR@
        &&& self.char_type@ == TYPE_SELECTOR@
        &&& self.imagepath@ == ILLUSTRATION_SELECTOR@
        &&& self.rarity@ == RARITY_SELECTOR@
    }

    /// The selectors of the first reader.
    pub fn new() -> (r: CharacterSelectors)
        ensures
            r.is_standard(),
    {
        CharacterSelectors {
            name: NAME_SELECTOR.to_owned(),
            char_type: TYPE_SELECTOR.to_owned(),
            imagepath: ILLUSTRATION_SELECTOR.to_owned(),
            rarity: RARITY_SELECTOR.to_owned(),
        }
    }
}

/// The selectors a cookie's page is loaded with by the first reader, in the
/// order it numbers them.
pub open spec fn first_reader_selectors() -> Seq<&'static str> {
    seq![NAME_SELECTOR, TYPE_SELECTOR, ILLUSTRATION_SELECTOR, RARITY_SELECTOR]
}

/// The attribute names a cookie's page is loaded with by the first reader.
pub open spec fn first_reader_attrs() -> Seq<&'static str> {
    seq!["src", "alt"]
}

/// A known variant, or `Null`.
pub open spec fn type_or_null(t: Option<CharacterType>) -> CharacterType {
    match t {
        Some(v) => v,
        None => CharacterType::Null,
    }
}

/// A known variant, or `Null`.
pub open spec fn rarity_or_null(r: Option<CharacterRarity>) -> CharacterRarity {
    match r {
        Some(v) => v,
        None => CharacterRarity::Null,
    }
}

/// The view of a result of the first reader.
pub open spec fn first_reader_result_view(r: Result<Character, ScrapeError>) -> Result<CharacterView, ScrapeError> {
    match r {
        Ok(c) => Ok(c@),
        Err(e) => Err(e),
    }
}

/// The cookie that a loaded page describes, as the first reader reads it.
pub open spec fn first_reader_character_of(p: PageView) -> Result<CharacterView, ScrapeError> {
    match last_text_tail(p, 1) {
        Err(e) => Err(e),
        Ok(ty) => match first_inner_html(p, 0) {
            Err(e) => Err(e),
            Ok(name_html) => match first_attr(p, 2, 0) {
                Err(e) => Err(e),
                Ok(src) => match first_attr(p, 3, 1) {
                    Err(e) => Err(e),
                    Ok(alt) => Ok(
                        CharacterView {
                            name: strip_chars(name_html, "\t\n"@),
                            char_type: type_or_null(CharacterType::from_name(ty)),
                            image_path: without_revision(src),
                            rarity: rarity_or_null(CharacterRarity::from_name(strip_chars(alt, "\""@))),
                        },
                    ),
                },
            },
        },
    }
}

/// The cookie that a loaded page describes, as the first reader reads it.
pub fn first_reader_character_from_page(page: &PageData) -> (r: Result<Character, ScrapeError>)
    requires
        page@.wf(4, 2),
    ensures
        first_reader_result_view(r) == first_reader_character_of(page@),
{
    let ty = match last_text_tail_exec(page, 1) {
        Ok(t) => t,
        Err(e) => return Err(e),
    };
    let name_html = match first_inner_html_exec(page, 0) {
        Ok(t) => t,
        Err(e) => return Err(e),
    };
    let src = match first_attr_exec(page, 2, 0) {
        Ok(t) => t,
        Err(e) => return Err(e),
    };
    let image = strip_revision(src.as_str());
    let alt = match first_attr_exec(page, 3, 1) {
        Ok(t) => t,
        Err(e) => return Err(e),
    };
    let rarity_name = strip_chars_exec(alt.as_str(), "\"");
    let char_type = match CharacterType::from_str(ty.as_str()) {
        Some(t) => t,
        None => CharacterType::Null,
    };
    let rarity = match CharacterRarity::from_str(rarity_name.as_str()) {
        Some(r) => r,
        None => CharacterRarity::Null,
    };
    Ok(Character { name: strip_chars_exec(name_html.as_str(), "\t\n"), char_type, image_path: image, rarity })
}

/// The first reader of the wiki: its address, and the selectors for cookie pages.
pub struct Scraper {
    base_url: String,
    selectors: CharacterSelectors,
}

impl Scraper {
    /// The reader's address and selectors are the standard ones.
    #[verifier::type_invariant]
    spec fn standard(self) -> bool {
        &&& self.base_url@ == BASE_URL@
        &&& self.selectors.is_standard()
    }

    /// The address of the wiki that this reader reads.
    pub closed spec fn address(&self) -> Seq<char> {
        self.base_url@
    }

    /// Whether this reader uses the standard selectors of cookie pages.
    pub closed spec fn selectors_standard(&self) -> bool {
        self.selectors.is_standard()
    }

    /// A reader of the wiki at its standard address.
    pub fn new() -> (r: Scraper)
        ensures
            r.address() == BASE_URL@,
            r.selectors_standard(),
    {
        Scraper { base_url: BASE_URL.to_owned(), selectors: CharacterSelectors::new() }
    }

    /// The address of the page at `path` on the wiki.
    pub fn page_url(&self, path: &str) -> (r: String)
        ensures
            r@ == BASE_URL@ + path@,
    {
        proof {
            use_type_invariant(self);
        }
        wiki_url(self.base_url.as_str(), path)
    }

    /// The pages of all cookies linked from the text of the wiki's list of
    /// cookies (links whose element has no `href` read as empty).
    pub fn get_characters_urls(&self, page: &str) -> (r: Result<Vec<String>, ScrapeError>)
        ensures
            r is Ok <==> selectors_valid(page@, link_selectors()),
            r matches Ok(v) ==> v.deep_view() == page_links(page_of(page@, link_selectors(), link_attrs()), false),
            r matches Err(e) ==> e == ScrapeError::InvalidSelector,
    {
        let sels = vec![COOKIE_LINK_SELECTOR];
        let attrs = vec!["href"];
        assert(sels@ == link_selectors());
        assert(attrs@ == link_attrs());
        let data = PageData::load(page, sels.as_slice(), attrs.as_slice())?;
        Ok(links_from_page(&data, false))
    }

    /// Parses the text of a cookie's page with the reader's selectors.
    fn load_cookie_page(&self, page: &str) -> (r: Result<PageData, ScrapeError>)
        ensures
            r is Ok <==> selectors_valid(page@, first_reader_selectors()),
            r matches Ok(d) ==> d@ == page_of(page@, first_reader_selectors(), first_reader_attrs()) && d@.wf(4, 2),
            r matches Err(e) ==> e == ScrapeError::InvalidSelector,
    {
        proof {
            use_type_invariant(self);
        }
        let sels = vec![
            self.selectors.name.as_str(),
            self.selectors.char_type.as_str(),
            self.selectors.imagepath.as_str(),
            self.selectors.rarity.as_str(),
        ];
        let attrs = vec!["src", "alt"];
        assert(sels@.map_values(|s: &str| s@) =~= first_reader_selectors().map_values(|s: &str| s@));
        assert(attrs@ == first_reader_attrs());
        assert(page_of(page@, sels@, attrs@).masks =~= page_of(page@, first_reader_selectors(), first_reader_attrs()).masks);
        PageData::load(page, sels.as_slice(), attrs.as_slice())
    }

    /// The cookie that the text of its wiki page describes. The page must
    /// hold everything the reader takes from it (see
    /// [`first_reader_page_readable`]).
    pub fn get_character(&self, page: &str) -> (r: Character)
        requires
            first_reader_page_readable(page@),
        ensures
            r@ == first_reader_character_of(page_of(page@, first_reader_selectors(), first_reader_attrs()))->Ok_0,
    {
        let data = self.load_cookie_page(page).unwrap();
        first_reader_character_from_page(&data).unwrap()
    }

    /// The cookie that the text of its wiki page describes, or, for a page
    /// that [`Scraper::get_character`] cannot read, why: a refused selector,
    /// or the first element, attribute or text that it lacks.
    pub fn try_get_character(&self, page: &str) -> (r: Result<Character, ScrapeError>)
        ensures
            first_reader_result_view(r) == if selectors_valid(page@, first_reader_selectors()) {
                first_reader_character_of(page_of(page@, first_reader_selectors(), first_reader_attrs()))
            } else {
                Err(ScrapeError::InvalidSelector)
            },
    {
        let data = match self.load_cookie_page(page) {
            Ok(d) => d,
            Err(e) => return Err(e),
        };
        match first_reader_character_from_page(&data) {
            Ok(_) => Ok(self.get_character(page)),
            Err(e) => Err(e),
        }
    }
}

/// Whether the text of a page holds everything that
/// [`Scraper::get_character`] takes from it: its selectors parse, a role cell
/// with text, a heading, an illustration with `src` and a rarity image with
/// `alt`.
pub open spec fn first_reader_page_readable(page: Seq<char>) -> bool {
    &&& selectors_valid(page, first_reader_selectors())
    &&& first_reader_character_of(page_of(page, first_reader_selectors(), first_reader_attrs())) is Ok
}

/// The first reader's name for a role.
pub open spec fn first_reader_type(t: Option<crate::api::character::CharacterType>) -> CharacterType {
    match t {
        Some(crate::api::character::CharacterType::Ambush) => CharacterType::Ambush,
        Some(crate::api::character::CharacterType::Bomber) => CharacterType::Bomber,
        Some(crate::api::character::CharacterType::Charge) => CharacterType::Charge,
        Some(crate::api::character::CharacterType::Defense) => CharacterType::Defense,
        Some(crate::api::character::CharacterType::Healing) => CharacterType::Healing,
        Some(crate::api::character::CharacterType::Magic) => CharacterType::Magic,
        Some(crate::api::character::CharacterType::Ranged) => CharacterType::Ranged,
        Some(crate::api::character::CharacterType::Support) => CharacterType::Support,
        None => CharacterType::Null,
    }
}

/// The first reader's name for a rarity.
pub open spec fn first_reader_rarity(r: Option<crate::api::rarity::Rarity>) -> CharacterRarity {
    match r {
        Some(crate::api::rarity::Rarity::Special) => CharacterRarity::Special,
        Some(crate::api::rarity::Rarity::Common) => CharacterRarity::Common,
        Some(crate::api::rarity::Rarity::Rare) => CharacterRarity::Rare,
        Some(crate::api::rarity::Rarity::Epic) => CharacterRarity::Epic,
        Some(crate::api::rarity::Rarity::Legendary) => CharacterRarity::Legendary,
        Some(crate::api::rarity::Rarity::Ancient) => CharacterRarity::Ancient,
        None => CharacterRarity::Null,
    }
}

/// Where the current reader reads a cookie's page, the first reader reads it
/// too and finds the same cookie: the same name, the illustration as its
/// image, and the same role and rarity, with `Null` where the current reader
/// finds none.
pub proof fn lemma_first_reader_agrees(html: Seq<char>)
    requires
        selectors_valid(html, character_selectors()),
    ensures
        selectors_valid(html, first_reader_selectors()),
        character_of(page_of(html, character_selectors(), character_attrs())) matches Ok(c)
            ==> first_reader_character_of(page_of(html, first_reader_selectors(), first_reader_attrs()))
            == Ok::<CharacterView, ScrapeError>(
            CharacterView {
                name: c.name,
                char_type: first_reader_type(c.char_type),
                image_path: c.illustration_img_path,
                rarity: first_reader_rarity(c.rarity),
            },
        ),
{
    let cur = character_selectors();
    let old = first_reader_selectors();
    assert(old[0] == cur[0] && old[1] == cur[1] && old[2] == cur[2] && old[3] == cur[4]);
    assert forall|k: int| 0 <= k < old.len() implies (#[trigger] crate::dom::html_selector_mask(html, old[k]@)) is Some by {
        if k == 0 {
            assert(crate::dom::html_selector_mask(html, cur[0]@) is Some);
        } else if k == 1 {
            assert(crate::dom::html_selector_mask(html, cur[1]@) is Some);
        } else if k == 2 {
            assert(crate::dom::html_selector_mask(html, cur[2]@) is Some);
        } else {
            assert(crate::dom::html_selector_mask(html, cur[4]@) is Some);
        }
    }
    let p1 = page_of(html, cur, character_attrs());
    let p2 = page_of(html, old, first_reader_attrs());
    assert(p2.masks[0] == p1.masks[0]);
    assert(p2.masks[1] == p1.masks[1]);
    assert(p2.masks[2] == p1.masks[2]);
    assert(p2.masks[3] == p1.masks[4]);
    assert(p2.attrs[0] == p1.attrs[0]);
    assert(p2.attrs[1] == p1.attrs[2]);
    assert(last_text_tail(p2, 1) == last_text_tail(p1, 1));
    assert(first_inner_html(p2, 0) == first_inner_html(p1, 0));
    assert(first_attr(p2, 2, 0) == first_attr(p1, 2, 0));
    assert(first_attr(p2, 3, 1) == first_attr(p1, 4, 2));
}

} // verus!
