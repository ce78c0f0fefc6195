//! The earlier reader of cookie pages: one image path per cookie, and the
//! treasure page read alongside.
use vstd::prelude::*;
use crate::api::rarity::Rarity;
use crate::api::topping::{treasure_page_readable, treasures_of, TreasureView};
use crate::dom::{page_of, selectors_valid, PageData, PageView};
use crate::api::character::{character_attrs, character_of, character_selectors};
use crate::error::ScrapeError;
use crate::extract::{
    first_attr, first_attr_exec, first_inner_html, first_inner_html_exec, last_text_tail,
    last_text_tail_exec,
};
use crate::pattern::{strip_revision, without_revision};
use crate::text::{strip_chars, strip_chars_exec};

pub use crate::api::character::{CharacterPos, CharacterType};

verus! {

/// A cookie as the earlier reader describes it.
pub struct Character {
    pub name: String,
    pub char_type: Option<CharacterType>,
    pub image_path: String,
    pub rarity: Option<Rarity>,
    pub position: Option<CharacterPos>,
}

/// The mathematical view of a [`Character`].
pub struct CharacterView {
    pub name: Seq<char>,
    pub char_type: Option<CharacterType>,
    pub image_path: Seq<char>,
    pub rarity: Option<Rarity>,
    pub position: Option<CharacterPos>,
}

impl View for Character {
    type V = CharacterView;

    open spec fn view(&self) -> CharacterView {
        CharacterView {
            name: self.name@,
            char_type: self.char_type,
            image_path: self.image_path@,
            rarity: self.rarity,
            position: self.position,
        }
    }
}

/// A treasure as the earlier reader describes it.
pub struct Treasure {
    pub name: String,
    pub image_path: String,
    pub rarity: Rarity,
}

/// The mathematical view of a [`Treasure`].
pub struct LegacyTreasureView {
    pub name: Seq<char>,
    pub image_path: Seq<char>,
    pub rarity: Rarity,
}

impl DeepView for Treasure {
    type V = LegacyTreasureView;

    open spec fn deep_view(&self) -> LegacyTreasureView {
        LegacyTreasureView { name: self.name@, image_path: self.image_path@, rarity: self.rarity }
    }
}

/// A treasure's record with its illustration path read as its image path.
pub open spec fn legacy_treasure(t: TreasureView) -> LegacyTreasureView {
    LegacyTreasureView { name: t.name, image_path: t.illustration_path, rarity: t.rarity }
}

/// The CSS selectors that the earlier reader uses on a cookie's page.
pub struct CharacterSelectors {
    pub name: String,
    pub char_type: String,
    pub imagepath: String,
    pub rarity: String,
    pub position: String,
}

impl CharacterSelectors {
    /// Whether these are the selectors that [`CharacterSelectors::new`] gives.
    pub open spec fn is_standard(&self) -> bool {
        &&& self.name@ == crate::api::character::NAME_SELECTOR@
        &&& self.char_type@ == crate::api::character::TYPE_SELECTOR@
        &&& self.imagepath@ == crate::api::character::ILLUSTRATION_SELECTOR@
        &&& self.rarity@ == crate::api::character::RARITY_SELECTOR@
        &&& self.position@ == crate::api::character::POSITION_SELECTOR@
    }

    /// The selectors of the earlier reader.
    pub fn new() -> (r: CharacterSelectors)
        ensures
            r.is_standard(),
    {
        CharacterSelectors {
            name: crate::api::character::NAME_SELECTOR.to_owned(),
            char_type: crate::api::character::TYPE_SELECTOR.to_owned(),
            imagepath: crate::api::character::ILLUSTRATION_SELECTOR.to_owned(),
            rarity: crate::api::character::RARITY_SELECTOR.to_owned(),
            position: crate::api::character::POSITION_SELECTOR.to_owned(),
        }
    }
}

/// The selectors a cookie's page is loaded with by the earlier reader, in
/// the order it numbers them.
pub open spec fn legacy_character_selectors() -> Seq<&'static str> {
    seq![
        crate::api::character::NAME_SELECTOR,
        crate::api::character::TYPE_SELECTOR,
        crate::api::character::ILLUSTRATION_SELECTOR,
        crate::api::character::RARITY_SELECTOR,
        crate::api::character::POSITION_SELECTOR,
    ]
}

/// The attribute names a cookie's page is loaded with by the earlier reader.
pub open spec fn legacy_character_attrs() -> Seq<&'static str> {
    seq!["src", "alt"]
}

/// The view of a result of the earlier reader.
pub open spec fn legacy_character_result_view(r: Result<Character, ScrapeError>) -> Result<CharacterView, ScrapeError> {
    match r {
        Ok(c) => Ok(c@),
        Err(e) => Err(e),
    }
}

/// The cookie that a loaded page describes, as the earlier reader reads it.
pub open spec fn legacy_character_of(p: PageView) -> Result<CharacterView, ScrapeError> {
    match last_text_tail(p, 1) {
        Err(e) => Err(e),
        Ok(ty) => match last_text_tail(p, 4) {
            Err(e) => Err(e),
            Ok(pos) => match first_inner_html(p, 0) {
                Err(e) => Err(e),
                Ok(name_html) => match first_attr(p, 2, 0) {
                    Err(e) => Err(e),
                    Ok(src) => match first_attr(p, 3, 1) {
                        Err(e) => Err(e),
                        Ok(alt) => Ok(
                            CharacterView {
                                name: strip_chars(name_html, "\t\n"@),
                                char_type: CharacterType::from_name(ty),
                                image_path: without_revision(src),
                                rarity: Rarity::from_name(strip_chars(alt, "\""@)),
                                position: CharacterPos::from_name(pos),
                            },
                        ),
                    },
                },
            },
        },
    }
}

/// The cookie that a loaded page describes, as the earlier reader reads it.
pub fn legacy_character_from_page(page: &PageData) -> (r: Result<Character, ScrapeError>)
    requires
        page@.wf(5, 2),
    ensures
        legacy_character_result_view(r) == legacy_character_of(page@),
{
    let ty = match last_text_tail_exec(page, 1) {
        Ok(t) => t,
        Err(e) => return Err(e),
    };
    let pos = match last_text_tail_exec(page, 4) {
        Ok(t) => t,
        Err(e) => return Err(e),
    };
    let name_html = match first_inner_html_exec(page, 0) {
        Ok(t) => t,
        Err(e) => return Err(e),
    };
    let src = match first_attr_exec(page, 2, 0) {
        Ok(t) => t,
        Err(e) => return Err(e),
    };
    let image = strip_revision(src.as_str());
    let alt = match first_attr_exec(page, 3, 1) {
        Ok(t) => t,
        Err(e) => return Err(e),
    };
    let rarity_name = strip_chars_exec(alt.as_str(), "\"");
    Ok(
        Character {
            name: strip_chars_exec(name_html.as_str(), "\t\n"),
            char_type: CharacterType::from_str(ty.as_str()),
            image_path: image,
            rarity: Rarity::from_str(rarity_name.as_str()),
            position: CharacterPos::from_str(pos.as_str()),
        },
    )
}

/// The view of a list of treasures of the earlier reader, or of the error.
pub open spec fn legacy_treasures_result_view(r: Result<Vec<Treasure>, ScrapeError>) -> Result<Seq<LegacyTreasureView>, ScrapeError> {
    match r {
        Ok(v) => Ok(v.deep_view()),
        Err(e) => Err(e),
    }
}

/// The treasures of a loaded treasure page, as the earlier reader records them.
pub open spec fn legacy_treasures_of(p: PageView) -> Result<Seq<LegacyTreasureView>, ScrapeError> {
    match treasures_of(p) {
        Ok(ts) => Ok(ts.map_values(|t: TreasureView| legacy_treasure(t))),
        Err(e) => Err(e),
    }
}

/// The earlier reader of cookie pages, the list of cookies and the treasure page.
pub struct CharacterTools {
    selectors: CharacterSelectors,
}

impl CharacterTools {
    /// The reader's selectors are the standard ones.
    #[verifier::type_invariant]
    spec fn standard_selectors(self) -> bool {
        self.selectors.is_standard()
    }

    /// Whether this reader uses the standard selectors.
    pub closed spec fn selectors_standard(&self) -> bool {
        self.selectors.is_standard()
    }

    /// A reader with the standard selectors.
    pub fn new() -> (r: CharacterTools)
        ensures
            r.selectors_standard(),
    {
        CharacterTools { selectors: CharacterSelectors::new() }
    }

    /// The pages of the playable cookies, as linked from the text of the
    /// wiki's list of cookies (as the current reader reads them).
    pub fn get_characters_urls(&self, page: &str) -> (r: Result<Vec<String>, ScrapeError>)
        ensures
            r is Ok <==> selectors_valid(page@, crate::api::character::link_selectors()),
            r matches Ok(v) ==> v.deep_view() == crate::api::character::page_links(
                page_of(page@, crate::api::character::link_selectors(), crate::api::character::link_attrs()),
                true,
            ),
            r matches Err(e) ==> e == ScrapeError::InvalidSelector,
    {
        crate::api::character::CharacterTools::new().get_characters_urls(page)
    }

    /// Parses the text of a cookie's page with the reader's selectors.
    fn load_cookie_page(&self, page: &str) -> (r: Result<PageData, ScrapeError>)
        ensures
            r is Ok <==> selectors_valid(page@, legacy_character_selectors()),
            r matches Ok(d) ==> d@ == page_of(page@, legacy_character_selectors(), legacy_character_attrs()) && d@.wf(5, 2),
            r matches Err(e) ==> e == ScrapeError::InvalidSelector,
    {
        proof {
            use_type_invariant(self);
        }
        let sels = vec![
            self.selectors.name.as_str(),
            self.selectors.char_type.as_str(),
            self.selectors.imagepath.as_str(),
            self.selectors.rarity.as_str(),
            self.selectors.position.as_str(),
        ];
        let attrs = vec!["src", "alt"];
        assert(sels@.map_values(|s: &str| s@) =~= legacy_character_selectors().map_values(|s: &str| s@));
        assert(attrs@ == legacy_character_attrs());
        assert(page_of(page@, sels@, attrs@).masks =~= page_of(page@, legacy_character_selectors(), legacy_character_attrs()).masks);
        PageData::load(page, sels.as_slice(), attrs.as_slice())
    }

    /// The cookie that the text of its wiki page describes. The page must
    /// hold everything the reader takes from it (see
    /// [`legacy_cookie_page_readable`]).
    pub fn get_character(&self, page: &str) -> (r: Character)
        requires
            legacy_cookie_page_readable(page@),
        ensures
            r@ == legacy_character_of(page_of(page@, legacy_character_selectors(), legacy_character_attrs()))->Ok_0,
    {
        let data = self.load_cookie_page(page).unwrap();
        legacy_character_from_page(&data).unwrap()
    }

    /// The cookie that the text of its wiki page describes, or, for a page
    /// that [`CharacterTools::get_character`] cannot read, why: a refused
    /// selector, or the first element, attribute or text that it lacks.
    pub fn try_get_character(&self, page: &str) -> (r: Result<Character, ScrapeError>)
        ensures
            legacy_character_result_view(r) == if selectors_valid(page@, legacy_character_selectors()) {
                legacy_character_of(page_of(page@, legacy_character_selectors(), legacy_character_attrs()))
            } else {
                Err(ScrapeError::InvalidSelector)
            },
    {
        let data = match self.load_cookie_page(page) {
            Ok(d) => d,
            Err(e) => return Err(e),
        };
        match legacy_character_from_page(&data) {
            Ok(_) => Ok(self.get_character(page)),
            Err(e) => Err(e),
        }
    }

    /// The treasures that the text of the wiki's treasure page lists, read as
    /// the current reader reads them. The page must hold everything that
    /// reader takes from it (see [`treasure_page_readable`]).
    pub fn get_treasures(&self, page: &str) -> (r: Vec<Treasure>)
        requires
            treasure_page_readable(page@),
        ensures
            r.deep_view() == legacy_treasures_of(
                page_of(page@, crate::api::topping::treasure_selectors(), crate::api::topping::treasure_attrs()),
            )->Ok_0,
    {
        let current = crate::api::topping::ToppingTools::new().get_treasures(page);
        legacy_treasures(&current)
    }

    /// The treasures that the text of the wiki's treasure page lists, or, for a
    /// page that [`CharacterTools::get_treasures`] cannot read, why.
    pub fn try_get_treasures(&self, page: &str) -> (r: Result<Vec<Treasure>, ScrapeError>)
        ensures
            legacy_treasures_result_view(r) == if selectors_valid(page@, crate::api::topping::treasure_selectors()) {
                legacy_treasures_of(page_of(page@, crate::api::topping::treasure_selectors(), crate::api::topping::treasure_attrs()))
            } else {
                Err(ScrapeError::InvalidSelector)
            },
    {
        match crate::api::topping::ToppingTools::new().try_get_treasures(page) {
            Ok(_) => Ok(self.get_treasures(page)),
            Err(e) => Err(e),
        }
    }
}

/// The treasures of the current reader as the earlier reader records them.
fn legacy_treasures(current: &Vec<crate::api::topping::Treasure>) -> (r: Vec<Treasure>)
    ensures
        r.deep_view() == current.deep_view().map_values(|t: TreasureView| legacy_treasure(t)),
{
    let ghost cv = current.deep_view();
    let mut out: Vec<Treasure> = Vec::new();
    let mut i: usize = 0;
    while i < current.len()
        invariant
            cv == current.deep_view(),
            i <= current@.len(),
            out.deep_view() =~= cv.take(i as int).map_values(|t: TreasureView| legacy_treasure(t)),
        decreases current@.len() - i,
    {
        let t = &current[i];
        let ghost before = out.deep_view();
        let item = Treasure { name: t.name.clone(), image_path: t.illustration_path.clone(), rarity: t.rarity };
        assert(item.deep_view() == legacy_treasure(cv[i as int]));
        out.push(item);
        assert(out.deep_view() =~= before.push(legacy_treasure(cv[i as int])));
        assert(cv.take(i + 1).map_values(|t: TreasureView| legacy_treasure(t)) =~= cv.take(
            i as int,
        ).map_values(|t: TreasureView| legacy_treasure(t)).push(legacy_treasure(cv[i as int])));
        i = i + 1;
    }
    assert(cv.take(current@.len() as int) =~= cv);
    out
}

/// Whether the text of a page holds everything that the earlier reader's
/// [`CharacterTools::get_character`] takes from it: its selectors parse, role
/// and position cells with text, a heading, an illustration with `src` and a
/// rarity image with `alt`.
pub open spec fn legacy_cookie_page_readable(page: Seq<char>) -> bool {
    &&& selectors_valid(page, legacy_character_selectors())
    &&& legacy_character_of(page_of(page, legacy_character_selectors(), legacy_character_attrs())) is Ok
}

/// Where the current reader reads a cookie's page, the earlier reader reads
/// the same page too, and finds the same cookie: the same name, role, rarity
/// and position, with the illustration as its image.
pub proof fn lemma_earlier_reader_agrees(html: Seq<char>)
    requires
        selectors_valid(html, character_selectors()),
    ensures
        selectors_valid(html, legacy_character_selectors()),
        character_of(page_of(html, character_selectors(), character_attrs())) matches Ok(c) ==> legacy_character_of(
            page_of(html, legacy_character_selectors(), legacy_character_attrs()),
        ) == Ok::<CharacterView, ScrapeError>(
            CharacterView {
                name: c.name,
                char_type: c.char_type,
                image_path: c.illustration_img_path,
                rarity: c.rarity,
                position: c.position,
            },
        ),
{
    let cur = character_selectors();
    let old = legacy_character_selectors();
    assert(old[0] == cur[0] && old[1] == cur[1] && old[2] == cur[2] && old[3] == cur[4] && old[4] == cur[5]);
    assert forall|k: int| 0 <= k < old.len() implies (#[trigger] crate::dom::html_selector_mask(html, old[k]@)) is Some by {
        if k == 0 {
            assert(crate::dom::html_selector_mask(html, cur[0]@) is Some);
        } else if k == 1 {
            assert(crate::dom::html_selector_mask(html, cur[1]@) is Some);
        } else if k == 2 {
            assert(crate::dom::html_selector_mask(html, cur[2]@) is Some);
        } else if k == 3 {
            assert(crate::dom::html_selector_mask(html, cur[4]@) is Some);
        } else {
            assert(crate::dom::html_selector_mask(html, cur[5]@) is Some);
        }
    }
    let p1 = page_of(html, cur, character_attrs());
    let p2 = page_of(html, old, legacy_character_attrs());
    assert(p2.masks[0] == p1.masks[0]);
    assert(p2.masks[1] == p1.masks[1]);
    assert(p2.masks[2] == p1.masks[2]);
    assert(p2.masks[3] == p1.masks[4]);
    assert(p2.masks[4] == p1.masks[5]);
    assert(p2.attrs[0] == p1.attrs[0]);
    assert(p2.attrs[1] == p1.attrs[2]);
    assert(last_text_tail(p2, 1) == last_text_tail(p1, 1));
    assert(last_text_tail(p2, 4) == last_text_tail(p1, 5));
    assert(first_inner_html(p2, 0) == first_inner_html(p1, 0));
    assert(first_attr(p2, 2, 0) == first_attr(p1, 2, 0));
    assert(first_attr(p2, 3, 1) == first_attr(p1, 4, 2));
}

} // verus!
