//! Cookies: their pages on the wiki, and the list of all of them.
use vstd::prelude::*;
use crate::api::rarity::Rarity;
use crate::dom::{html_attribute, html_selector_mask, selectors_valid, page_of, text_under, PageData, PageView};
use crate::error::ScrapeError;
use crate::extract::{
    attr_at_exec, first_attr, first_attr_exec, first_inner_html, first_inner_html_exec, inner_html_at,
    inner_html_at_exec, last_text_tail, last_text_tail_exec, select_doc, select_doc_exec,
};
use crate::pattern::{strip_revision, without_revision};
use crate::text::{contains_seq, contains_str, str_eq, strip_chars, strip_chars_exec};

verus! {

/// A cookie's role in battle.
#[derive(Debug, Clone, Copy, PartialEq, Eq, Structural)]
pub enum CharacterType {
    Ambush,
    Bomber,
    Charge,
    Defense,
    Healing,
    Magic,
    Ranged,
    Support,
}

impl CharacterType {
    /// The name of a variant, as the wiki writes it.
    pub open spec fn name(self) -> Seq<char> {
        match self {
            CharacterType::Ambush => "Ambush"@,
            CharacterType::Bomber => "Bomber"@,
            CharacterType::Charge => "Charge"@,
            CharacterType::Defense => "Defense"@,
            CharacterType::Healing => "Healing"@,
            CharacterType::Magic => "Magic"@,
            CharacterType::Ranged => "Ranged"@,
            CharacterType::Support => "Support"@,
        }
    }

    /// The variant whose name is exactly `s`, if any.
    pub open spec fn from_name(s: Seq<char>) -> Option<CharacterType> {
        if s == "Ambush"@ {
            Some(CharacterType::Ambush)
        } else if s == "Bomber"@ {
            Some(CharacterType::Bomber)
        } else if s == "Charge"@ {
            Some(CharacterType::Charge)
        } else if s == "Defense"@ {
            Some(CharacterType::Defense)
        } else if s == "Healing"@ {
            Some(CharacterType::Healing)
        } else if s == "Magic"@ {
            Some(CharacterType::Magic)
        } else if s == "Ranged"@ {
            Some(CharacterType::Ranged)
        } else if s == "Support"@ {
            Some(CharacterType::Support)
        } else {
            None
        }
    }

    /// The variant whose name is exactly `s`, if any.
    pub fn from_str(s: &str) -> (r: Option<CharacterType>)
        ensures
            r == CharacterType::from_name(s@),
    {
        if str_eq(s, "Ambush") {
            Some(CharacterType::Ambush)
        } else if str_eq(s, "Bomber") {
            Some(CharacterType::Bomber)
        } else if str_eq(s, "Charge") {
            Some(CharacterType::Charge)
        } else if str_eq(s, "Defense") {
            Some(CharacterType::Defense)
        } else if str_eq(s, "Healing") {
            Some(CharacterType::Healing)
        } else if str_eq(s, "Magic") {
            Some(CharacterType::Magic)
        } else if str_eq(s, "Ranged") {
            Some(CharacterType::Ranged)
        } else if str_eq(s, "Support") {
            Some(CharacterType::Support)
        } else {
            None
        }
    }
}

/// Each role's name reads back as that role.
pub proof fn lemma_character_type_name_round_trip(t: CharacterType)
    ensures
        CharacterType::from_name(t.name()) == Some(t),
{
    reveal_strlit("Ambush");
    reveal_strlit("Bomber");
    reveal_strlit("Charge");
    reveal_strlit("Defense");
    reveal_strlit("Healing");
    reveal_strlit("Magic");
    reveal_strlit("Ranged");
    reveal_strlit("Support");
    let firsts = seq![
        "Ambush"@[0],
        "Bomber"@[0],
        "Charge"@[0],
        "Defense"@[0],
        "Healing"@[0],
        "Magic"@[0],
        "Ranged"@[0],
        "Support"@[0],
    ];
    assert(firsts =~= seq!['A', 'B', 'C', 'D', 'H', 'M', 'R', 'S']);
}

/// A string reads as a role only if it is that role's name.
pub proof fn lemma_character_type_from_name_exact(s: Seq<char>)
    ensures
        CharacterType::from_name(s) matches Some(t) ==> s == t.name(),
{
}

/// Where a cookie stands in formation.
#[derive(Debug, Clone, Copy, PartialEq, Eq, Structural)]
pub enum CharacterPos {
    Rear,
    Middle,
    Front,
}

impl CharacterPos {
    /// The name of a variant, as the wiki writes it.
    pub open spec fn name(self) -> Seq<char> {
        match self {
            CharacterPos::Rear => "Rear"@,
            CharacterPos::Middle => "Middle"@,
            CharacterPos::Front => "Front"@,
        }
    }

    /// The variant whose name is exactly `s`, if any.
    pub open spec fn from_name(s: Seq<char>) -> Option<CharacterPos> {
        if s == "Rear"@ {
            Some(CharacterPos::Rear)
        } else if s == "Middle"@ {
            Some(CharacterPos::Middle)
        } else if s == "Front"@ {
            Some(CharacterPos::Front)
        } else {
            None
        }
    }

    /// The variant whose name is exactly `s`, if any.
    pub fn from_str(s: &str) -> (r: Option<CharacterPos>)
        ensures
            r == CharacterPos::from_name(s@),
    {
        if str_eq(s, "Rear") {
            Some(CharacterPos::Rear)
        } else if str_eq(s, "Middle") {
            Some(CharacterPos::Middle)
        } else if str_eq(s, "Front") {
            Some(CharacterPos::Front)
        } else {
            None
        }
    }
}

/// Each position's name reads back as that position.
pub proof fn lemma_character_pos_name_round_trip(p: CharacterPos)
    ensures
        CharacterPos::from_name(p.name()) == Some(p),
{
    reveal_strlit("Rear");
    reveal_strlit("Middle");
    reveal_strlit("Front");
    assert("Middle"@[0] != "Rear"@[0] && "Front"@[0] != "Rear"@[0] && "Front"@[0] != "Middle"@[0]);
}

/// A string reads as a position only if it is that position's name.
pub proof fn lemma_character_pos_from_name_exact(s: Seq<char>)
    ensures
        CharacterPos::from_name(s) matches Some(p) ==> s == p.name(),
{
}

/// A cookie as its wiki page describes it.
pub struct Character {
    pub name: String,
    pub char_type: Option<CharacterType>,
    pub illustration_img_path: String,
    pub soulstone_img_path: String,
    pub rarity: Option<Rarity>,
    pub position: Option<CharacterPos>,
}

/// The mathematical view of a [`Character`].
pub struct CharacterView {
    pub name: Seq<char>,
    pub char_type: Option<CharacterType>,
    pub illustration_img_path: Seq<char>,
    pub soulstone_img_path: Seq<char>,
    pub rarity: Option<Rarity>,
    pub position: Option<CharacterPos>,
}

impl View for Character {
    type V = CharacterView;

    open spec fn view(&self) -> CharacterView {
        CharacterView {
            name: self.name@,
            char_type: self.char_type,
            illustration_img_path: self.illustration_img_path@,
            soulstone_img_path: self.soulstone_img_path@,
            rarity: self.rarity,
            position: self.position,
        }
    }
}

/// Selector for a cookie's name.
pub const NAME_SELECTOR: &'static str = ".page-header__title#firstHeading";
/// Selector for a cookie's role.
pub const TYPE_SELECTOR: &'static str = "[data-source='role']";
/// Selector for a cookie's illustration.
pub const ILLUSTRATION_SELECTOR: &'static str = ".pi-image-thumbnail";
/// Selector for a cookie's soulstone image.
pub const SOULSTONE_SELECTOR: &'static str = "img[data-image-name*='Soulstone']";
/// Selector for the image that names a cookie's rarity.
pub const RARITY_SELECTOR: &'static str = "[data-source='rarity'] img";
/// Selector for a cookie's position.
pub const POSITION_SELECTOR: &'static str = "td[data-source='position']";
/// Selector for the links in the list of cookies.
pub const COOKIE_LINK_SELECTOR: &'static str = ".wikitable > tbody th > a:not(.image)";

/// The CSS selectors that a cookie's page is read with.
pub struct CharacterSelectors {
    pub name: String,
    pub char_type: String,
    pub illustration_img_path: String,
    pub soulstone_img_path: String,
    pub rarity: String,
    pub position: String,
}

impl CharacterSelectors {
    /// Whether these are the selectors that [`CharacterSelectors::new`] gives.
    pub open spec fn is_standard(&self) -> bool {
        &&& self.name@ == NAME_SELECTOR@
        &&& self.char_type@ == TYPE_SELECTOR@
        &&& self.illustration_img_path@ == ILLUSTRATION_SELECTOR@
        &&& self.soulstone_img_path@ == SOULSTONE_SELECTOR@
        &&& self.rarity@ == RARITY_SELECTOR@
        &&& self.position@ == POSITION_SELECTOR@
    }

    /// The selectors for the current layout of a cookie's page.
    pub fn new() -> (r: CharacterSelectors)
        ensures
            r.is_standard(),
    {
        CharacterSelectors {
            name: NAME_SELECTOR.to_owned(),
            char_type: TYPE_SELECTOR.to_owned(),
            illustration_img_path: ILLUSTRATION_SELECTOR.to_owned(),
            soulstone_img_path: SOULSTONE_SELECTOR.to_owned(),
            rarity: RARITY_SELECTOR.to_owned(),
            position: POSITION_SELECTOR.to_owned(),
        }
    }
}

/// The selectors a cookie's page is loaded with, in the order the reader
/// numbers them.
pub open spec fn character_selectors() -> Seq<&'static str> {
    seq![NAME_SELECTOR, TYPE_SELECTOR, ILLUSTRATION_SELECTOR, SOULSTONE_SELECTOR, RARITY_SELECTOR, POSITION_SELECTOR]
}

/// The attribute names a cookie's page is loaded with, in order.
pub open spec fn character_attrs() -> Seq<&'static str> {
    seq!["src", "data-src", "alt"]
}

/// The selector that the list of cookies is loaded with.
pub open spec fn link_selectors() -> Seq<&'static str> {
    seq![COOKIE_LINK_SELECTOR]
}

/// The attribute names that the list of cookies is loaded with.
pub open spec fn link_attrs() -> Seq<&'static str> {
    seq!["href"]
}

/// The value of an optional attribute, or the empty string.
pub open spec fn or_empty(v: Option<Seq<char>>) -> Seq<char> {
    match v {
        Some(s) => s,
        None => Seq::empty(),
    }
}

/// The link targets (attribute 0) of the elements at `ms`, in order; when
/// `skip_non_playable`, without those whose inner HTML mentions "non-playable".
pub open spec fn links_of(p: PageView, ms: Seq<int>, skip_non_playable: bool) -> Seq<Seq<char>>
    decreases ms.len(),
{
    if ms.len() == 0 {
        Seq::empty()
    } else {
        let prev = links_of(p, ms.drop_last(), skip_non_playable);
        let j = ms.last();
        if skip_non_playable && contains_seq(inner_html_at(p, j), "non-playable"@) {
            prev
        } else {
            prev.push(or_empty(p.attrs[0][j]))
        }
    }
}

/// The link targets of all matches of selector 0 in the document.
pub open spec fn page_links(p: PageView, skip_non_playable: bool) -> Seq<Seq<char>> {
    links_of(p, select_doc(p, 0), skip_non_playable)
}

/// The link targets (`href`, or empty) of the elements that selector 0
/// matches, in document order; when `skip_non_playable`, leaving out those
/// whose inner HTML mentions "non-playable".
pub fn links_from_page(page: &PageData, skip_non_playable: bool) -> (r: Vec<String>)
    requires
        page@.wf(1, 1),
    ensures
        r.deep_view() == page_links(page@, skip_non_playable),
{
    let found = select_doc_exec(page, 0);
    let ghost fv = found@.map_values(|x: usize| x as int);
    let mut out: Vec<String> = Vec::new();
    let mut i: usize = 0;
    while i < found.len()
        invariant
            page@.wf(1, 1),
            fv == found@.map_values(|x: usize| x as int),
            fv == select_doc(page@, 0),
            forall|m: int| 0 <= m < found@.len() ==> #[trigger] found@[m] < page@.nodes.len(),
            i <= found@.len(),
            out.deep_view() == links_of(page@, fv.take(i as int), skip_non_playable),
        decreases found@.len() - i,
    {
        let j = found[i];
        assert(fv.take(i + 1).drop_last() =~= fv.take(i as int));
        assert(fv.take(i + 1).last() == j as int);
        let skip = if skip_non_playable {
            let inner = inner_html_at_exec(page, j);
            contains_str(inner.as_str(), "non-playable")
        } else {
            false
        };
        if !skip {
            let target = match attr_at_exec(page, 0, j) {
                Some(v) => v,
                None => String::new(),
            };
            out.push(target);
        }
        assert(out.deep_view() =~= links_of(page@, fv.take(i + 1), skip_non_playable));
        i = i + 1;
    }
    assert(fv.take(found@.len() as int) =~= fv);
    out
}

/// The result that the page-level readers give for a page's text.
pub open spec fn character_result_view(r: Result<Character, ScrapeError>) -> Result<CharacterView, ScrapeError> {
    match r {
        Ok(c) => Ok(c@),
        Err(e) => Err(e),
    }
}

/// The cookie that a loaded page describes (selectors numbered as in
/// [`character_selectors`], attributes as in [`character_attrs`]).
pub open spec fn character_of(p: PageView) -> Result<CharacterView, ScrapeError> {
    match last_text_tail(p, 1) {
        Err(e) => Err(e),
        Ok(ty) => match last_text_tail(p, 5) {
            Err(e) => Err(e),
            Ok(pos) => match first_inner_html(p, 0) {
                Err(e) => Err(e),
                Ok(name_html) => match first_attr(p, 2, 0) {
                    Err(e) => Err(e),
                    Ok(src) => match first_attr(p, 3, 1) {
                        Err(e) => Err(e),
                        Ok(soulstone) => match first_attr(p, 4, 2) {
                            Err(e) => Err(e),
                            Ok(alt) => Ok(
                                CharacterView {
                                    name: strip_chars(name_html, "\t\n"@),
                                    char_type: CharacterType::from_name(ty),
                                    illustration_img_path: without_revision(src),
                                    soulstone_img_path: soulstone,
                                    rarity: Rarity::from_name(strip_chars(alt, "\""@)),
                                    position: CharacterPos::from_name(pos),
                                },
                            ),
                        },
                    },
                },
            },
        },
    }
}

/// The cookie that a loaded page describes: role and position from the text
/// of the last matching cell without its first character, name from the
/// heading's inner HTML without tabs and line breaks, illustration path
/// without its revision suffix, soulstone path, and rarity from the rarity
/// image's `alt` text without quotes.
pub fn character_from_page(page: &PageData) -> (r: Result<Character, ScrapeError>)
    requires
        page@.wf(6, 3),
    ensures
        character_result_view(r) == character_of(page@),
{
    let ty = match last_text_tail_exec(page, 1) {
        Ok(t) => t,
        Err(e) => return Err(e),
    };
    let pos = match last_text_tail_exec(page, 5) {
        Ok(t) => t,
        Err(e) => return Err(e),
    };
    let name_html = match first_inner_html_exec(page, 0) {
        Ok(t) => t,
        Err(e) => return Err(e),
    };
    let src = match first_attr_exec(page, 2, 0) {
        Ok(t) => t,
        Err(e) => return Err(e),
    };
    let illustration = strip_revision(src.as_str());
    let soulstone = match first_attr_exec(page, 3, 1) {
        Ok(t) => t,
        Err(e) => return Err(e),
    };
    let alt = match first_attr_exec(page, 4, 2) {
        Ok(t) => t,
        Err(e) => return Err(e),
    };
    let rarity_name = strip_chars_exec(alt.as_str(), "\"");
    Ok(
        Character {
            name: strip_chars_exec(name_html.as_str(), "\t\n"),
            char_type: CharacterType::from_str(ty.as_str()),
            illustration_img_path: illustration,
            soulstone_img_path: soulstone,
            rarity: Rarity::from_str(rarity_name.as_str()),
            position: CharacterPos::from_str(pos.as_str()),
        },
    )
}

/// Reads cookie pages and the list of cookies.
pub struct CharacterTools {
    selectors: CharacterSelectors,
}

impl CharacterTools {
    /// The reader's selectors are the standard ones.
    #[verifier::type_invariant]
    spec fn standard_selectors(self) -> bool {
        self.selectors.is_standard()
    }

    /// Whether this reader uses the standard selectors.
    pub closed spec fn selectors_standard(&self) -> bool {
        self.selectors.is_standard()
    }

    /// A reader with the standard selectors.
    pub fn new() -> (r: CharacterTools)
        ensures
            r.selectors_standard(),
    {
        CharacterTools { selectors: CharacterSelectors::new() }
    }

    /// The pages of the playable cookies, as linked from the text of the
    /// wiki's list of cookies; fails only when a selector is refused.
    pub fn get_characters_urls(&self, page: &str) -> (r: Result<Vec<String>, ScrapeError>)
        ensures
            r is Ok <==> selectors_valid(page@, link_selectors()),
            r matches Ok(v) ==> v.deep_view() == page_links(page_of(page@, link_selectors(), link_attrs()), true),
            r matches Err(e) ==> e == ScrapeError::InvalidSelector,
    {
        let sels = vec![COOKIE_LINK_SELECTOR];
        let attrs = vec!["href"];
        assert(sels@ == link_selectors());
        assert(attrs@ == link_attrs());
        let data = PageData::load(page, sels.as_slice(), attrs.as_slice())?;
        Ok(links_from_page(&data, true))
    }

    /// Parses the text of a cookie's page with the reader's selectors.
    fn load_cookie_page(&self, page: &str) -> (r: Result<PageData, ScrapeError>)
        ensures
            r is Ok <==> selectors_valid(page@, character_selectors()),
            r matches Ok(d) ==> d@ == page_of(page@, character_selectors(), character_attrs()) && d@.wf(6, 3),
            r matches Err(e) ==> e == ScrapeError::InvalidSelector,
    {
        proof {
            use_type_invariant(self);
        }
        let sels = vec![
            self.selectors.name.as_str(),
            self.selectors.char_type.as_str(),
            self.selectors.illustration_img_path.as_str(),
            self.selectors.soulstone_img_path.as_str(),
            self.selectors.rarity.as_str(),
            self.selectors.position.as_str(),
        ];
        let attrs = vec!["src", "data-src", "alt"];
        assert(sels@.map_values(|s: &str| s@) =~= character_selectors().map_values(|s: &str| s@));
        assert(attrs@ == character_attrs());
        assert(page_of(page@, sels@, attrs@).masks =~= page_of(page@, character_selectors(), character_attrs()).masks);
        PageData::load(page, sels.as_slice(), attrs.as_slice())
    }

    /// The cookie that the text of its wiki page describes. The page must
    /// hold everything the reader takes from it (see [`cookie_page_readable`]).
    pub fn get_character(&self, page: &str) -> (r: Character)
        requires
            cookie_page_readable(page@),
        ensures
            r@ == character_of(page_of(page@, character_selectors(), character_attrs()))->Ok_0,
    {
        let data = self.load_cookie_page(page).unwrap();
        character_from_page(&data).unwrap()
    }

    /// The cookie that the text of its wiki page describes, or, for a page
    /// that [`CharacterTools::get_character`] cannot read, why: a refused
    /// selector, or the first element, attribute or text that it lacks.
    pub fn try_get_character(&self, page: &str) -> (r: Result<Character, ScrapeError>)
        ensures
            character_result_view(r) == if selectors_valid(page@, character_selectors()) {
                character_of(page_of(page@, character_selectors(), character_attrs()))
            } else {
                Err(ScrapeError::InvalidSelector)
            },
    {
        let data = match self.load_cookie_page(page) {
            Ok(d) => d,
            Err(e) => return Err(e),
        };
        match character_from_page(&data) {
            Ok(_) => Ok(self.get_character(page)),
            Err(e) => Err(e),
        }
    }
}

/// Whether the text of a page holds everything that
/// [`CharacterTools::get_character`] takes from it: its selectors parse, role
/// and position cells with text, a heading, an illustration with `src`, a
/// soulstone image with `data-src` and a rarity image with `alt`.
pub open spec fn cookie_page_readable(page: Seq<char>) -> bool {
    &&& selectors_valid(page, character_selectors())
    &&& character_of(page_of(page, character_selectors(), character_attrs())) is Ok
}

/// What each field of a cookie read from a page is, in terms of the parsed
/// page itself: the name is the inner HTML of the first heading match without
/// tabs and line breaks; the role and position are the text of the last
/// matching cell without its first character; the illustration is the `src`
/// of the first illustration match without its revision suffix; the soulstone
/// image is the `data-src` (never the `src`) of the first element that the
/// soulstone selector matches; the rarity is named by the `alt` of the first
/// rarity image, without quotes.
pub proof fn lemma_cookie_record_fields(html: Seq<char>)
    ensures
        ({
            let p = page_of(html, character_selectors(), character_attrs());
            character_of(p) matches Ok(c) ==> {
                let name = select_doc(p, 0);
                let role = select_doc(p, 1);
                let ill = select_doc(p, 2);
                let soul = select_doc(p, 3);
                let rar = select_doc(p, 4);
                let pos = select_doc(p, 5);
                &&& p.masks[3] == html_selector_mask(html, SOULSTONE_SELECTOR@).unwrap()
                &&& name.len() > 0 && role.len() > 0 && ill.len() > 0
                &&& soul.len() > 0 && rar.len() > 0 && pos.len() > 0
                &&& c.name == strip_chars(inner_html_at(p, name[0]), "\t\n"@)
                &&& text_under(p.nodes, role.last()).len() > 0
                &&& c.char_type == CharacterType::from_name(text_under(p.nodes, role.last()).drop_first())
                &&& text_under(p.nodes, pos.last()).len() > 0
                &&& c.position == CharacterPos::from_name(text_under(p.nodes, pos.last()).drop_first())
                &&& html_attribute(html, "src"@)[ill[0]] == Some(html_attribute(html, "src"@)[ill[0]]->Some_0)
                &&& c.illustration_img_path == without_revision(html_attribute(html, "src"@)[ill[0]]->Some_0)
                &&& html_attribute(html, "data-src"@)[soul[0]] == Some(c.soulstone_img_path)
                &&& html_attribute(html, "alt"@)[rar[0]] == Some(html_attribute(html, "alt"@)[rar[0]]->Some_0)
                &&& c.rarity == Rarity::from_name(strip_chars(html_attribute(html, "alt"@)[rar[0]]->Some_0, "\""@))
            }
        }),
{
}

/// A cookie's name, as read from its page, holds no tab and no line break.
pub proof fn lemma_character_name_has_no_breaks(p: PageView)
    ensures
        character_of(p) matches Ok(c) ==> forall|i: int|
            0 <= i < c.name.len() ==> #[trigger] c.name[i] != '\t' && c.name[i] != '\n',
{
    if let Ok(c) = character_of(p) {
        let name_html = first_inner_html(p, 0)->Ok_0;
        reveal_strlit("\t\n");
        crate::text::lemma_strip_chars_removes(name_html, "\t\n"@);
        assert forall|i: int| 0 <= i < c.name.len() implies #[trigger] c.name[i] != '\t' && c.name[i] != '\n' by {
            assert(!"\t\n"@.contains(c.name[i]));
            assert("\t\n"@[0] == '\t' && "\t\n"@[1] == '\n');
        }
    }
}

/// Whether the element at `j` is marked non-playable: its inner HTML mentions
/// "non-playable".
pub open spec fn non_playable_at(p: PageView, j: int) -> bool {
    contains_seq(inner_html_at(p, j), "non-playable"@)
}

/// `idx` picks `a` out of `b`: one strictly increasing position of `b` per
/// element of `a`, holding that element.
pub open spec fn picks_out(idx: Seq<int>, a: Seq<Seq<char>>, b: Seq<Seq<char>>) -> bool {
    &&& idx.len() == a.len()
    &&& forall|i: int| 0 <= i < idx.len() ==> 0 <= #[trigger] idx[i] < b.len() && a[i] == b[idx[i]]
    &&& forall|i: int, j: int| 0 <= i < j < idx.len() ==> idx[i] < idx[j]
}

/// Whether `a` is `b` with some elements left out, the rest in their order.
pub open spec fn is_ordered_subsequence(a: Seq<Seq<char>>, b: Seq<Seq<char>>) -> bool {
    exists|idx: Seq<int>| #[trigger] picks_out(idx, a, b)
}

/// The positions in `ms` (counted from 0) of the elements that are not marked
/// non-playable, in order.
pub open spec fn kept_positions(p: PageView, ms: Seq<int>) -> Seq<int>
    decreases ms.len(),
{
    if ms.len() == 0 {
        Seq::empty()
    } else {
        let prev = kept_positions(p, ms.drop_last());
        if non_playable_at(p, ms.last()) {
            prev
        } else {
            prev.push(ms.len() - 1)
        }
    }
}

/// The filtered links are the unfiltered links at the kept positions, and all
/// positions are kept exactly when no element is marked non-playable.
proof fn lemma_kept_positions(p: PageView, ms: Seq<int>)
    ensures
        picks_out(kept_positions(p, ms), links_of(p, ms, true), links_of(p, ms, false)),
        kept_positions(p, ms).len() == ms.len() <==> forall|m: int| 0 <= m < ms.len() ==> !#[trigger] non_playable_at(p, ms[m]),
    decreases ms.len(),
{
    lemma_links_count(p, ms);
    if ms.len() > 0 {
        let init = ms.drop_last();
        lemma_kept_positions(p, init);
        lemma_links_count(p, init);
        let k = kept_positions(p, ms);
        let kp = kept_positions(p, init);
        let full = links_of(p, ms, false);
        let fi = links_of(p, init, false);
        assert(full == fi.push(or_empty(p.attrs[0][ms.last()])));
        assert forall|i: int| 0 <= i < kp.len() implies #[trigger] full[kp[i]] == fi[kp[i]] by {}
        if non_playable_at(p, ms.last()) {
            assert(!(forall|m: int| 0 <= m < ms.len() ==> !#[trigger] non_playable_at(p, ms[m]))) by {
                assert(ms[ms.len() - 1] == ms.last());
            }
        } else {
            assert forall|i: int| 0 <= i < k.len() implies 0 <= #[trigger] k[i] < full.len()
                && links_of(p, ms, true)[i] == full[k[i]] by {
                if i < kp.len() {
                    assert(k[i] == kp[i]);
                }
            }
            if forall|m: int| 0 <= m < init.len() ==> !#[trigger] non_playable_at(p, init[m]) {
                assert forall|m: int| 0 <= m < ms.len() implies !#[trigger] non_playable_at(p, ms[m]) by {
                    if m < init.len() {
                        assert(ms[m] == init[m]);
                    }
                }
            } else {
                let m = choose|m: int| 0 <= m < init.len() && #[trigger] non_playable_at(p, init[m]);
                assert(ms[m] == init[m]);
            }
        }
    }
}

/// Leaving out the links marked non-playable keeps the other links in their
/// order: the filtered list is an ordered subsequence of the unfiltered one,
/// and the two are equal exactly when no matched element is marked
/// non-playable. (The current reader of the list of cookies filters; the
/// first reader does not.)
pub proof fn lemma_links_subsequence(p: PageView, ms: Seq<int>)
    ensures
        is_ordered_subsequence(links_of(p, ms, true), links_of(p, ms, false)),
        links_of(p, ms, true) == links_of(p, ms, false) <==> forall|m: int|
            0 <= m < ms.len() ==> !#[trigger] non_playable_at(p, ms[m]),
{
    lemma_kept_positions(p, ms);
    lemma_links_count(p, ms);
    let k = kept_positions(p, ms);
    assert(picks_out(k, links_of(p, ms, true), links_of(p, ms, false)));
    if forall|m: int| 0 <= m < ms.len() ==> !#[trigger] non_playable_at(p, ms[m]) {
        lemma_links_unfiltered(p, ms);
    }
}

/// Where no element is marked non-playable, filtering leaves nothing out.
proof fn lemma_links_unfiltered(p: PageView, ms: Seq<int>)
    requires
        forall|m: int| 0 <= m < ms.len() ==> !#[trigger] non_playable_at(p, ms[m]),
    ensures
        links_of(p, ms, true) == links_of(p, ms, false),
    decreases ms.len(),
{
    if ms.len() > 0 {
        let init = ms.drop_last();
        assert forall|m: int| 0 <= m < init.len() implies !#[trigger] non_playable_at(p, init[m]) by {
            assert(init[m] == ms[m]);
        }
        lemma_links_unfiltered(p, init);
        assert(!non_playable_at(p, ms[ms.len() - 1]));
    }
}

/// The links that the current reader of the list of cookies returns are those
/// of the first reader with the non-playable ones left out, in order, and the
/// same list exactly when no link is marked non-playable.
pub proof fn lemma_link_readers_agree(p: PageView)
    ensures
        is_ordered_subsequence(page_links(p, true), page_links(p, false)),
        page_links(p, true) == page_links(p, false) <==> forall|m: int|
            0 <= m < select_doc(p, 0).len() ==> !#[trigger] non_playable_at(p, select_doc(p, 0)[m]),
{
    lemma_links_subsequence(p, select_doc(p, 0));
}

/// Leaving out the non-playable links keeps at most as many links as there
/// are matches, and without leaving any out there is exactly one per match.
pub proof fn lemma_links_count(p: PageView, ms: Seq<int>)
    ensures
        links_of(p, ms, false).len() == ms.len(),
        links_of(p, ms, true).len() <= ms.len(),
    decreases ms.len(),
{
    if ms.len() > 0 {
        lemma_links_count(p, ms.drop_last());
    }
}

} // verus!
