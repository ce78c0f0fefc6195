//! The earlier reader of the gacha page, for the table layout in which each
//! row holds one rarity.
use vstd::prelude::*;
use crate::api::rarity::{RarityChanceText, RarityChanceView, chances_result_view};
use crate::dom::{
    first_child, first_child_exec, is_element, is_element_exec, page_of, select_exec, select_in,
    selectors_valid, PageData, PageView,
};
use crate::error::ScrapeError;
use crate::extract::{attr_at_exec, inner_html_at, inner_html_at_exec, last_of, select_doc, select_doc_exec};
use crate::text::{percent_text, percent_text_exec, remove_all, remove_all_exec};

pub use crate::api::rarity::Rarity;

verus! {

/// Selector for the gacha table in the earlier page layout.
pub const LEGACY_GACHA_TABLE_SELECTOR: &'static str = ".mw-parser-output > .wikitable";

/// The selectors the earlier reader loads the gacha page with, in the order
/// it numbers them: the table, its rows, their header cells.
pub open spec fn legacy_gacha_selectors() -> Seq<&'static str> {
    seq![LEGACY_GACHA_TABLE_SELECTOR, "tr", "th"]
}

/// The attribute names the earlier reader loads the gacha page with.
pub open spec fn legacy_gacha_attrs() -> Seq<&'static str> {
    seq!["title"]
}

/// The chances in the row at `row`: the first header cell's first child is an
/// element whose `title`, without " Cookie", names the rarity; the inner HTML
/// of the second and third header cells gives the cookie and soulstone chances.
pub open spec fn row_chance(p: PageView, row: int) -> Result<RarityChanceView, ScrapeError> {
    let ths = select_in(p.nodes, p.masks[2], row);
    if ths.len() == 0 {
        Err(ScrapeError::MissingElement)
    } else {
        match first_child(p.nodes, ths[0]) {
            None => Err(ScrapeError::MissingElement),
            Some(fc) => if !is_element(p.nodes, fc) {
                Err(ScrapeError::NotAnElement)
            } else {
                match p.attrs[0][fc] {
                    None => Err(ScrapeError::MissingAttribute),
                    Some(title) => if ths.len() < 3 {
                        Err(ScrapeError::MissingElement)
                    } else {
                        Ok(
                            RarityChanceView {
                                rarity: Rarity::from_name(remove_all(title, " Cookie"@)),
                                cookie: percent_text(inner_html_at(p, ths[1])),
                                soulstone: percent_text(inner_html_at(p, ths[2])),
                            },
                        )
                    },
                }
            },
        }
    }
}

/// The chances in the rows at `rs`, in order; the first failure, if any.
pub open spec fn rows_chances(p: PageView, rs: Seq<int>) -> Result<Seq<RarityChanceView>, ScrapeError>
    decreases rs.len(),
{
    if rs.len() == 0 {
        Ok(Seq::empty())
    } else {
        match rows_chances(p, rs.drop_last()) {
            Err(e) => Err(e),
            Ok(prev) => match row_chance(p, rs.last()) {
                Err(e) => Err(e),
                Ok(c) => Ok(prev.push(c)),
            },
        }
    }
}

/// The chances that a loaded gacha page gives in the earlier layout: every row
/// but the first of the last gacha table.
pub open spec fn legacy_chances_of(p: PageView) -> Result<Seq<RarityChanceView>, ScrapeError> {
    match last_of(select_doc(p, 0)) {
        None => Err(ScrapeError::MissingElement),
        Some(t) => {
            let rows = select_in(p.nodes, p.masks[1], t);
            if rows.len() == 0 {
                Ok(Seq::empty())
            } else {
                rows_chances(p, rows.drop_first())
            }
        },
    }
}

/// A failure among the first `n` rows is the failure of all of them.
proof fn lemma_rows_error_persists(p: PageView, rs: Seq<int>, n: int, m: int)
    requires
        0 <= n <= m <= rs.len(),
        rows_chances(p, rs.take(n)) is Err,
    ensures
        rows_chances(p, rs.take(m)) == rows_chances(p, rs.take(n)),
    decreases m - n,
{
    if m > n {
        lemma_rows_error_persists(p, rs, n, m - 1);
        assert(rs.take(m).drop_last() =~= rs.take(m - 1));
    }
}

/// The chances in the row at `row`.
fn row_chance_exec(page: &PageData, row: usize) -> (r: Result<RarityChanceText, ScrapeError>)
    requires
        page@.wf(3, 1),
        row < page@.nodes.len(),
    ensures
        match r {
            Ok(c) => row_chance(page@, row as int) == Ok::<RarityChanceView, ScrapeError>(c.deep_view()),
            Err(e) => row_chance(page@, row as int) == Err::<RarityChanceView, ScrapeError>(e),
        },
{
    assert(page@.masks[2].len() == page@.nodes.len());
    assert(page@.attrs[0].len() == page@.nodes.len());
    let ths = select_exec(&page.nodes, &page.masks[2], row);
    let ghost tv = ths@.map_values(|x: usize| x as int);
    if ths.len() == 0 {
        return Err(ScrapeError::MissingElement);
    }
    assert(tv[0] == ths@[0] as int);
    let fc = match first_child_exec(&page.nodes, ths[0]) {
        Some(c) => c,
        None => return Err(ScrapeError::MissingElement),
    };
    if !is_element_exec(&page.nodes, fc) {
        return Err(ScrapeError::NotAnElement);
    }
    let title = match attr_at_exec(page, 0, fc) {
        Some(v) => v,
        None => return Err(ScrapeError::MissingAttribute),
    };
    let name = remove_all_exec(title.as_str(), " Cookie");
    let rarity = Rarity::from_str(name.as_str());
    if ths.len() < 3 {
        return Err(ScrapeError::MissingElement);
    }
    assert(tv[1] == ths@[1] as int && tv[2] == ths@[2] as int);
    let cookie_html = inner_html_at_exec(page, ths[1]);
    let soulstone_html = inner_html_at_exec(page, ths[2]);
    Ok(
        RarityChanceText {
            rarity,
            cookie: percent_text_exec(cookie_html.as_str()),
            soulstone: percent_text_exec(soulstone_html.as_str()),
        },
    )
}

/// The chances that a loaded gacha page gives in the earlier layout.
pub fn legacy_chances_from_page(page: &PageData) -> (r: Result<Vec<RarityChanceText>, ScrapeError>)
    requires
        page@.wf(3, 1),
    ensures
        chances_result_view(r) == legacy_chances_of(page@),
{
    let tables = select_doc_exec(page, 0);
    if tables.len() == 0 {
        return Err(ScrapeError::MissingElement);
    }
    let t = tables[tables.len() - 1];
    assert(tables@.map_values(|x: usize| x as int).last() == t as int);
    assert(page@.masks[1].len() == page@.nodes.len());
    let rows = select_exec(&page.nodes, &page.masks[1], t);
    let ghost all = rows@.map_values(|x: usize| x as int);
    let mut out: Vec<RarityChanceText> = Vec::new();
    if rows.len() == 0 {
        assert(out.deep_view() =~= Seq::<RarityChanceView>::empty());
        return Ok(out);
    }
    let ghost rs = all.drop_first();
    assert(out.deep_view() =~= Seq::<RarityChanceView>::empty());
    assert(rs.take(0).len() == 0);
    let mut i: usize = 1;
    while i < rows.len()
        invariant
            page@.wf(3, 1),
            all == rows@.map_values(|x: usize| x as int),
            all == select_in(page@.nodes, page@.masks[1], t as int),
            last_of(select_doc(page@, 0)) == Some(t as int),
            rs == all.drop_first(),
            forall|m: int| 0 <= m < rows@.len() ==> #[trigger] rows@[m] < page@.nodes.len(),
            1 <= i <= rows@.len(),
            rows_chances(page@, rs.take(i - 1)) == Ok::<Seq<RarityChanceView>, ScrapeError>(out.deep_view()),
        decreases rows@.len() - i,
    {
        assert(rs.take(i as int).drop_last() =~= rs.take(i - 1));
        assert(rs.take(i as int).last() == rows@[i as int] as int);
        match row_chance_exec(page, rows[i]) {
            Ok(c) => {
                let ghost before = out.deep_view();
                out.push(c);
                assert(out.deep_view() =~= before.push(c.deep_view()));
            },
            Err(e) => {
                assert(rows_chances(page@, rs.take(i as int)) == Err::<Seq<RarityChanceView>, ScrapeError>(e));
                proof {
                    lemma_rows_error_persists(page@, rs, i as int, rs.len() as int);
                    assert(rs.take(rs.len() as int) =~= rs);
                }
                return Err(e);
            },
        }
        i = i + 1;
    }
    assert(rs.take(rs.len() as int) =~= rs);
    Ok(out)
}

/// The earlier reader of the gacha page.
pub struct RarityTools {}

impl RarityTools {
    /// A reader of the gacha page in its earlier layout.
    pub fn new() -> (r: RarityTools) {
        RarityTools {}
    }

    /// The chances per rarity that the text of the gacha page gives in its
    /// earlier layout. The page must hold everything the reader takes from it
    /// (see [`legacy_gacha_page_readable`]).
    pub fn get_rarity_chances(&self, page: &str) -> (r: Vec<RarityChanceText>)
        requires
            legacy_gacha_page_readable(page@),
        ensures
            r.deep_view() == legacy_chances_of(page_of(page@, legacy_gacha_selectors(), legacy_gacha_attrs()))->Ok_0,
    {
        let data = load_legacy_gacha_page(page).unwrap();
        legacy_chances_from_page(&data).unwrap()
    }

    /// The chances per rarity that the text of the gacha page gives in its
    /// earlier layout, or, for a page that [`RarityTools::get_rarity_chances`]
    /// cannot read, why: a refused selector, no table, or the first row whose
    /// cells lack what the reader takes.
    pub fn try_get_rarity_chances(&self, page: &str) -> (r: Result<Vec<RarityChanceText>, ScrapeError>)
        ensures
            chances_result_view(r) == if selectors_valid(page@, legacy_gacha_selectors()) {
                legacy_chances_of(page_of(page@, legacy_gacha_selectors(), legacy_gacha_attrs()))
            } else {
                Err(ScrapeError::InvalidSelector)
            },
    {
        let data = match load_legacy_gacha_page(page) {
            Ok(d) => d,
            Err(e) => return Err(e),
        };
        match legacy_chances_from_page(&data) {
            Ok(_) => Ok(self.get_rarity_chances(page)),
            Err(e) => Err(e),
        }
    }
}

/// Parses the text of the gacha page with the earlier reader's selectors.
fn load_legacy_gacha_page(page: &str) -> (r: Result<PageData, ScrapeError>)
    ensures
        r is Ok <==> selectors_valid(page@, legacy_gacha_selectors()),
        r matches Ok(d) ==> d@ == page_of(page@, legacy_gacha_selectors(), legacy_gacha_attrs()) && d@.wf(3, 1),
        r matches Err(e) ==> e == ScrapeError::InvalidSelector,
{
    let sels = vec![LEGACY_GACHA_TABLE_SELECTOR, "tr", "th"];
    let attrs = vec!["title"];
    assert(sels@ == legacy_gacha_selectors());
    assert(attrs@ == legacy_gacha_attrs());
    PageData::load(page, sels.as_slice(), attrs.as_slice())
}

/// Whether the text of a page holds everything that the earlier reader's
/// [`RarityTools::get_rarity_chances`] takes from it: its selectors parse, it
/// has a table, and each of its rows but the first has a first header cell
/// whose first child is an element with a `title`, and two further header
/// cells.
pub open spec fn legacy_gacha_page_readable(page: Seq<char>) -> bool {
    &&& selectors_valid(page, legacy_gacha_selectors())
    &&& legacy_chances_of(page_of(page, legacy_gacha_selectors(), legacy_gacha_attrs())) is Ok
}

} // verus!
