//! Treasures, as the wiki's treasure page lists them.
use vstd::prelude::*;
use crate::api::rarity::Rarity;
use crate::dom::{
    first_child, first_child_exec, is_element, is_element_exec, next_sibling, next_sibling_exec,
    page_of, select_exec, select_in, selectors_valid, subtree_end, PageData, PageView,
};
use crate::error::ScrapeError;
use crate::extract::{attr_at_exec, first_of, select_doc, select_doc_exec};
use crate::pattern::{strip_revision, without_revision};
use crate::text::{remove_all, remove_all_exec};

verus! {

/// A treasure: its name, the path of its illustration, and its rarity.
pub struct Treasure {
    pub name: String,
    pub illustration_path: String,
    pub rarity: Rarity,
}

/// The mathematical view of a [`Treasure`].
pub struct TreasureView {
    pub name: Seq<char>,
    pub illustration_path: Seq<char>,
    pub rarity: Rarity,
}

impl DeepView for Treasure {
    type V = TreasureView;

    open spec fn deep_view(&self) -> TreasureView {
        TreasureView { name: self.name@, illustration_path: self.illustration_path@, rarity: self.rarity }
    }
}

/// Selector for the header table above each rarity's treasures.
pub const TREASURE_HEADER_SELECTOR: &'static str = "table[border='0']";
/// Selector for the headline inside a header table.
pub const HEADLINE_SELECTOR: &'static str = ".mw-headline";
/// Selector for the cell of a treasure.
pub const TREASURE_CELL_SELECTOR: &'static str = "th[style='text-align:left']";

/// The selectors that the treasure page is loaded with, in the order the
/// reader numbers them.
pub open spec fn treasure_selectors() -> Seq<&'static str> {
    seq![TREASURE_HEADER_SELECTOR, HEADLINE_SELECTOR, TREASURE_CELL_SELECTOR]
}

/// The attribute names that the treasure page is loaded with, in order.
pub open spec fn treasure_attrs() -> Seq<&'static str> {
    seq!["id", "title", "href"]
}

/// The treasure in the cell at `e`, under a header whose rarity text is `rt`:
/// the cell's first child must be an element with a `title` (the name) and an
/// `href` (the illustration path, without its revision suffix).
pub open spec fn cell_treasure(p: PageView, e: int, rt: Seq<char>) -> Result<TreasureView, ScrapeError> {
    match first_child(p.nodes, e) {
        None => Err(ScrapeError::MissingElement),
        Some(fc) => if !is_element(p.nodes, fc) {
            Err(ScrapeError::NotAnElement)
        } else {
            match p.attrs[1][fc] {
                None => Err(ScrapeError::MissingAttribute),
                Some(title) => match p.attrs[2][fc] {
                    None => Err(ScrapeError::MissingAttribute),
                    Some(href) => match Rarity::from_name(rt) {
                        None => Err(ScrapeError::UnknownRarity),
                        Some(r) => Ok(TreasureView { name: title, illustration_path: without_revision(href), rarity: r }),
                    },
                },
            }
        },
    }
}

/// The treasures in the cells at `cs`, in order; the first failure, if any.
pub open spec fn cells_treasures(p: PageView, cs: Seq<int>, rt: Seq<char>) -> Result<Seq<TreasureView>, ScrapeError>
    decreases cs.len(),
{
    if cs.len() == 0 {
        Ok(Seq::empty())
    } else {
        match cells_treasures(p, cs.drop_last(), rt) {
            Err(e) => Err(e),
            Ok(prev) => match cell_treasure(p, cs.last(), rt) {
                Err(e) => Err(e),
                Ok(t) => Ok(prev.push(t)),
            },
        }
    }
}

/// The treasures read from the cells at `cs` are one per cell, in order, each
/// what its own cell gives.
proof fn lemma_cells_treasures_each(p: PageView, cs: Seq<int>, rt: Seq<char>)
    ensures
        cells_treasures(p, cs, rt) matches Ok(ts) ==> ts.len() == cs.len() && forall|i: int|
            0 <= i < cs.len() ==> #[trigger] cell_treasure(p, cs[i], rt) == Ok::<TreasureView, ScrapeError>(ts[i]),
    decreases cs.len(),
{
    if cs.len() > 0 {
        lemma_cells_treasures_each(p, cs.drop_last(), rt);
        if let Ok(ts) = cells_treasures(p, cs, rt) {
            let prev = cells_treasures(p, cs.drop_last(), rt)->Ok_0;
            assert forall|i: int| 0 <= i < cs.len() implies #[trigger] cell_treasure(p, cs[i], rt) == Ok::<TreasureView, ScrapeError>(ts[i]) by {
                if i < cs.len() - 1 {
                    assert(cs[i] == cs.drop_last()[i]);
                    assert(ts[i] == prev[i]);
                }
            }
        }
    }
}

/// Under a header table, one treasure is read for every treasure cell inside
/// the block two siblings after the header, whichever row holds it, in
/// document order: the cells are exactly the nodes of that block that the
/// cell selector marks. Each treasure's name is the `title` and its
/// illustration the `href` (without its revision suffix) of its cell's first
/// child, and its rarity is the one that the header's headline `id`, without
/// "_Treasures", names.
pub proof fn lemma_header_treasures_per_cell(p: PageView, h: int)
    requires
        p.wf(3, 3),
        0 <= h < p.nodes.len(),
    ensures
        header_treasures(p, h) matches Ok(ts) ==> {
            let hl = select_in(p.nodes, p.masks[1], h)[0];
            let s2 = next_sibling(p.nodes, next_sibling(p.nodes, h)->Some_0)->Some_0;
            let cs = select_in(p.nodes, p.masks[2], s2);
            &&& 0 <= s2 < p.nodes.len()
            &&& forall|j: int| s2 < j < subtree_end(p.nodes, s2) && p.masks[2][j] ==> cs.contains(j)
            &&& forall|i: int| 0 <= i < cs.len() ==> s2 < #[trigger] cs[i] < subtree_end(p.nodes, s2) && p.masks[2][cs[i]]
            &&& forall|i: int, k: int| 0 <= i < k < cs.len() ==> cs[i] < cs[k]
            &&& ts.len() == cs.len()
            &&& forall|i: int| #![trigger ts[i]] 0 <= i < ts.len() ==> {
                &&& first_child(p.nodes, cs[i]) == Some(cs[i] + 1)
                &&& p.attrs[1][cs[i] + 1] == Some(ts[i].name)
                &&& p.attrs[2][cs[i] + 1] is Some
                &&& ts[i].illustration_path == without_revision(p.attrs[2][cs[i] + 1]->Some_0)
                &&& Rarity::from_name(remove_all(p.attrs[0][hl]->Some_0, "_Treasures"@)) == Some(ts[i].rarity)
            }
        },
{
    if let Ok(ts) = header_treasures(p, h) {
        let hl = select_in(p.nodes, p.masks[1], h)[0];
        let s1 = next_sibling(p.nodes, h)->Some_0;
        let s2 = next_sibling(p.nodes, s1)->Some_0;
        let cs = select_in(p.nodes, p.masks[2], s2);
        let rt = remove_all(p.attrs[0][hl]->Some_0, "_Treasures"@);
        assert(cells_treasures(p, cs, rt) == Ok::<Seq<TreasureView>, ScrapeError>(ts));
        crate::dom::lemma_subtree_end_from_bounds(p.nodes, p.nodes[h].depth, h + 1);
        crate::dom::lemma_subtree_end_from_bounds(p.nodes, p.nodes[s1].depth, s1 + 1);
        crate::dom::lemma_select_in(p.nodes, p.masks[2], s2);
        lemma_cells_treasures_each(p, cs, rt);
        assert forall|i: int| #![trigger ts[i]] 0 <= i < ts.len() implies {
            &&& first_child(p.nodes, cs[i]) == Some(cs[i] + 1)
            &&& p.attrs[1][cs[i] + 1] == Some(ts[i].name)
            &&& p.attrs[2][cs[i] + 1] is Some
            &&& ts[i].illustration_path == without_revision(p.attrs[2][cs[i] + 1]->Some_0)
            &&& Rarity::from_name(remove_all(p.attrs[0][hl]->Some_0, "_Treasures"@)) == Some(ts[i].rarity)
        } by {
            assert(cell_treasure(p, cs[i], rt) == Ok::<TreasureView, ScrapeError>(ts[i]));
        }
    }
}

/// The treasures under the header table at `h`: its headline's `id` without
/// "_Treasures" names their rarity, and they are the cells inside the node
/// two siblings after the header, which must be an element.
pub open spec fn header_treasures(p: PageView, h: int) -> Result<Seq<TreasureView>, ScrapeError> {
    match first_of(select_in(p.nodes, p.masks[1], h)) {
        None => Err(ScrapeError::MissingElement),
        Some(hl) => match p.attrs[0][hl] {
            None => Err(ScrapeError::MissingAttribute),
            Some(id) => {
                let rt = remove_all(id, "_Treasures"@);
                match next_sibling(p.nodes, h) {
                    None => Err(ScrapeError::MissingElement),
                    Some(s1) => match next_sibling(p.nodes, s1) {
                        None => Err(ScrapeError::MissingElement),
                        Some(s2) => if !is_element(p.nodes, s2) {
                            Err(ScrapeError::NotAnElement)
                        } else {
                            cells_treasures(p, select_in(p.nodes, p.masks[2], s2), rt)
                        },
                    },
                }
            },
        },
    }
}

/// The treasures under the header tables at `hs`, in order.
pub open spec fn headers_treasures(p: PageView, hs: Seq<int>) -> Result<Seq<TreasureView>, ScrapeError>
    decreases hs.len(),
{
    if hs.len() == 0 {
        Ok(Seq::empty())
    } else {
        match headers_treasures(p, hs.drop_last()) {
            Err(e) => Err(e),
            Ok(prev) => match header_treasures(p, hs.last()) {
                Err(e) => Err(e),
                Ok(ts) => Ok(prev + ts),
            },
        }
    }
}

/// All treasures of a loaded treasure page.
pub open spec fn treasures_of(p: PageView) -> Result<Seq<TreasureView>, ScrapeError> {
    headers_treasures(p, select_doc(p, 0))
}

/// The view of a list of treasures, or of the error.
pub open spec fn treasures_result_view(r: Result<Vec<Treasure>, ScrapeError>) -> Result<Seq<TreasureView>, ScrapeError> {
    match r {
        Ok(v) => Ok(v.deep_view()),
        Err(e) => Err(e),
    }
}

/// A failure among the first `n` cells is the failure of all of them.
proof fn lemma_cells_error_persists(p: PageView, cs: Seq<int>, rt: Seq<char>, n: int, m: int)
    requires
        0 <= n <= m <= cs.len(),
        cells_treasures(p, cs.take(n), rt) is Err,
    ensures
        cells_treasures(p, cs.take(m), rt) == cells_treasures(p, cs.take(n), rt),
    decreases m - n,
{
    if m > n {
        lemma_cells_error_persists(p, cs, rt, n, m - 1);
        assert(cs.take(m).drop_last() =~= cs.take(m - 1));
    }
}

/// A failure among the first `n` headers is the failure of all of them.
proof fn lemma_headers_error_persists(p: PageView, hs: Seq<int>, n: int, m: int)
    requires
        0 <= n <= m <= hs.len(),
        headers_treasures(p, hs.take(n)) is Err,
    ensures
        headers_treasures(p, hs.take(m)) == headers_treasures(p, hs.take(n)),
    decreases m - n,
{
    if m > n {
        lemma_headers_error_persists(p, hs, n, m - 1);
        assert(hs.take(m).drop_last() =~= hs.take(m - 1));
    }
}

/// The treasure in the cell at `e`, under a header whose rarity text is `rt`.
fn cell_treasure_exec(page: &PageData, e: usize, rt: &str) -> (r: Result<Treasure, ScrapeError>)
    requires
        page@.wf(3, 3),
        e < page@.nodes.len(),
    ensures
        match r {
            Ok(t) => cell_treasure(page@, e as int, rt@) == Ok::<TreasureView, ScrapeError>(t.deep_view()),
            Err(err) => cell_treasure(page@, e as int, rt@) == Err::<TreasureView, ScrapeError>(err),
        },
{
    let fc = match first_child_exec(&page.nodes, e) {
        Some(c) => c,
        None => return Err(ScrapeError::MissingElement),
    };
    if !is_element_exec(&page.nodes, fc) {
        return Err(ScrapeError::NotAnElement);
    }
    assert(page@.attrs[1].len() == page@.nodes.len());
    assert(page@.attrs[2].len() == page@.nodes.len());
    let title = match attr_at_exec(page, 1, fc) {
        Some(v) => v,
        None => return Err(ScrapeError::MissingAttribute),
    };
    let href = match attr_at_exec(page, 2, fc) {
        Some(v) => v,
        None => return Err(ScrapeError::MissingAttribute),
    };
    let path = strip_revision(href.as_str());
    let rarity = match Rarity::from_str(rt) {
        Some(r) => r,
        None => return Err(ScrapeError::UnknownRarity),
    };
    Ok(Treasure { name: title, illustration_path: path, rarity })
}

/// The treasures in the cells at `cells`, in order.
fn cells_treasures_exec(page: &PageData, cells: &Vec<usize>, rt: &str) -> (r: Result<Vec<Treasure>, ScrapeError>)
    requires
        page@.wf(3, 3),
        forall|m: int| 0 <= m < cells@.len() ==> #[trigger] cells@[m] < page@.nodes.len(),
    ensures
        treasures_result_view(r) == cells_treasures(page@, cells@.map_values(|x: usize| x as int), rt@),
{
    let ghost cs = cells@.map_values(|x: usize| x as int);
    let mut out: Vec<Treasure> = Vec::new();
    assert(out.deep_view() =~= Seq::<TreasureView>::empty());
    assert(cs.take(0).len() == 0);
    let mut i: usize = 0;
    while i < cells.len()
        invariant
            page@.wf(3, 3),
            cs == cells@.map_values(|x: usize| x as int),
            forall|m: int| 0 <= m < cells@.len() ==> #[trigger] cells@[m] < page@.nodes.len(),
            i <= cells@.len(),
            cells_treasures(page@, cs.take(i as int), rt@) == Ok::<Seq<TreasureView>, ScrapeError>(out.deep_view()),
        decreases cells@.len() - i,
    {
        assert(cs.take(i + 1).drop_last() =~= cs.take(i as int));
        assert(cs.take(i + 1).last() == cells@[i as int] as int);
        match cell_treasure_exec(page, cells[i], rt) {
            Ok(t) => {
                out.push(t);
                assert(out.deep_view() =~= cells_treasures(page@, cs.take(i as int), rt@).unwrap().push(
                    t.deep_view(),
                ));
            },
            Err(e) => {
                proof {
                    lemma_cells_error_persists(page@, cs, rt@, i + 1, cs.len() as int);
                    assert(cs.take(cs.len() as int) =~= cs);
                }
                return Err(e);
            },
        }
        i = i + 1;
    }
    assert(cs.take(cells@.len() as int) =~= cs);
    Ok(out)
}

/// The treasures under the header table at `h`.
fn header_treasures_exec(page: &PageData, h: usize) -> (r: Result<Vec<Treasure>, ScrapeError>)
    requires
        page@.wf(3, 3),
        h < page@.nodes.len(),
    ensures
        treasures_result_view(r) == header_treasures(page@, h as int),
{
    assert(page@.masks[1].len() == page@.nodes.len());
    assert(page@.masks[2].len() == page@.nodes.len());
    assert(page@.attrs[0].len() == page@.nodes.len());
    let heads = select_exec(&page.nodes, &page.masks[1], h);
    if heads.len() == 0 {
        return Err(ScrapeError::MissingElement);
    }
    let hl = heads[0];
    assert(heads@.map_values(|x: usize| x as int)[0] == hl as int);
    let id = match attr_at_exec(page, 0, hl) {
        Some(v) => v,
        None => return Err(ScrapeError::MissingAttribute),
    };
    let rt = remove_all_exec(id.as_str(), "_Treasures");
    let s1 = match next_sibling_exec(&page.nodes, h) {
        Some(s) => s,
        None => return Err(ScrapeError::MissingElement),
    };
    let s2 = match next_sibling_exec(&page.nodes, s1) {
        Some(s) => s,
        None => return Err(ScrapeError::MissingElement),
    };
    if !is_element_exec(&page.nodes, s2) {
        return Err(ScrapeError::NotAnElement);
    }
    let cells = select_exec(&page.nodes, &page.masks[2], s2);
    cells_treasures_exec(page, &cells, rt.as_str())
}

/// All treasures of a loaded treasure page: for each header table, the
/// treasures under it, in document order.
pub fn treasures_from_page(page: &PageData) -> (r: Result<Vec<Treasure>, ScrapeError>)
    requires
        page@.wf(3, 3),
    ensures
        treasures_result_view(r) == treasures_of(page@),
{
    let headers = select_doc_exec(page, 0);
    let ghost hs = headers@.map_values(|x: usize| x as int);
    let mut out: Vec<Treasure> = Vec::new();
    assert(out.deep_view() =~= Seq::<TreasureView>::empty());
    assert(hs.take(0).len() == 0);
    let mut i: usize = 0;
    while i < headers.len()
        invariant
            page@.wf(3, 3),
            hs == headers@.map_values(|x: usize| x as int),
            hs == select_doc(page@, 0),
            forall|m: int| 0 <= m < headers@.len() ==> #[trigger] headers@[m] < page@.nodes.len(),
            i <= headers@.len(),
            headers_treasures(page@, hs.take(i as int)) == Ok::<Seq<TreasureView>, ScrapeError>(out.deep_view()),
        decreases headers@.len() - i,
    {
        assert(hs.take(i + 1).drop_last() =~= hs.take(i as int));
        assert(hs.take(i + 1).last() == headers@[i as int] as int);
        match header_treasures_exec(page, headers[i]) {
            Ok(mut ts) => {
                let ghost before = out.deep_view();
                let ghost added = ts.deep_view();
                out.append(&mut ts);
                assert(out.deep_view() =~= before + added);
            },
            Err(e) => {
                proof {
                    lemma_headers_error_persists(page@, hs, i + 1, hs.len() as int);
                    assert(hs.take(hs.len() as int) =~= hs);
                }
                return Err(e);
            },
        }
        i = i + 1;
    }
    assert(hs.take(headers@.len() as int) =~= hs);
    Ok(out)
}

/// Reads the treasure page.
pub struct ToppingTools {}

impl ToppingTools {
    /// A reader of the treasure page.
    pub fn new() -> (r: ToppingTools) {
        ToppingTools {}
    }

    /// The treasures that the text of the wiki's treasure page lists. The page
    /// must hold everything the reader takes from it (see
    /// [`treasure_page_readable`]).
    pub fn get_treasures(&self, page: &str) -> (r: Vec<Treasure>)
        requires
            treasure_page_readable(page@),
        ensures
            r.deep_view() == treasures_of(page_of(page@, treasure_selectors(), treasure_attrs()))->Ok_0,
    {
        let data = load_treasure_page(page).unwrap();
        treasures_from_page(&data).unwrap()
    }

    /// The treasures that the text of the wiki's treasure page lists, or, for a
    /// page that [`ToppingTools::get_treasures`] cannot read, why: a refused
    /// selector, or the first headline, `id`, sibling, element, attribute or
    /// rarity name that is missing or wrong.
    pub fn try_get_treasures(&self, page: &str) -> (r: Result<Vec<Treasure>, ScrapeError>)
        ensures
            treasures_result_view(r) == if selectors_valid(page@, treasure_selectors()) {
                treasures_of(page_of(page@, treasure_selectors(), treasure_attrs()))
            } else {
                Err(ScrapeError::InvalidSelector)
            },
    {
        let data = match load_treasure_page(page) {
            Ok(d) => d,
            Err(e) => return Err(e),
        };
        match treasures_from_page(&data) {
            Ok(_) => Ok(self.get_treasures(page)),
            Err(e) => Err(e),
        }
    }
}

/// Parses the text of the treasure page with the treasure selectors.
fn load_treasure_page(page: &str) -> (r: Result<PageData, ScrapeError>)
    ensures
        r is Ok <==> selectors_valid(page@, treasure_selectors()),
        r matches Ok(d) ==> d@ == page_of(page@, treasure_selectors(), treasure_attrs()) && d@.wf(3, 3),
        r matches Err(e) ==> e == ScrapeError::InvalidSelector,
{
    let sels = vec![TREASURE_HEADER_SELECTOR, HEADLINE_SELECTOR, TREASURE_CELL_SELECTOR];
    let attrs = vec!["id", "title", "href"];
    assert(sels@ == treasure_selectors());
    assert(attrs@ == treasure_attrs());
    PageData::load(page, sels.as_slice(), attrs.as_slice())
}

/// Whether the text of a page holds everything that
/// [`ToppingTools::get_treasures`] takes from it: its selectors parse, and
/// under each header table a headline with an `id`, a second sibling that is
/// an element, and in each of its treasure cells a first child that is an
/// element with `title` and `href`, where the `id` without "_Treasures" names
/// a rarity wherever there are such cells.
pub open spec fn treasure_page_readable(page: Seq<char>) -> bool {
    &&& selectors_valid(page, treasure_selectors())
    &&& treasures_of(page_of(page, treasure_selectors(), treasure_attrs())) is Ok
}

} // verus!
