//! Rarities, and the table of gacha chances per rarity.
use vstd::prelude::*;
use crate::dom::{first_text_under, first_text_under_exec, page_of, select_exec, select_in, selectors_valid, subtree_end, PageData, PageView};
use crate::error::ScrapeError;
use crate::extract::{first_of, select_doc, select_doc_exec};
use crate::text::{percent_text, percent_text_exec, str_eq};

verus! {

/// How rare a cookie or treasure is.
#[derive(Debug, Clone, Copy, PartialEq, Eq, Structural)]
pub enum Rarity {
    Special,
    Common,
    Rare,
    Epic,
    Legendary,
    Ancient,
}

impl Rarity {
    /// The name of a variant, as the wiki writes it.
    pub open spec fn name(self) -> Seq<char> {
        match self {
            Rarity::Special => "Special"@,
            Rarity::Common => "Common"@,
            Rarity::Rare => "Rare"@,
            Rarity::Epic => "Epic"@,
            Rarity::Legendary => "Legendary"@,
            Rarity::Ancient => "Ancient"@,
        }
    }

    /// The variant whose name is exactly `s`, if any.
    pub open spec fn from_name(s: Seq<char>) -> Option<Rarity> {
        if s == "Special"@ {
            Some(Rarity::Special)
        } else if s == "Common"@ {
            Some(Rarity::Common)
        } else if s == "Rare"@ {
            Some(Rarity::Rare)
        } else if s == "Epic"@ {
            Some(Rarity::Epic)
        } else if s == "Legendary"@ {
            Some(Rarity::Legendary)
        } else if s == "Ancient"@ {
            Some(Rarity::Ancient)
        } else {
            None
        }
    }

    /// The variant whose name is exactly `s`, if any.
    pub fn from_str(s: &str) -> (r: Option<Rarity>)
        ensures
            r == Rarity::from_name(s@),
    {
        if str_eq(s, "Special") {
            Some(Rarity::Special)
        } else if str_eq(s, "Common") {
            Some(Rarity::Common)
        } else if str_eq(s, "Rare") {
            Some(Rarity::Rare)
        } else if str_eq(s, "Epic") {
            Some(Rarity::Epic)
        } else if str_eq(s, "Legendary") {
            Some(Rarity::Legendary)
        } else if str_eq(s, "Ancient") {
            Some(Rarity::Ancient)
        } else {
            None
        }
    }
}

/// Each rarity's name reads back as that rarity.
pub proof fn lemma_rarity_name_round_trip(r: Rarity)
    ensures
        Rarity::from_name(r.name()) == Some(r),
{
    reveal_strlit("Special");
    reveal_strlit("Common");
    reveal_strlit("Rare");
    reveal_strlit("Epic");
    reveal_strlit("Legendary");
    reveal_strlit("Ancient");
    assert("Common"@[0] != "Special"@[0]);
    assert("Rare"@[0] != "Special"@[0] && "Rare"@[0] != "Common"@[0]);
    assert("Epic"@[0] != "Special"@[0] && "Epic"@[0] != "Common"@[0] && "Epic"@[0] != "Rare"@[0]);
    assert("Legendary"@[0] != "Special"@[0] && "Legendary"@[0] != "Common"@[0] && "Legendary"@[0]
        != "Rare"@[0] && "Legendary"@[0] != "Epic"@[0]);
    assert("Ancient"@[0] != "Special"@[0] && "Ancient"@[0] != "Common"@[0] && "Ancient"@[0]
        != "Rare"@[0] && "Ancient"@[0] != "Epic"@[0] && "Ancient"@[0] != "Legendary"@[0]);
}

/// A string reads as a rarity only if it is that rarity's name.
pub proof fn lemma_rarity_from_name_exact(s: Seq<char>)
    ensures
        Rarity::from_name(s) matches Some(r) ==> s == r.name(),
{
}

/// One column of the gacha table: a rarity and the texts of its cookie and
/// soulstone chances (percent signs and line breaks taken out; empty where
/// the table gives none). Reading the texts as numbers is left to the caller.
pub struct RarityChanceText {
    pub rarity: Option<Rarity>,
    pub cookie: String,
    pub soulstone: String,
}

/// The mathematical view of a [`RarityChanceText`].
#[verifier::ext_equal]
pub struct RarityChanceView {
    pub rarity: Option<Rarity>,
    pub cookie: Seq<char>,
    pub soulstone: Seq<char>,
}

impl DeepView for RarityChanceText {
    type V = RarityChanceView;

    open spec fn deep_view(&self) -> RarityChanceView {
        RarityChanceView { rarity: self.rarity, cookie: self.cookie@, soulstone: self.soulstone@ }
    }
}

/// Whether row `r` has a cell for column `c` (column `c` is cell `c + 1`;
/// cell 0 of each row is its header).
pub open spec fn has_cell(rows: Seq<Seq<Option<Seq<char>>>>, r: int, c: int) -> bool {
    0 <= r < rows.len() && 0 <= c && c + 1 < rows[r].len()
}

/// The first text of the cell of row `r` for column `c` (empty if it has none).
pub open spec fn cell_text(rows: Seq<Seq<Option<Seq<char>>>>, r: int, c: int) -> Seq<char> {
    match rows[r][c + 1] {
        Some(t) => t,
        None => Seq::empty(),
    }
}

/// The number of columns: the largest number of cells after the header among
/// the first `n` rows.
pub open spec fn max_columns(rows: Seq<Seq<Option<Seq<char>>>>, n: int) -> int
    decreases n,
{
    if n <= 0 {
        0
    } else {
        let w = max_columns(rows, n - 1);
        if rows[n - 1].len() - 1 > w {
            rows[n - 1].len() - 1
        } else {
            w
        }
    }
}

/// Column `c` of the table: the rarity named in row 0, the soulstone chance in
/// row 1, the cookie chance in row 2.
pub open spec fn column_of(rows: Seq<Seq<Option<Seq<char>>>>, c: int) -> RarityChanceView {
    RarityChanceView {
        rarity: if has_cell(rows, 0, c) {
            Rarity::from_name(cell_text(rows, 0, c))
        } else {
            None
        },
        soulstone: if has_cell(rows, 1, c) {
            percent_text(cell_text(rows, 1, c))
        } else {
            Seq::empty()
        },
        cookie: if has_cell(rows, 2, c) {
            percent_text(cell_text(rows, 2, c))
        } else {
            Seq::empty()
        },
    }
}

/// Whether one of the first three rows has a non-header cell without text.
pub open spec fn text_missing(rows: Seq<Seq<Option<Seq<char>>>>) -> bool {
    exists|r: int, c: int| 0 <= r < 3 && #[trigger] has_cell(rows, r, c) && rows[r][c + 1] is None
}

/// The chances that a table of cells gives, one per column.
pub open spec fn rarity_chances_of(rows: Seq<Seq<Option<Seq<char>>>>) -> Result<Seq<RarityChanceView>, ScrapeError> {
    if text_missing(rows) {
        Err(ScrapeError::MissingText)
    } else {
        Ok(Seq::new(max_columns(rows, rows.len() as int) as nat, |c: int| column_of(rows, c)))
    }
}

/// The view of a list of chances, or of the error.
pub open spec fn chances_result_view(r: Result<Vec<RarityChanceText>, ScrapeError>) -> Result<Seq<RarityChanceView>, ScrapeError> {
    match r {
        Ok(v) => Ok(v.deep_view()),
        Err(e) => Err(e),
    }
}

/// Has cell (`r`, `c`) been visited once rows before `ri`, and the cells
/// before `i` of row `ri`, have been?
pub open spec fn processed(ri: int, i: int, r: int, c: int) -> bool {
    r < ri || (r == ri && c + 1 < i)
}

/// Column `c` as far as the visited cells fill it in.
pub open spec fn column_upto(rows: Seq<Seq<Option<Seq<char>>>>, c: int, ri: int, i: int) -> RarityChanceView {
    RarityChanceView {
        rarity: if has_cell(rows, 0, c) && processed(ri, i, 0, c) {
            Rarity::from_name(cell_text(rows, 0, c))
        } else {
            None
        },
        soulstone: if has_cell(rows, 1, c) && processed(ri, i, 1, c) {
            percent_text(cell_text(rows, 1, c))
        } else {
            Seq::empty()
        },
        cookie: if has_cell(rows, 2, c) && processed(ri, i, 2, c) {
            percent_text(cell_text(rows, 2, c))
        } else {
            Seq::empty()
        },
    }
}

/// The number of columns once the visited cells are counted.
pub open spec fn width_upto(rows: Seq<Seq<Option<Seq<char>>>>, ri: int, i: int) -> int {
    let w = max_columns(rows, ri);
    if i - 1 > w {
        i - 1
    } else {
        w
    }
}

/// No visited cell of the first three rows lacks text.
pub open spec fn none_missing_upto(rows: Seq<Seq<Option<Seq<char>>>>, ri: int, i: int) -> bool {
    forall|r: int, c: int|
        0 <= r < 3 && processed(ri, i, r, c) && #[trigger] has_cell(rows, r, c) ==> rows[r][c + 1] is Some
}

/// Every cell of the first `n` rows lies within the first `max_columns` columns.
proof fn lemma_max_columns_bound(rows: Seq<Seq<Option<Seq<char>>>>, n: int)
    requires
        0 <= n <= rows.len(),
    ensures
        max_columns(rows, n) >= 0,
        forall|r: int, c: int| 0 <= r < n && #[trigger] has_cell(rows, r, c) ==> c < max_columns(rows, n),
    decreases n,
{
    if n > 0 {
        lemma_max_columns_bound(rows, n - 1);
    }
}

/// The gacha table read cell by cell: the header cell of each row is skipped;
/// row 0 names the rarities, row 1 gives the soulstone chances, row 2 the
/// cookie chances, and further rows only widen the table. Fails when a
/// non-header cell of the first three rows has no text.
pub fn rarity_chances_from_cells(rows: &Vec<Vec<Option<String>>>) -> (r: Result<Vec<RarityChanceText>, ScrapeError>)
    ensures
        chances_result_view(r) == rarity_chances_of(rows.deep_view()),
{
    let ghost rv = rows.deep_view();
    let mut out: Vec<RarityChanceText> = Vec::new();
    let mut ri: usize = 0;
    while ri < rows.len()
        invariant
            rv == rows.deep_view(),
            ri <= rv.len(),
            out@.len() == max_columns(rv, ri as int),
            forall|c: int| 0 <= c < out@.len() ==> #[trigger] out@[c].deep_view() == column_upto(rv, c, ri as int, 0),
            none_missing_upto(rv, ri as int, 0),
        decreases rv.len() - ri,
    {
        let row = &rows[ri];
        proof {
            lemma_max_columns_bound(rv, ri as int);
        }
        let mut i: usize = 0;
        while i < row.len()
            invariant
                rv == rows.deep_view(),
                ri < rv.len(),
                row.deep_view() == rv[ri as int],
                i <= rv[ri as int].len(),
                max_columns(rv, ri as int) >= 0,
                forall|r: int, c: int| 0 <= r < ri && #[trigger] has_cell(rv, r, c) ==> c < max_columns(rv, ri as int),
                out@.len() == width_upto(rv, ri as int, i as int),
                forall|c: int| 0 <= c < out@.len() ==> #[trigger] out@[c].deep_view() == column_upto(rv, c, ri as int, i as int),
                none_missing_upto(rv, ri as int, i as int),
            decreases rv[ri as int].len() - i,
        {
            if i != 0 {
                let c0: usize = i - 1;
                if i > out.len() {
                    out.push(RarityChanceText { rarity: None, cookie: String::new(), soulstone: String::new() });
                    assert(out@[c0 as int].deep_view() =~= column_upto(rv, c0 as int, ri as int, i as int));
                }
                assert(has_cell(rv, ri as int, c0 as int));
                if ri < 3 {
                    let t = match &row[i] {
                        Some(t) => t,
                        None => {
                            assert(rv[ri as int][c0 + 1] is None);
                            assert(text_missing(rv));
                            return Err(ScrapeError::MissingText);
                        },
                    };
                    assert(cell_text(rv, ri as int, c0 as int) == t@);
                    let old = &out[c0];
                    let updated = if ri == 0 {
                        RarityChanceText {
                            rarity: Rarity::from_str(t.as_str()),
                            cookie: old.cookie.clone(),
                            soulstone: old.soulstone.clone(),
                        }
                    } else if ri == 1 {
                        RarityChanceText {
                            rarity: old.rarity,
                            cookie: old.cookie.clone(),
                            soulstone: percent_text_exec(t.as_str()),
                        }
                    } else {
                        RarityChanceText {
                            rarity: old.rarity,
                            cookie: percent_text_exec(t.as_str()),
                            soulstone: old.soulstone.clone(),
                        }
                    };
                    assert(updated.deep_view() =~= column_upto(rv, c0 as int, ri as int, i + 1));
                    out.set(c0, updated);
                }
                assert forall|c: int| 0 <= c < out@.len() implies #[trigger] out@[c].deep_view()
                    == column_upto(rv, c, ri as int, i + 1) by {
                    if c != c0 {
                        assert(column_upto(rv, c, ri as int, i as int) =~= column_upto(rv, c, ri as int, i + 1));
                    } else if ri >= 3 {
                        assert(column_upto(rv, c, ri as int, i as int) =~= column_upto(rv, c, ri as int, i + 1));
                    }
                }
            } else {
                assert forall|c: int| 0 <= c < out@.len() implies #[trigger] out@[c].deep_view()
                    == column_upto(rv, c, ri as int, i + 1) by {
                    assert(column_upto(rv, c, ri as int, i as int) =~= column_upto(rv, c, ri as int, i + 1));
                }
            }
            i = i + 1;
        }
        assert forall|c: int| 0 <= c < out@.len() implies #[trigger] out@[c].deep_view() == column_upto(
            rv,
            c,
            ri + 1,
            0,
        ) by {
            assert(column_upto(rv, c, ri as int, i as int) =~= column_upto(rv, c, ri + 1, 0));
        }
        ri = ri + 1;
    }
    proof {
        lemma_max_columns_bound(rv, rv.len() as int);
    }
    assert(!text_missing(rv));
    assert(out.deep_view() =~= Seq::new(
        max_columns(rv, rv.len() as int) as nat,
        |c: int| column_of(rv, c),
    )) by {
        assert forall|c: int| 0 <= c < out@.len() implies #[trigger] out.deep_view()[c] == column_of(rv, c) by {
            assert(column_upto(rv, c, rv.len() as int, 0) =~= column_of(rv, c));
        }
    }
    Ok(out)
}

/// Selector for the gacha table on the wiki's gacha page.
pub const GACHA_TABLE_SELECTOR: &'static str = ".wds-tab__content > .wikitable";

/// The selectors that the gacha page is loaded with, in the order the reader
/// numbers them: the table, its rows, their cells.
pub open spec fn gacha_selectors() -> Seq<&'static str> {
    seq![GACHA_TABLE_SELECTOR, "tr", "th,td"]
}

/// For each row at `rs`, the first text of each of its cells.
pub open spec fn cells_of_rows(p: PageView, rs: Seq<int>) -> Seq<Seq<Option<Seq<char>>>> {
    Seq::new(
        rs.len(),
        |k: int|
            {
                let cells = select_in(p.nodes, p.masks[2], rs[k]);
                Seq::new(cells.len(), |m: int| first_text_under(p.nodes, cells[m]))
            },
    )
}

/// The cells of the first gacha table of a loaded page, row by row.
pub open spec fn gacha_table_of(p: PageView) -> Option<Seq<Seq<Option<Seq<char>>>>> {
    match first_of(select_doc(p, 0)) {
        None => None,
        Some(t) => Some(cells_of_rows(p, select_in(p.nodes, p.masks[1], t))),
    }
}

/// The chances that a loaded gacha page gives.
pub open spec fn gacha_chances_of(p: PageView) -> Result<Seq<RarityChanceView>, ScrapeError> {
    match gacha_table_of(p) {
        None => Err(ScrapeError::MissingElement),
        Some(rows) => rarity_chances_of(rows),
    }
}

/// The cells of the first gacha table of a loaded page, row by row, each as
/// its first text.
pub fn gacha_table_from_page(page: &PageData) -> (r: Option<Vec<Vec<Option<String>>>>)
    requires
        page@.wf(3, 0),
    ensures
        r.deep_view() == gacha_table_of(page@),
{
    let tables = select_doc_exec(page, 0);
    if tables.len() == 0 {
        return None;
    }
    let t = tables[0];
    assert(tables@.map_values(|x: usize| x as int)[0] == t as int);
    assert(page@.masks[1].len() == page@.nodes.len());
    let rows = select_exec(&page.nodes, &page.masks[1], t);
    let ghost rs = rows@.map_values(|x: usize| x as int);
    let mut out: Vec<Vec<Option<String>>> = Vec::new();
    let mut k: usize = 0;
    while k < rows.len()
        invariant
            page@.wf(3, 0),
            rs == rows@.map_values(|x: usize| x as int),
            forall|m: int| 0 <= m < rows@.len() ==> #[trigger] rows@[m] < page@.nodes.len(),
            k <= rows@.len(),
            out@.len() == k,
            forall|m: int| 0 <= m < k ==> #[trigger] out@[m].deep_view() == cells_of_rows(page@, rs)[m],
        decreases rows@.len() - k,
    {
        let row = rows[k];
        assert(page@.masks[2].len() == page@.nodes.len());
        let cells = select_exec(&page.nodes, &page.masks[2], row);
        let ghost cs = cells@.map_values(|x: usize| x as int);
        let mut texts: Vec<Option<String>> = Vec::new();
        let mut m: usize = 0;
        while m < cells.len()
            invariant
                page@.wf(3, 0),
                cs == cells@.map_values(|x: usize| x as int),
                cs == select_in(page@.nodes, page@.masks[2], row as int),
                forall|q: int| 0 <= q < cells@.len() ==> #[trigger] cells@[q] < page@.nodes.len(),
                m <= cells@.len(),
                texts@.len() == m,
                forall|q: int| 0 <= q < m ==> #[trigger] texts@[q].deep_view() == first_text_under(page@.nodes, cs[q]),
            decreases cells@.len() - m,
        {
            let text = first_text_under_exec(&page.nodes, cells[m]);
            texts.push(text);
            m = m + 1;
        }
        assert(texts.deep_view() =~= cells_of_rows(page@, rs)[k as int]);
        out.push(texts);
        k = k + 1;
    }
    assert(out.deep_view() =~= cells_of_rows(page@, rs));
    Some(out)
}

/// Reads the gacha page.
pub struct RarityTools {}

impl RarityTools {
    /// A reader of the gacha page.
    pub fn new() -> (r: RarityTools) {
        RarityTools {}
    }

    /// The chances per rarity that the text of the wiki's gacha page gives.
    /// The page must hold everything the reader takes from it (see
    /// [`gacha_page_readable`]).
    pub fn get_rarity_chances(&self, page: &str) -> (r: Vec<RarityChanceText>)
        requires
            gacha_page_readable(page@),
        ensures
            r.deep_view() == gacha_chances_of(page_of(page@, gacha_selectors(), Seq::empty()))->Ok_0,
    {
        let data = load_gacha_page(page).unwrap();
        let rows = gacha_table_from_page(&data).unwrap();
        rarity_chances_from_cells(&rows).unwrap()
    }

    /// The chances per rarity that the text of the wiki's gacha page gives, or,
    /// for a page that [`RarityTools::get_rarity_chances`] cannot read, why: a
    /// refused selector, no gacha table, or a cell of its first three rows
    /// without text.
    pub fn try_get_rarity_chances(&self, page: &str) -> (r: Result<Vec<RarityChanceText>, ScrapeError>)
        ensures
            chances_result_view(r) == if selectors_valid(page@, gacha_selectors()) {
                gacha_chances_of(page_of(page@, gacha_selectors(), Seq::empty()))
            } else {
                Err(ScrapeError::InvalidSelector)
            },
    {
        let data = match load_gacha_page(page) {
            Ok(d) => d,
            Err(e) => return Err(e),
        };
        let rows = match gacha_table_from_page(&data) {
            Some(rows) => rows,
            None => return Err(ScrapeError::MissingElement),
        };
        match rarity_chances_from_cells(&rows) {
            Ok(_) => Ok(self.get_rarity_chances(page)),
            Err(e) => Err(e),
        }
    }
}

/// Parses the text of the gacha page with the gacha selectors.
fn load_gacha_page(page: &str) -> (r: Result<PageData, ScrapeError>)
    ensures
        r is Ok <==> selectors_valid(page@, gacha_selectors()),
        r matches Ok(d) ==> d@ == page_of(page@, gacha_selectors(), Seq::empty()) && d@.wf(3, 0),
        r matches Err(e) ==> e == ScrapeError::InvalidSelector,
{
    let sels = vec![GACHA_TABLE_SELECTOR, "tr", "th,td"];
    let attrs: Vec<&str> = Vec::new();
    assert(sels@ == gacha_selectors());
    assert(attrs@ =~= Seq::<&str>::empty());
    PageData::load(page, sels.as_slice(), attrs.as_slice())
}

/// Whether the text of a page holds everything that
/// [`RarityTools::get_rarity_chances`] takes from it: its selectors parse, it
/// has a gacha table, and each non-header cell of the table's first three rows
/// has text.
pub open spec fn gacha_page_readable(page: Seq<char>) -> bool {
    &&& selectors_valid(page, gacha_selectors())
    &&& gacha_chances_of(page_of(page, gacha_selectors(), Seq::empty())) is Ok
}

/// A widest row of the first `n` rows has exactly `max_columns` data cells.
proof fn lemma_max_columns_attained(rows: Seq<Seq<Option<Seq<char>>>>, n: int)
    requires
        0 <= n <= rows.len(),
        max_columns(rows, n) > 0,
    ensures
        exists|k: int| 0 <= k < n && #[trigger] rows[k].len() == max_columns(rows, n) + 1,
    decreases n,
{
    if rows[n - 1].len() - 1 <= max_columns(rows, n - 1) {
        lemma_max_columns_attained(rows, n - 1);
        let k = choose|k: int| 0 <= k < n - 1 && #[trigger] rows[k].len() == max_columns(rows, n - 1) + 1;
        assert(rows[k].len() == max_columns(rows, n) + 1);
    } else {
        assert(rows[n - 1].len() == max_columns(rows, n) + 1);
    }
}

/// The gacha chances are read from the first gacha table alone, from the `tr`
/// rows inside it, in order: column `c` takes its rarity from the first text of
/// cell `c + 1` of the table's first row, its soulstone chance from that cell
/// of the second row and its cookie chance from that cell of the third (each
/// of these cells has a text); a missing cell gives no rarity or an empty
/// chance. Every row's cells after the first fit within the columns, and some
/// row fills them all.
pub proof fn lemma_gacha_reads_first_table(p: PageView)
    requires
        p.wf(3, 0),
    ensures
        gacha_chances_of(p) matches Ok(v) ==> {
            let tables = select_doc(p, 0);
            let t = tables[0];
            let rs = select_in(p.nodes, p.masks[1], t);
            let c0 = select_in(p.nodes, p.masks[2], rs[0]);
            let c1 = select_in(p.nodes, p.masks[2], rs[1]);
            let c2 = select_in(p.nodes, p.masks[2], rs[2]);
            &&& tables.len() > 0
            &&& forall|k: int| 0 <= k < rs.len() ==> t < #[trigger] rs[k] < subtree_end(p.nodes, t)
            &&& forall|c: int| 0 <= c < v.len() ==> #[trigger] v[c].rarity == if rs.len() > 0 && c + 1 < c0.len() {
                Rarity::from_name(first_text_under(p.nodes, c0[c + 1])->Some_0)
            } else {
                None
            }
            &&& forall|c: int| 0 <= c < v.len() ==> #[trigger] v[c].soulstone == if rs.len() > 1 && c + 1 < c1.len() {
                percent_text(first_text_under(p.nodes, c1[c + 1])->Some_0)
            } else {
                Seq::empty()
            }
            &&& forall|c: int| 0 <= c < v.len() ==> #[trigger] v[c].cookie == if rs.len() > 2 && c + 1 < c2.len() {
                percent_text(first_text_under(p.nodes, c2[c + 1])->Some_0)
            } else {
                Seq::empty()
            }
            &&& forall|c: int| 0 <= c && rs.len() > 0 && c + 1 < c0.len() ==> (#[trigger] first_text_under(p.nodes, c0[c + 1])) is Some
            &&& forall|c: int| 0 <= c && rs.len() > 1 && c + 1 < c1.len() ==> (#[trigger] first_text_under(p.nodes, c1[c + 1])) is Some
            &&& forall|c: int| 0 <= c && rs.len() > 2 && c + 1 < c2.len() ==> (#[trigger] first_text_under(p.nodes, c2[c + 1])) is Some
            &&& forall|k: int| 0 <= k < rs.len() ==> #[trigger] select_in(p.nodes, p.masks[2], rs[k]).len() <= v.len() + 1
            &&& v.len() > 0 ==> exists|k: int| 0 <= k < rs.len() && #[trigger] select_in(p.nodes, p.masks[2], rs[k]).len() == v.len() + 1
        },
{
    if let Ok(v) = gacha_chances_of(p) {
        let tables = select_doc(p, 0);
        let t = tables[0];
        let rs = select_in(p.nodes, p.masks[1], t);
        let rows = cells_of_rows(p, rs);
        assert(gacha_table_of(p) == Some(rows));
        assert(p.nodes.len() > 0);
        crate::dom::lemma_select_in(p.nodes, p.masks[0], 0);
        crate::dom::lemma_subtree_end_from_bounds(p.nodes, p.nodes[0].depth, 1);
        assert(tables == select_in(p.nodes, p.masks[0], 0));
        assert(0 < t < p.nodes.len());
        crate::dom::lemma_select_in(p.nodes, p.masks[1], t);
        assert(!text_missing(rows));
        lemma_max_columns_bound(rows, rows.len() as int);
        assert forall|k: int| 0 <= k < rs.len() implies #[trigger] select_in(p.nodes, p.masks[2], rs[k]).len() <= v.len() + 1 by {
            assert(rows[k].len() == select_in(p.nodes, p.masks[2], rs[k]).len());
            if rows[k].len() >= 2 {
                assert(has_cell(rows, k, rows[k].len() - 2));
            }
        }
        if v.len() > 0 {
            lemma_max_columns_attained(rows, rows.len() as int);
            let k = choose|k: int| 0 <= k < rows.len() && #[trigger] rows[k].len() == max_columns(rows, rows.len() as int) + 1;
            assert(rows[k].len() == select_in(p.nodes, p.masks[2], rs[k]).len());
        }
        assert forall|r: int, c: int| 0 <= r < 3 && #[trigger] has_cell(rows, r, c) implies rows[r][c + 1] is Some by {}
        let c0 = select_in(p.nodes, p.masks[2], rs[0]);
        let c1 = select_in(p.nodes, p.masks[2], rs[1]);
        let c2 = select_in(p.nodes, p.masks[2], rs[2]);
        assert(v == Seq::new(max_columns(rows, rows.len() as int) as nat, |c: int| column_of(rows, c)));
        assert forall|c: int| 0 <= c && rs.len() > 0 && c + 1 < c0.len() implies (#[trigger] first_text_under(p.nodes, c0[c + 1])) is Some by {
            assert(has_cell(rows, 0, c));
        }
        assert forall|c: int| 0 <= c && rs.len() > 1 && c + 1 < c1.len() implies (#[trigger] first_text_under(p.nodes, c1[c + 1])) is Some by {
            assert(has_cell(rows, 1, c));
        }
        assert forall|c: int| 0 <= c && rs.len() > 2 && c + 1 < c2.len() implies (#[trigger] first_text_under(p.nodes, c2[c + 1])) is Some by {
            assert(has_cell(rows, 2, c));
        }
        assert forall|c: int| 0 <= c < v.len() implies #[trigger] v[c].rarity == if rs.len() > 0 && c + 1 < c0.len() {
            Rarity::from_name(first_text_under(p.nodes, c0[c + 1])->Some_0)
        } else {
            None
        } by {
            assert(v[c] == column_of(rows, c));
        }
        assert forall|c: int| 0 <= c < v.len() implies #[trigger] v[c].soulstone == if rs.len() > 1 && c + 1 < c1.len() {
            percent_text(first_text_under(p.nodes, c1[c + 1])->Some_0)
        } else {
            Seq::empty()
        } by {
            assert(v[c] == column_of(rows, c));
        }
        assert forall|c: int| 0 <= c < v.len() implies #[trigger] v[c].cookie == if rs.len() > 2 && c + 1 < c2.len() {
            percent_text(first_text_under(p.nodes, c2[c + 1])->Some_0)
        } else {
            Seq::empty()
        } by {
            assert(v[c] == column_of(rows, c));
        }
    }
}

/// The gacha table gives one entry per column, and its chance texts hold no
/// percent sign and no line break.
pub proof fn lemma_chance_texts_clean(rows: Seq<Seq<Option<Seq<char>>>>)
    ensures
        rarity_chances_of(rows) matches Ok(v) ==> {
            &&& v.len() == max_columns(rows, rows.len() as int)
            &&& forall|c: int, i: int|
                0 <= c < v.len() && 0 <= i < v[c].cookie.len() ==> #[trigger] v[c].cookie[i] != '%'
                    && v[c].cookie[i] != '\n'
            &&& forall|c: int, i: int|
                0 <= c < v.len() && 0 <= i < v[c].soulstone.len() ==> #[trigger] v[c].soulstone[i] != '%'
                    && v[c].soulstone[i] != '\n'
        },
{
    if let Ok(v) = rarity_chances_of(rows) {
        lemma_max_columns_bound(rows, rows.len() as int);
        assert forall|c: int, i: int|
            0 <= c < v.len() && 0 <= i < v[c].cookie.len() implies #[trigger] v[c].cookie[i] != '%'
                && v[c].cookie[i] != '\n' by {
            crate::text::lemma_percent_text_clean(cell_text(rows, 2, c));
        }
        assert forall|c: int, i: int|
            0 <= c < v.len() && 0 <= i < v[c].soulstone.len() implies #[trigger] v[c].soulstone[i] != '%'
                && v[c].soulstone[i] != '\n' by {
            crate::text::lemma_percent_text_clean(cell_text(rows, 1, c));
        }
    }
}

} // verus!
