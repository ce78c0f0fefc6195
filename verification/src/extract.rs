//! The readings that page readers share: the matches of a selector in the
//! whole document, and the text, inner HTML or attribute of a match.
use vstd::prelude::*;
use crate::dom::{
    select_exec, select_in, text_under, text_under_exec, PageData, PageView,
};
use crate::error::ScrapeError;

verus! {

/// The view of a string result.
pub open spec fn string_result(r: Result<String, ScrapeError>) -> Result<Seq<char>, ScrapeError> {
    match r {
        Ok(s) => Ok(s@),
        Err(e) => Err(e),
    }
}

/// The elements of the document that selector `k` matches, in document
/// order: the pre-order of the tree below the document node. `Html::select`
/// instead walks the parser's node arena in creation order; the two agree
/// where the parser appended each node as the last child of its parent when
/// it created it, and moved and detached none (no foster-parented or
/// reparented content).
pub open spec fn select_doc(p: PageView, k: int) -> Seq<int> {
    if p.nodes.len() == 0 {
        Seq::empty()
    } else {
        select_in(p.nodes, p.masks[k], 0)
    }
}

/// The first element of a sequence of positions.
pub open spec fn first_of(s: Seq<int>) -> Option<int> {
    if s.len() == 0 {
        None
    } else {
        Some(s[0])
    }
}

/// The last element of a sequence of positions.
pub open spec fn last_of(s: Seq<int>) -> Option<int> {
    if s.len() == 0 {
        None
    } else {
        Some(s.last())
    }
}

/// The inner HTML of node `j` (empty for a node that is not an element).
pub open spec fn inner_html_at(p: PageView, j: int) -> Seq<char> {
    match p.inner_html[j] {
        Some(h) => h,
        None => Seq::empty(),
    }
}

/// The text of the last match of selector `k`, without its first character.
pub open spec fn last_text_tail(p: PageView, k: int) -> Result<Seq<char>, ScrapeError> {
    match last_of(select_doc(p, k)) {
        None => Err(ScrapeError::MissingElement),
        Some(j) => {
            let t = text_under(p.nodes, j);
            if t.len() == 0 {
                Err(ScrapeError::EmptyText)
            } else {
                Ok(t.drop_first())
            }
        },
    }
}

/// Attribute `a` of the first match of selector `k`.
pub open spec fn first_attr(p: PageView, k: int, a: int) -> Result<Seq<char>, ScrapeError> {
    match first_of(select_doc(p, k)) {
        None => Err(ScrapeError::MissingElement),
        Some(j) => match p.attrs[a][j] {
            None => Err(ScrapeError::MissingAttribute),
            Some(v) => Ok(v),
        },
    }
}

/// The inner HTML of the first match of selector `k`.
pub open spec fn first_inner_html(p: PageView, k: int) -> Result<Seq<char>, ScrapeError> {
    match first_of(select_doc(p, k)) {
        None => Err(ScrapeError::MissingElement),
        Some(j) => Ok(inner_html_at(p, j)),
    }
}

/// The elements of the document that selector `k` matches, in document
/// order (see [`select_doc`]).
pub fn select_doc_exec(page: &PageData, k: usize) -> (r: Vec<usize>)
    requires
        k < page@.masks.len(),
        page@.masks[k as int].len() == page@.nodes.len(),
    ensures
        r@.map_values(|x: usize| x as int) == select_doc(page@, k as int),
        forall|m: int| 0 <= m < r@.len() ==> #[trigger] r@[m] < page@.nodes.len(),
{
    if page.nodes.len() == 0 {
        let r: Vec<usize> = Vec::new();
        assert(r@.map_values(|x: usize| x as int) =~= Seq::<int>::empty());
        r
    } else {
        select_exec(&page.nodes, &page.masks[k], 0)
    }
}

/// The inner HTML of node `j` (empty for a node that is not an element).
pub fn inner_html_at_exec(page: &PageData, j: usize) -> (r: String)
    requires
        j < page@.inner_html.len(),
    ensures
        r@ == inner_html_at(page@, j as int),
{
    match &page.inner_html[j] {
        Some(h) => h.clone(),
        None => String::new(),
    }
}

/// Attribute `a` of node `j`.
pub fn attr_at_exec(page: &PageData, a: usize, j: usize) -> (r: Option<String>)
    requires
        a < page@.attrs.len(),
        j < page@.attrs[a as int].len(),
    ensures
        r.deep_view() == page@.attrs[a as int][j as int],
{
    match &page.attrs[a][j] {
        Some(v) => Some(v.clone()),
        None => None,
    }
}

/// The text of the last match of selector `k`, without its first character.
pub fn last_text_tail_exec(page: &PageData, k: usize) -> (r: Result<String, ScrapeError>)
    requires
        k < page@.masks.len(),
        page@.masks[k as int].len() == page@.nodes.len(),
    ensures
        string_result(r) == last_text_tail(page@, k as int),
{
    let found = select_doc_exec(page, k);
    if found.len() == 0 {
        return Err(ScrapeError::MissingElement);
    }
    let j = found[found.len() - 1];
    assert(found@.map_values(|x: usize| x as int).last() == j as int);
    let t = text_under_exec(&page.nodes, j);
    let cs = crate::text::chars_of(t.as_str());
    if cs.len() == 0 {
        return Err(ScrapeError::EmptyText);
    }
    let mut tail: Vec<char> = Vec::new();
    let mut i: usize = 1;
    while i < cs.len()
        invariant
            1 <= i <= cs@.len(),
            tail@ == cs@.subrange(1, i as int),
        decreases cs@.len() - i,
    {
        tail.push(cs[i]);
        assert(tail@ =~= cs@.subrange(1, i + 1));
        i = i + 1;
    }
    assert(tail@ =~= t@.drop_first());
    Ok(crate::text::string_of(&tail))
}

/// Attribute `a` of the first match of selector `k`.
pub fn first_attr_exec(page: &PageData, k: usize, a: usize) -> (r: Result<String, ScrapeError>)
    requires
        k < page@.masks.len(),
        page@.masks[k as int].len() == page@.nodes.len(),
        a < page@.attrs.len(),
        page@.attrs[a as int].len() == page@.nodes.len(),
    ensures
        string_result(r) == first_attr(page@, k as int, a as int),
{
    let found = select_doc_exec(page, k);
    if found.len() == 0 {
        return Err(ScrapeError::MissingElement);
    }
    let j = found[0];
    assert(found@.map_values(|x: usize| x as int)[0] == j as int);
    match attr_at_exec(page, a, j) {
        Some(v) => Ok(v),
        None => Err(ScrapeError::MissingAttribute),
    }
}

/// The inner HTML of the first match of selector `k`.
pub fn first_inner_html_exec(page: &PageData, k: usize) -> (r: Result<String, ScrapeError>)
    requires
        k < page@.masks.len(),
        page@.masks[k as int].len() == page@.nodes.len(),
        page@.inner_html.len() == page@.nodes.len(),
    ensures
        string_result(r) == first_inner_html(page@, k as int),
{
    let found = select_doc_exec(page, k);
    if found.len() == 0 {
        return Err(ScrapeError::MissingElement);
    }
    let j = found[0];
    assert(found@.map_values(|x: usize| x as int)[0] == j as int);
    Ok(inner_html_at_exec(page, j))
}

} // verus!
