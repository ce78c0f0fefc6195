//! A parsed page as plain values: its nodes in pre-order with their depths,
//! and, per CSS selector or attribute name, one entry per node.
//!
//! Parsing, serialising and selector matching are done by the `scraper`
//! crate; walking the tree (subtrees, siblings, children, text) is done here.
use vstd::prelude::*;
use scraper::{ElementRef, Html, Node, Selector};
use crate::error::ScrapeError;
use crate::text::{chars_of, string_of};

verus! {

/// What kind of node a node is.
pub enum NodeKind {
    Element,
    Text(String),
    Other,
}

/// The mathematical view of a [`NodeKind`].
pub enum NodeKindView {
    Element,
    Text(Seq<char>),
    Other,
}

impl DeepView for NodeKind {
    type V = NodeKindView;

    open spec fn deep_view(&self) -> NodeKindView {
        match self {
            NodeKind::Element => NodeKindView::Element,
            NodeKind::Text(t) => NodeKindView::Text(t@),
            NodeKind::Other => NodeKindView::Other,
        }
    }
}

/// One node of a page: how many ancestors it has, and its kind.
pub struct NodeShape {
    pub depth: usize,
    pub kind: NodeKind,
}

/// The mathematical view of a [`NodeShape`].
pub struct NodeShapeView {
    pub depth: usize,
    pub kind: NodeKindView,
}

impl DeepView for NodeShape {
    type V = NodeShapeView;

    open spec fn deep_view(&self) -> NodeShapeView {
        NodeShapeView { depth: self.depth, kind: self.kind.deep_view() }
    }
}

/// The nodes of the document that `html` parses to, in pre-order.
pub uninterp spec fn html_outline(html: Seq<char>) -> Seq<NodeShapeView>;

/// For each node of `html_outline(html)`, whether it is an element that the
/// CSS selector matches; `None` where the selector does not parse.
pub uninterp spec fn html_selector_mask(html: Seq<char>, selector: Seq<char>) -> Option<Seq<bool>>;

/// For each node of `html_outline(html)`, the value of its attribute `name`
/// (`None` for a node that is not an element or lacks the attribute).
pub uninterp spec fn html_attribute(html: Seq<char>, name: Seq<char>) -> Seq<Option<Seq<char>>>;

/// For each node of `html_outline(html)`, its inner HTML if it is an element.
pub uninterp spec fn html_inner_html(html: Seq<char>) -> Seq<Option<Seq<char>>>;

/// Calls `scraper::Html::parse_document` on `html` and lists the document's
/// nodes in the order of ego-tree's `descendants` from the document node
/// (pre-order): for each, its number of ancestors (`ancestors().count()`) and
/// whether it is an element, a text node (with its text) or another node.
/// The contract claims only that the list is a function of `html`.
#[verifier::external_body]
fn outline_of(html: &str) -> (r: Vec<NodeShape>)
    ensures
        r.deep_view() == html_outline(html@),
{
    Html::parse_document(html).tree.root().descendants().map(|n| NodeShape {
        depth: n.ancestors().count(),
        kind: match n.value() {
            Node::Element(_) => NodeKind::Element,
            Node::Text(t) => NodeKind::Text(t.to_string()),
            Node::Document => NodeKind::Other,
            Node::Fragment => NodeKind::Other,
            Node::Doctype(_) => NodeKind::Other,
            Node::Comment(_) => NodeKind::Other,
            Node::ProcessingInstruction(_) => NodeKind::Other,
        },
    }).collect()
}

/// Calls `scraper::Selector::parse` on `selector` (`None` when it fails) and,
/// over the same traversal as [`outline_of`], `Selector::matches` on each
/// element (`false` for other nodes). The contract claims that the result is a
/// function of the arguments and, as the shared traversal shows, has one entry
/// per node of the outline.
#[verifier::external_body]
fn selector_mask_of(html: &str, selector: &str) -> (r: Option<Vec<bool>>)
    ensures
        r.deep_view() == html_selector_mask(html@, selector@),
        r matches Some(m) ==> m@.len() == html_outline(html@).len(),
{
    let sel = Selector::parse(selector).ok()?;
    let doc = Html::parse_document(html);
    Some(doc.tree.root().descendants().map(|n| ElementRef::wrap(n).map_or(false, |e| sel.matches(&e))).collect())
}

/// Over the same traversal as [`outline_of`], scraper's `Element::attr(name)`
/// for each element (`None` for other nodes). The contract claims that the
/// result is a function of the arguments with one entry per node.
#[verifier::external_body]
fn attribute_of(html: &str, name: &str) -> (r: Vec<Option<String>>)
    ensures
        r.deep_view() == html_attribute(html@, name@),
        r@.len() == html_outline(html@).len(),
{
    let doc = Html::parse_document(html);
    doc.tree.root().descendants().map(|n| n.value().as_element().and_then(|e| e.attr(name)).map(|v| v.to_string())).collect()
}

/// Over the same traversal as [`outline_of`], scraper's
/// `ElementRef::inner_html` for each element (`None` for other nodes). The
/// contract claims that the result is a function of `html` with one entry per
/// node.
#[verifier::external_body]
fn inner_html_of(html: &str) -> (r: Vec<Option<String>>)
    ensures
        r.deep_view() == html_inner_html(html@),
        r@.len() == html_outline(html@).len(),
{
    let doc = Html::parse_document(html);
    doc.tree.root().descendants().map(|n| ElementRef::wrap(n).map(|e| e.inner_html())).collect()
}

/// Everything a page reader looks at: the outline, one mask per selector, one
/// column per attribute name, and the inner HTML of every element.
pub struct PageData {
    pub nodes: Vec<NodeShape>,
    pub masks: Vec<Vec<bool>>,
    pub attrs: Vec<Vec<Option<String>>>,
    pub inner_html: Vec<Option<String>>,
}

/// The mathematical view of a [`PageData`].
pub struct PageView {
    pub nodes: Seq<NodeShapeView>,
    pub masks: Seq<Seq<bool>>,
    pub attrs: Seq<Seq<Option<Seq<char>>>>,
    pub inner_html: Seq<Option<Seq<char>>>,
}

impl View for PageData {
    type V = PageView;

    open spec fn view(&self) -> PageView {
        PageView {
            nodes: self.nodes.deep_view(),
            masks: self.masks.deep_view(),
            attrs: self.attrs.deep_view(),
            inner_html: self.inner_html.deep_view(),
        }
    }
}

impl PageView {
    /// Well-formed for `n_sel` selectors and `n_attr` attribute names: every
    /// column has one entry per node.
    pub open spec fn wf(self, n_sel: nat, n_attr: nat) -> bool {
        &&& self.masks.len() == n_sel
        &&& self.attrs.len() == n_attr
        &&& forall|k: int| 0 <= k < n_sel ==> #[trigger] self.masks[k].len() == self.nodes.len()
        &&& forall|k: int| 0 <= k < n_attr ==> #[trigger] self.attrs[k].len() == self.nodes.len()
        &&& self.inner_html.len() == self.nodes.len()
    }
}

/// Whether every selector parses.
pub open spec fn selectors_valid(html: Seq<char>, selectors: Seq<&str>) -> bool {
    forall|k: int| 0 <= k < selectors.len() ==> (#[trigger] html_selector_mask(html, selectors[k]@)) is Some
}

/// The page data that `html` gives for these selectors and attribute names.
pub open spec fn page_of(html: Seq<char>, selectors: Seq<&str>, attr_names: Seq<&str>) -> PageView {
    PageView {
        nodes: html_outline(html),
        masks: Seq::new(selectors.len(), |k: int| html_selector_mask(html, selectors[k]@).unwrap()),
        attrs: Seq::new(attr_names.len(), |k: int| html_attribute(html, attr_names[k]@)),
        inner_html: html_inner_html(html),
    }
}

impl PageData {
    /// Parses `html` and gathers what the given selectors and attribute names
    /// say of each node; fails exactly when a selector does not parse.
    pub fn load(html: &str, selectors: &[&str], attr_names: &[&str]) -> (r: Result<PageData, ScrapeError>)
        ensures
            r is Ok <==> selectors_valid(html@, selectors@),
            r matches Ok(p) ==> p@ == page_of(html@, selectors@, attr_names@) && p@.wf(
                selectors@.len(),
                attr_names@.len(),
            ),
            r matches Err(e) ==> e == ScrapeError::InvalidSelector,
    {
        let nodes = outline_of(html);
        let mut masks: Vec<Vec<bool>> = Vec::new();
        let mut k: usize = 0;
        while k < selectors.len()
            invariant
                k <= selectors@.len(),
                nodes.deep_view() == html_outline(html@),
                masks@.len() == k,
                forall|j: int| 0 <= j < k ==> (#[trigger] html_selector_mask(html@, selectors@[j]@)) is Some,
                forall|j: int|
                    0 <= j < k ==> #[trigger] masks@[j].deep_view() == html_selector_mask(
                        html@,
                        selectors@[j]@,
                    ).unwrap(),
                forall|j: int| 0 <= j < k ==> #[trigger] masks@[j]@.len() == nodes@.len(),
            decreases selectors@.len() - k,
        {
            match selector_mask_of(html, selectors[k]) {
                Some(m) => {
                    masks.push(m);
                },
                None => {
                    return Err(ScrapeError::InvalidSelector);
                },
            }
            k = k + 1;
        }
        let mut attrs: Vec<Vec<Option<String>>> = Vec::new();
        let mut a: usize = 0;
        while a < attr_names.len()
            invariant
                a <= attr_names@.len(),
                nodes.deep_view() == html_outline(html@),
                attrs@.len() == a,
                forall|j: int|
                    0 <= j < a ==> #[trigger] attrs@[j].deep_view() == html_attribute(
                        html@,
                        attr_names@[j]@,
                    ),
                forall|j: int| 0 <= j < a ==> #[trigger] attrs@[j]@.len() == nodes@.len(),
            decreases attr_names@.len() - a,
        {
            let column = attribute_of(html, attr_names[a]);
            attrs.push(column);
            a = a + 1;
        }
        let inner_html = inner_html_of(html);
        let page = PageData { nodes, masks, attrs, inner_html };
        assert(page@.masks =~= page_of(html@, selectors@, attr_names@).masks);
        assert(page@.attrs =~= page_of(html@, selectors@, attr_names@).attrs);
        Ok(page)
    }
}


/// The first position at or after `j` that is past the end of the list or
/// holds a node of depth at most `d`.
pub open spec fn subtree_end_from(nodes: Seq<NodeShapeView>, d: usize, j: int) -> int
    decreases nodes.len() - j,
{
    if 0 <= j < nodes.len() && nodes[j].depth > d {
        subtree_end_from(nodes, d, j + 1)
    } else {
        j
    }
}

/// One past the last node of the subtree rooted at node `i` (in pre-order,
/// the subtree is the run of deeper nodes that follows `i`).
pub open spec fn subtree_end(nodes: Seq<NodeShapeView>, i: int) -> int {
    subtree_end_from(nodes, nodes[i].depth, i + 1)
}

/// The positions in `lo..hi` at which `mask` holds, in increasing order.
pub open spec fn positions_in(mask: Seq<bool>, lo: int, hi: int) -> Seq<int>
    decreases hi - lo,
{
    if hi <= lo {
        Seq::empty()
    } else if mask[hi - 1] {
        positions_in(mask, lo, hi - 1).push(hi - 1)
    } else {
        positions_in(mask, lo, hi - 1)
    }
}

/// The descendants of node `scope` at which `mask` holds, in document order.
/// For a selector without `:scope`, whose mask marks the elements it matches
/// in the whole document, this is what `ElementRef::select` yields on the
/// element at `scope` (`:scope` there would refer to that element instead).
pub open spec fn select_in(nodes: Seq<NodeShapeView>, mask: Seq<bool>, scope: int) -> Seq<int> {
    positions_in(mask, scope + 1, subtree_end(nodes, scope))
}

/// The text of a node if it is a text node, else nothing.
pub open spec fn text_piece(n: NodeShapeView) -> Seq<char> {
    match n.kind {
        NodeKindView::Text(t) => t,
        _ => Seq::empty(),
    }
}

/// The texts of the text nodes in `lo..hi`, concatenated in order.
pub open spec fn text_between(nodes: Seq<NodeShapeView>, lo: int, hi: int) -> Seq<char>
    decreases hi - lo,
{
    if hi <= lo {
        Seq::empty()
    } else {
        text_between(nodes, lo, hi - 1) + text_piece(nodes[hi - 1])
    }
}

/// All text of node `i` and its descendants, in order
/// (`ElementRef::text` collected into one string).
pub open spec fn text_under(nodes: Seq<NodeShapeView>, i: int) -> Seq<char> {
    text_between(nodes, i, subtree_end(nodes, i))
}

/// The text of the first text node in `lo..hi`.
pub open spec fn first_text_between(nodes: Seq<NodeShapeView>, lo: int, hi: int) -> Option<Seq<char>>
    decreases hi - lo,
{
    if hi <= lo || lo < 0 || lo >= nodes.len() {
        None
    } else if nodes[lo].kind is Text {
        Some(text_piece(nodes[lo]))
    } else {
        first_text_between(nodes, lo + 1, hi)
    }
}

/// The first text node among node `i` and its descendants
/// (`ElementRef::text().next()`).
pub open spec fn first_text_under(nodes: Seq<NodeShapeView>, i: int) -> Option<Seq<char>> {
    first_text_between(nodes, i, subtree_end(nodes, i))
}

/// The node that follows node `i` under the same parent.
pub open spec fn next_sibling(nodes: Seq<NodeShapeView>, i: int) -> Option<int> {
    let e = subtree_end(nodes, i);
    if e < nodes.len() && nodes[e].depth == nodes[i].depth {
        Some(e)
    } else {
        None
    }
}

/// The first child of node `i`.
pub open spec fn first_child(nodes: Seq<NodeShapeView>, i: int) -> Option<int> {
    let n = nodes.len();
    if i + 1 < n && nodes[i + 1].depth > nodes[i].depth {
        Some(i + 1)
    } else {
        None
    }
}

/// An optional position as an integer.
pub open spec fn opt_int(r: Option<usize>) -> Option<int> {
    match r {
        Some(x) => Some(x as int),
        None => None,
    }
}

/// Whether node `i` is an element.
pub open spec fn is_element(nodes: Seq<NodeShapeView>, i: int) -> bool {
    nodes[i].kind is Element
}

/// A subtree walk from `j` stays within `j..=len`.
pub proof fn lemma_subtree_end_from_bounds(nodes: Seq<NodeShapeView>, d: usize, j: int)
    requires
        0 <= j <= nodes.len(),
    ensures
        j <= subtree_end_from(nodes, d, j) <= nodes.len(),
    decreases nodes.len() - j,
{
    if 0 <= j < nodes.len() && nodes[j].depth > d {
        lemma_subtree_end_from_bounds(nodes, d, j + 1);
    }
}

/// One past the last node of the subtree rooted at node `i`.
pub fn subtree_end_exec(nodes: &Vec<NodeShape>, i: usize) -> (r: usize)
    requires
        i < nodes@.len(),
    ensures
        r as int == subtree_end(nodes.deep_view(), i as int),
        i < r <= nodes@.len(),
{
    let ghost nv = nodes.deep_view();
    let n = nodes.len();
    let d = nodes[i].depth;
    let mut j: usize = i + 1;
    proof {
        lemma_subtree_end_from_bounds(nv, d, j as int);
    }
    while j < nodes.len() && nodes[j].depth > d
        invariant
            nv == nodes.deep_view(),
            d == nv[i as int].depth,
            i < j <= nodes@.len(),
            subtree_end_from(nv, d, j as int) == subtree_end(nv, i as int),
        decreases nodes@.len() - j,
    {
        j = j + 1;
    }
    j
}

/// The descendants of node `scope` at which `mask` holds, in document order.
pub fn select_exec(nodes: &Vec<NodeShape>, mask: &Vec<bool>, scope: usize) -> (r: Vec<usize>)
    requires
        scope < nodes@.len(),
        mask@.len() == nodes@.len(),
    ensures
        r@.map_values(|x: usize| x as int) == select_in(nodes.deep_view(), mask.deep_view(), scope as int),
        forall|m: int| 0 <= m < r@.len() ==> scope < #[trigger] r@[m] < nodes@.len(),
{
    let end = subtree_end_exec(nodes, scope);
    let ghost mv = mask.deep_view();
    let mut r: Vec<usize> = Vec::new();
    let mut j: usize = scope + 1;
    while j < end
        invariant
            mv == mask.deep_view(),
            mask@.len() == nodes@.len(),
            scope < j <= end <= nodes@.len(),
            r@.map_values(|x: usize| x as int) == positions_in(mv, scope + 1, j as int),
            forall|m: int| 0 <= m < r@.len() ==> scope < #[trigger] r@[m] < j,
        decreases end - j,
    {
        if mask[j] {
            r.push(j);
        }
        assert(r@.map_values(|x: usize| x as int) =~= positions_in(mv, scope + 1, j + 1));
        j = j + 1;
    }
    r
}

/// All text of node `i` and its descendants, in order.
pub fn text_under_exec(nodes: &Vec<NodeShape>, i: usize) -> (r: String)
    requires
        i < nodes@.len(),
    ensures
        r@ == text_under(nodes.deep_view(), i as int),
{
    let end = subtree_end_exec(nodes, i);
    let ghost nv = nodes.deep_view();
    let mut out: Vec<char> = Vec::new();
    let mut j: usize = i;
    while j < end
        invariant
            nv == nodes.deep_view(),
            i <= j <= end <= nodes@.len(),
            out@ == text_between(nv, i as int, j as int),
        decreases end - j,
    {
        match &nodes[j].kind {
            NodeKind::Text(t) => {
                let mut piece = chars_of(t.as_str());
                out.append(&mut piece);
            },
            _ => {},
        }
        assert(out@ =~= text_between(nv, i as int, j + 1));
        j = j + 1;
    }
    string_of(&out)
}

/// The first text node among node `i` and its descendants.
pub fn first_text_under_exec(nodes: &Vec<NodeShape>, i: usize) -> (r: Option<String>)
    requires
        i < nodes@.len(),
    ensures
        r.deep_view() == first_text_under(nodes.deep_view(), i as int),
{
    let end = subtree_end_exec(nodes, i);
    let ghost nv = nodes.deep_view();
    let mut j: usize = i;
    while j < end
        invariant
            nv == nodes.deep_view(),
            i <= j <= end <= nodes@.len(),
            first_text_between(nv, j as int, end as int) == first_text_under(nv, i as int),
        decreases end - j,
    {
        match &nodes[j].kind {
            NodeKind::Text(t) => {
                return Some(t.clone());
            },
            _ => {},
        }
        j = j + 1;
    }
    None
}

/// The node that follows node `i` under the same parent.
pub fn next_sibling_exec(nodes: &Vec<NodeShape>, i: usize) -> (r: Option<usize>)
    requires
        i < nodes@.len(),
    ensures
        opt_int(r) == next_sibling(nodes.deep_view(), i as int),
        r matches Some(x) ==> x < nodes@.len(),
{
    let e = subtree_end_exec(nodes, i);
    if e < nodes.len() && nodes[e].depth == nodes[i].depth {
        Some(e)
    } else {
        None
    }
}

/// The first child of node `i`.
pub fn first_child_exec(nodes: &Vec<NodeShape>, i: usize) -> (r: Option<usize>)
    requires
        i < nodes@.len(),
    ensures
        opt_int(r) == first_child(nodes.deep_view(), i as int),
        r matches Some(x) ==> x < nodes@.len(),
{
    let n = nodes.len();
    if i + 1 < n && nodes[i + 1].depth > nodes[i].depth {
        Some(i + 1)
    } else {
        None
    }
}

/// Whether node `i` is an element.
pub fn is_element_exec(nodes: &Vec<NodeShape>, i: usize) -> (r: bool)
    requires
        i < nodes@.len(),
    ensures
        r == is_element(nodes.deep_view(), i as int),
{
    match nodes[i].kind {
        NodeKind::Element => true,
        _ => false,
    }
}

/// The positions in `lo..hi` at which a mask holds: exactly those, in
/// strictly increasing order.
pub proof fn lemma_positions_in(mask: Seq<bool>, lo: int, hi: int)
    requires
        0 <= lo,
        hi <= mask.len(),
    ensures
        forall|k: int| 0 <= k < positions_in(mask, lo, hi).len() ==> lo <= #[trigger] positions_in(mask, lo, hi)[k] < hi
            && mask[positions_in(mask, lo, hi)[k]],
        forall|k1: int, k2: int|
            0 <= k1 < k2 < positions_in(mask, lo, hi).len() ==> #[trigger] positions_in(mask, lo, hi)[k1]
                < #[trigger] positions_in(mask, lo, hi)[k2],
        forall|j: int| lo <= j < hi && mask[j] ==> positions_in(mask, lo, hi).contains(j),
    decreases hi - lo,
{
    if hi > lo {
        lemma_positions_in(mask, lo, hi - 1);
        let prev = positions_in(mask, lo, hi - 1);
        if mask[hi - 1] {
            assert forall|j: int| lo <= j < hi && mask[j] implies positions_in(mask, lo, hi).contains(j) by {
                if j == hi - 1 {
                    assert(positions_in(mask, lo, hi)[prev.len() as int] == j);
                } else {
                    let k = choose|k: int| 0 <= k < prev.len() && prev[k] == j;
                    assert(positions_in(mask, lo, hi)[k] == j);
                }
            }
        }
    }
}

/// What a selection within node `scope` yields: exactly the descendants of
/// `scope` at which the mask holds, each once, in document order.
pub proof fn lemma_select_in(nodes: Seq<NodeShapeView>, mask: Seq<bool>, scope: int)
    requires
        0 <= scope < nodes.len(),
        mask.len() == nodes.len(),
    ensures
        forall|k: int| 0 <= k < select_in(nodes, mask, scope).len() ==> scope < #[trigger] select_in(nodes, mask, scope)[k]
            < subtree_end(nodes, scope) && mask[select_in(nodes, mask, scope)[k]],
        forall|k1: int, k2: int|
            0 <= k1 < k2 < select_in(nodes, mask, scope).len() ==> #[trigger] select_in(nodes, mask, scope)[k1]
                < #[trigger] select_in(nodes, mask, scope)[k2],
        forall|j: int| scope < j < subtree_end(nodes, scope) && mask[j] ==> select_in(nodes, mask, scope).contains(j),
{
    lemma_subtree_end_from_bounds(nodes, nodes[scope].depth, scope + 1);
    lemma_positions_in(mask, scope + 1, subtree_end(nodes, scope));
}

} // verus!
