use cookie_run_kingdom_wiki_scraper::dom::{
    first_child_exec, first_text_under_exec, is_element_exec, next_sibling_exec, select_exec,
    subtree_end_exec, text_under_exec, NodeKind, PageData,
};
use cookie_run_kingdom_wiki_scraper::error::ScrapeError;
use cookie_run_kingdom_wiki_scraper::pattern::strip_revision;

const PAGE: &str = "<html><head></head><body><div id=\"a\"><p class=\"x\">one<b>two</b></p>\n<p class=\"x\">three</p></div><p>four</p></body></html>";

fn load() -> PageData {
    match PageData::load(PAGE, &["p.x", "b"], &["class", "id"]) {
        Ok(p) => p,
        Err(_) => panic!("selectors should parse"),
    }
}

#[test]
fn outline_starts_at_the_document() {
    let p = load();
    assert_eq!(p.nodes[0].depth, 0);
    assert!(!is_element_exec(&p.nodes, 0));
    assert!(is_element_exec(&p.nodes, 1));
    assert_eq!(p.nodes[1].depth, 1);
    assert_eq!(subtree_end_exec(&p.nodes, 0), p.nodes.len());
    assert_eq!(p.masks.len(), 2);
    assert_eq!(p.masks[0].len(), p.nodes.len());
    assert_eq!(p.attrs[0].len(), p.nodes.len());
    assert_eq!(p.inner_html.len(), p.nodes.len());
}

#[test]
fn selection_text_and_navigation() {
    let p = load();
    let found = select_exec(&p.nodes, &p.masks[0], 0);
    assert_eq!(found.len(), 2);
    let first = found[0];
    assert_eq!(text_under_exec(&p.nodes, first), "onetwo");
    assert_eq!(first_text_under_exec(&p.nodes, first), Some("one".to_string()));
    assert_eq!(p.attrs[0][first], Some("x".to_string()));
    assert_eq!(p.inner_html[first], Some("one<b>two</b>".to_string()));
    let inner_bold = select_exec(&p.nodes, &p.masks[1], first);
    assert_eq!(inner_bold.len(), 1);
    let second_bold = select_exec(&p.nodes, &p.masks[1], found[1]);
    assert!(second_bold.is_empty());
    // The paragraph's first child is its text node.
    let child = first_child_exec(&p.nodes, first).unwrap();
    assert!(matches!(p.nodes[child].kind, NodeKind::Text(_)));
    // After the first paragraph comes the line break, then the second paragraph.
    let sib = next_sibling_exec(&p.nodes, first).unwrap();
    assert!(!is_element_exec(&p.nodes, sib));
    let sib2 = next_sibling_exec(&p.nodes, sib).unwrap();
    assert_eq!(sib2, found[1]);
    assert_eq!(next_sibling_exec(&p.nodes, found[1]), None);
}

#[test]
fn refused_selector_is_reported() {
    match PageData::load(PAGE, &["p..x"], &[]) {
        Err(e) => assert_eq!(e, ScrapeError::InvalidSelector),
        Ok(_) => panic!("selector should be refused"),
    }
}

#[test]
fn revision_suffix_is_cut() {
    assert_eq!(
        strip_revision("https://static.wikia.nocookie.net/x/images/a/ab/GB.png/revision/latest?cb=2021"),
        "https://static.wikia.nocookie.net/x/images/a/ab/GB.png".to_string()
    );
    assert_eq!(strip_revision("plain.png"), "plain.png".to_string());
}

#[test]
fn revision_suffix_ends_at_its_line() {
    assert_eq!(strip_revision("a.png/revision/1\nb.png/revision/2"), "a.png\nb.png/revision/2".to_string());
    assert_eq!(strip_revision("x/revision/"), "x".to_string());
    assert_eq!(strip_revision("/revision/latest"), "".to_string());
}
