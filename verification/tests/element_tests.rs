use ferrous::crawler::{gather, page_matches, CrawlContext, RegisteredCallback};
use ferrous::element::{parse_page, text_of_nodes};
use ferrous::Element;

const BOOK: &str = r#"<html><body><article class="product_pod"><h3><a href="a-light-in-the-attic_1000/index.html" title="A Light in the Attic">A Light in the ...</a></h3><p class="price_color">  £51.77
</p></article></body></html>"#;

fn first<'a>(doc: &'a scraper::Html, selector: &str) -> Element<'a> {
    let sel = scraper::Selector::parse(selector).unwrap();
    Element::from_element_ref(doc.select(&sel).next().unwrap())
}

#[test]
fn text_joins_and_trims() {
    let doc = parse_page("<p>  Hello <b>big</b> world \n</p>");
    assert_eq!(first(&doc, "p").text(), Some("Hello big world".to_string()));
}

#[test]
fn text_of_whitespace_only_element_is_none() {
    let doc = parse_page("<p> \t\n </p><div></div>");
    assert_eq!(first(&doc, "p").text(), None);
    assert_eq!(first(&doc, "div").text(), None);
}

#[test]
fn attr_reads_the_element_itself() {
    let doc = parse_page(r#"<a href="page-2.html" class="next">next <b title="inner">x</b></a>"#);
    let a = first(&doc, "a");
    assert_eq!(a.attr("href"), Some("page-2.html".to_string()));
    assert_eq!(a.attr("title"), None);
}

#[test]
fn table_cells_keep_their_text_and_attributes() {
    let doc = parse_page(r#"<table><tbody><tr class="row"><td data-k="v"> cell </td><th>head</th></tr></tbody></table>"#);
    let td = first(&doc, "td");
    assert_eq!(td.text(), Some("cell".to_string()));
    assert_eq!(td.attr("data-k"), Some("v".to_string()));
    let tr = first(&doc, "tr");
    assert_eq!(tr.attr("class"), Some("row".to_string()));
    assert_eq!(tr.select_text("th"), Some("head".to_string()));
    assert_eq!(tr.select_attr("td", "data-k"), Some("v".to_string()));
}

#[test]
fn select_text_and_attr_find_first_descendant() {
    let doc = parse_page(BOOK);
    let el = first(&doc, "article.product_pod");
    assert_eq!(el.select_text("p.price_color"), Some("£51.77".to_string()));
    assert_eq!(el.select_attr("h3 a", "title"), Some("A Light in the Attic".to_string()));
    assert_eq!(el.select_attr("h3 a", "rel"), None);
    assert_eq!(el.select_text("span.missing"), None);
}

#[test]
fn selecting_never_matches_the_element_itself() {
    let doc = parse_page("<div><span>a</span></div>");
    let div = first(&doc, "div");
    assert_eq!(div.select_text("div"), None);
    assert_eq!(div.select_text("span"), Some("a".to_string()));
}

#[test]
fn invalid_selector_gives_none() {
    let doc = parse_page(BOOK);
    let el = first(&doc, "article");
    assert_eq!(el.select_text("p[[["), None);
    assert_eq!(el.select_attr("###", "href"), None);
}

#[test]
fn text_of_nodes_concatenates_then_trims() {
    let nodes = vec![" a".to_string(), "b ".to_string(), "\u{3000}c\u{a0}".to_string()];
    assert_eq!(text_of_nodes(&nodes), Some("ab \u{3000}c".to_string()));
    assert_eq!(text_of_nodes(&vec![" ".to_string(), "\n".to_string()]), None);
    assert_eq!(text_of_nodes(&Vec::new()), None);
}

#[test]
fn page_matches_groups_elements_per_callback_in_document_order() {
    let doc = parse_page(r#"<ul><li class="next"><a href="p2">n</a></li><li><a href="x">x</a></li></ul>"#);
    let callbacks = vec![
        RegisteredCallback { selector: "a".to_string(), callback: 1u8 },
        RegisteredCallback { selector: "li.next a".to_string(), callback: 2u8 },
        RegisteredCallback { selector: "table".to_string(), callback: 3u8 },
        RegisteredCallback { selector: "[[[".to_string(), callback: 4u8 },
    ];
    let m = page_matches(&doc, &callbacks);
    assert_eq!(m.len(), 4);
    let hrefs: Vec<Option<String>> = m[0].iter().map(|e| e.attr("href")).collect();
    assert_eq!(hrefs, vec![Some("p2".to_string()), Some("x".to_string())]);
    assert_eq!(m[1].len(), 1);
    assert_eq!(m[1][0].attr("href"), Some("p2".to_string()));
    assert!(m[2].is_empty());
    assert!(m[3].is_empty());
}

#[test]
fn gather_concatenates_contexts_in_order() {
    let mut a = CrawlContext::new("u".to_string());
    a.visit("https://x.com/1/");
    a.push_item(serde_json::Value::from(1));
    let mut b = CrawlContext::new("u".to_string());
    b.visit("https://x.com/2");
    b.visit("https://x.com/1");
    b.push_item(serde_json::Value::from(2));
    let (visits, items) = gather(vec![a, b]);
    assert_eq!(visits, vec!["https://x.com/1".to_string(), "https://x.com/2".to_string(), "https://x.com/1".to_string()]);
    assert_eq!(items, vec![serde_json::Value::from(1), serde_json::Value::from(2)]);
}
