//! An HTML element matched by a callback's selector, with the text and
//! attribute lookups that callbacks use, and the matching of a page against
//! the registered selectors. Parsing, selector matching and tree walks are
//! scraper's; joining, trimming, the empty-means-absent rule, taking the
//! first match and the grouping per callback are ours.

use vstd::prelude::*;
use vstd::string::StringExecFns;
use crate::text::{is_whitespace, lemma_trim_bounds, opt_text, texts, trim, trim_whitespace};

verus! {

/// A reference to an element inside a parsed scraper document.
#[verifier::external_type_specification]
#[verifier::external_body]
pub struct ExElementRef<'a>(scraper::ElementRef<'a>);

/// A parsed HTML document.
#[verifier::external_type_specification]
#[verifier::external_body]
pub struct ExHtml(scraper::Html);

/// Whether `selector` parses as a CSS selector group (scraper's
/// `Selector::parse` succeeds).
pub uninterp spec fn selector_parses(selector: Seq<char>) -> bool;

/// `html` parsed as a whole document (scraper's `Html::parse_document`).
pub uninterp spec fn parsed_document(html: Seq<char>) -> scraper::Html;

/// The elements of `doc` that match the CSS selector group `selector`, in
/// the order scraper's `Html::select` yields them: the order in which the
/// parser created the nodes.
pub uninterp spec fn document_matches(doc: &scraper::Html, selector: Seq<char>) -> Seq<scraper::ElementRef<'_>>;

/// The text nodes under an element, the element's own and its descendants',
/// in document order (scraper's `ElementRef::text`).
pub uninterp spec fn element_text_nodes(el: scraper::ElementRef<'_>) -> Seq<Seq<char>>;

/// The value of the attribute `name` on an element itself (scraper's
/// `Element::attr`).
pub uninterp spec fn element_attr(el: scraper::ElementRef<'_>, name: Seq<char>) -> Option<Seq<char>>;

/// The descendants of an element that match the CSS selector group
/// `selector` (scraper's `ElementRef::select`, which leaves out the element
/// itself), each read as its text nodes: `None` when `selector` does not
/// parse.
pub uninterp spec fn descendant_match_texts(el: scraper::ElementRef<'_>, selector: Seq<char>) -> Option<Seq<Seq<Seq<char>>>>;

/// The descendants of an element that match the CSS selector group
/// `selector`, each read as its attribute `attr`: `None` when `selector`
/// does not parse.
pub uninterp spec fn descendant_match_attrs(el: scraper::ElementRef<'_>, selector: Seq<char>, attr: Seq<char>) -> Option<Seq<Option<Seq<char>>>>;

/// All text nodes concatenated in order.
pub open spec fn joined(nodes: Seq<Seq<char>>) -> Seq<char>
    decreases nodes.len(),
{
    if nodes.len() == 0 {
        Seq::empty()
    } else {
        joined(nodes.drop_last()) + nodes.last()
    }
}

/// The value an element's text lookup yields for its text nodes: their
/// concatenation with surrounding whitespace removed, absent when empty.
pub open spec fn text_value(nodes: Seq<Seq<char>>) -> Option<Seq<char>> {
    let t = trim(joined(nodes));
    if t.len() == 0 {
        None
    } else {
        Some(t)
    }
}

/// The texts of a list of text-node lists.
pub open spec fn nested_texts(v: Seq<Vec<String>>) -> Seq<Seq<Seq<char>>> {
    v.map_values(|n: Vec<String>| texts(n@))
}

/// The texts of a list of optional strings.
pub open spec fn opt_texts(v: Seq<Option<String>>) -> Seq<Option<Seq<char>>> {
    v.map_values(|o: Option<String>| opt_text(o))
}

/// The text nodes are joined by plain concatenation, every node kept,
/// whitespace-only ones included: joining one more node appends it.
pub proof fn law_joined_appends_every_node(nodes: Seq<Seq<char>>, x: Seq<char>)
    ensures
        joined(Seq::<Seq<char>>::empty()) == Seq::<char>::empty(),
        joined(nodes.push(x)) == joined(nodes) + x,
        joined(seq![x]) == x,
{
    assert(nodes.push(x).drop_last() == nodes);
    assert(seq![x].drop_last() =~= Seq::<Seq<char>>::empty());
    assert(Seq::<char>::empty() + x =~= x);
}

/// Text read from an element is never empty and never starts or ends with
/// whitespace; when the text nodes hold only whitespace, there is no text.
pub proof fn law_text_is_trimmed(nodes: Seq<Seq<char>>)
    ensures
        text_value(nodes) matches Some(t) ==> {
            &&& t.len() > 0
            &&& !is_whitespace(t[0])
            &&& !is_whitespace(t.last())
            &&& trim(t) == t
        },
        text_value(nodes) is None <==> trim(joined(nodes)).len() == 0,
{
    lemma_trim_bounds(joined(nodes));
}

/// Whether `selector` is a valid CSS selector group.
#[verifier::external_body]
pub(crate) fn selector_is_valid(selector: &str) -> (b: bool)
    ensures
        b == selector_parses(selector@),
{
    scraper::Selector::parse(selector).is_ok()
}

/// Parses a whole HTML document.
#[verifier::external_body]
fn parse_document(html: &str) -> (d: scraper::Html)
    ensures
        d == parsed_document(html@),
{
    scraper::Html::parse_document(html)
}

/// The elements of `doc` matching `selector`, in order; `None` when the
/// selector does not parse.
#[verifier::external_body]
pub(crate) fn select_document<'a>(doc: &'a scraper::Html, selector: &str) -> (r: Option<Vec<scraper::ElementRef<'a>>>)
    ensures
        r is None <==> !selector_parses(selector@),
        r matches Some(v) ==> v@ == document_matches(doc, selector@),
{
    match scraper::Selector::parse(selector) {
        Ok(sel) => Some(doc.select(&sel).collect()),
        Err(_) => None,
    }
}

/// The text nodes under an element.
#[verifier::external_body]
fn text_nodes(el: scraper::ElementRef<'_>) -> (r: Vec<String>)
    ensures
        texts(r@) == element_text_nodes(el),
{
    el.text().map(|t| t.to_string()).collect()
}

/// The attribute `name` of an element.
#[verifier::external_body]
fn attr_value(el: scraper::ElementRef<'_>, name: &str) -> (r: Option<String>)
    ensures
        opt_text(r) == element_attr(el, name@),
{
    el.value().attr(name).map(|a| a.to_string())
}

/// The text nodes of each descendant matching `selector`.
#[verifier::external_body]
fn descendant_texts(el: scraper::ElementRef<'_>, selector: &str) -> (r: Option<Vec<Vec<String>>>)
    ensures
        r is None <==> !selector_parses(selector@),
        r matches Some(v) ==> descendant_match_texts(el, selector@) == Some(nested_texts(v@)),
        r is None ==> descendant_match_texts(el, selector@) is None,
{
    match scraper::Selector::parse(selector) {
        Ok(sel) => Some(el.select(&sel).map(|m| m.text().map(|t| t.to_string()).collect()).collect()),
        Err(_) => None,
    }
}

/// The attribute `attr` of each descendant matching `selector`.
#[verifier::external_body]
fn descendant_attrs(el: scraper::ElementRef<'_>, selector: &str, attr: &str) -> (r: Option<Vec<Option<String>>>)
    ensures
        r is None <==> !selector_parses(selector@),
        r matches Some(v) ==> descendant_match_attrs(el, selector@, attr@) == Some(opt_texts(v@)),
        r is None ==> descendant_match_attrs(el, selector@, attr@) is None,
{
    match scraper::Selector::parse(selector) {
        Ok(sel) => Some(el.select(&sel).map(|m| m.value().attr(attr).map(|a| a.to_string())).collect()),
        Err(_) => None,
    }
}

/// Concatenates the text nodes, trims surrounding whitespace, and yields
/// `None` for an empty result.
pub fn text_of_nodes(nodes: &Vec<String>) -> (r: Option<String>)
    ensures
        opt_text(r) == text_value(texts(nodes@)),
{
    let mut all = String::new();
    let n = nodes.len();
    for i in 0..n
        invariant
            n == nodes@.len(),
            all@ == joined(texts(nodes@).take(i as int)),
    {
        all.append(nodes[i].as_str());
        assert(texts(nodes@).take(i + 1).drop_last() =~= texts(nodes@).take(i as int));
    }
    assert(texts(nodes@).take(n as int) =~= texts(nodes@));
    let t = trim_whitespace(all.as_str());
    if t.as_str().is_empty() {
        None
    } else {
        Some(t)
    }
}

/// `html` parsed as a whole HTML document, ready for `page_matches`.
pub fn parse_page(html: &str) -> (d: scraper::Html)
    ensures
        d == parsed_document(html@),
{
    parse_document(html)
}

/// An element matched by a registered selector.
pub struct Element<'a> {
    node: scraper::ElementRef<'a>,
}

impl<'a> Element<'a> {
    /// The element in its parsed document.
    pub closed spec fn node(&self) -> scraper::ElementRef<'a> {
        self.node
    }

    /// The element behind a match in a parsed document.
    pub fn from_element_ref(el: scraper::ElementRef<'a>) -> (e: Self)
        ensures
            e.node() == el,
    {
        Element { node: el }
    }

    /// Text content of the matched element itself (direct and descendant
    /// text nodes), trimmed; `None` when empty.
    pub fn text(&self) -> (r: Option<String>)
        ensures
            opt_text(r) == text_value(element_text_nodes(self.node())),
    {
        text_of_nodes(&text_nodes(self.node))
    }

    /// Attribute value on the matched element itself.
    pub fn attr(&self, name: &str) -> (r: Option<String>)
        ensures
            opt_text(r) == element_attr(self.node(), name@),
    {
        attr_value(self.node, name)
    }

    /// Text content, trimmed, of the first element under this one that
    /// matches `selector`; `None` when the selector is invalid, nothing
    /// matches, or the text is empty.
    pub fn select_text(&self, selector: &str) -> (r: Option<String>)
        ensures
            !selector_parses(selector@) ==> r is None,
            opt_text(r) == (match descendant_match_texts(self.node(), selector@) {
                Some(all) => if all.len() > 0 { text_value(all[0]) } else { None },
                None => None,
            }),
    {
        match descendant_texts(self.node, selector) {
            Some(all) => {
                if all.len() > 0 {
                    proof {
                        assert(nested_texts(all@)[0] == texts(all@[0]@));
                    }
                    text_of_nodes(&all[0])
                } else {
                    None
                }
            },
            None => None,
        }
    }

    /// Attribute value of the first element under this one that matches
    /// `selector`; `None` when the selector is invalid, nothing matches, or
    /// the attribute is absent.
    pub fn select_attr(&self, selector: &str, attr: &str) -> (r: Option<String>)
        ensures
            !selector_parses(selector@) ==> r is None,
            opt_text(r) == (match descendant_match_attrs(self.node(), selector@, attr@) {
                Some(all) => if all.len() > 0 { all[0] } else { None },
                None => None,
            }),
    {
        match descendant_attrs(self.node, selector, attr) {
            Some(all) => {
                if all.len() > 0 {
                    proof {
                        assert(opt_texts(all@)[0] == opt_text(all@[0]));
                    }
                    all[0].clone()
                } else {
                    None
                }
            },
            None => None,
        }
    }
}

} // verus!
