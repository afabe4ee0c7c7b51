//! Queries on HTML text by CSS selector. Each query parses the markup it is
//! given; nested queries run on the markup of an element found by an outer one.
//! That element then stands directly in the parsed document's `body`, so a
//! nested query written `body > * X` matches only the element's descendants, as
//! a query inside the outer document would. Its markup must stand on its own: a
//! table row outside its table would lose its structure.
//!
//! Matches come in the order in which scraper's tree holds the nodes: the order
//! of the document, except where the HTML parser moves nodes while it builds the
//! tree. Markup is written with attributes in source order (scraper's
//! `deterministic` feature), so each query is a function of its arguments.
use vstd::prelude::*;

verus! {

/// The markup of every element of `html` that `selector` matches, in the order
/// in which scraper's tree stores the nodes.
pub uninterp spec fn fragments_of(html: Seq<char>, selector: Seq<char>) -> Seq<Seq<char>>;

/// The markup inside every element of `html` that `selector` matches, in the
/// order in which scraper's tree stores the nodes.
pub uninterp spec fn inner_fragments_of(html: Seq<char>, selector: Seq<char>) -> Seq<Seq<char>>;

/// For every element of `html` that `selector` matches, in the order in which
/// scraper's tree stores the nodes, the text nodes below it, depth first.
pub uninterp spec fn text_nodes_of(html: Seq<char>, selector: Seq<char>) -> Seq<Seq<Seq<char>>>;

/// For every element of `html` that `selector` matches, in the order in which
/// scraper's tree stores the nodes, the value of its attribute `name`, if it
/// has one.
pub uninterp spec fn attrs_of(html: Seq<char>, selector: Seq<char>, name: Seq<char>) -> Seq<
    Option<Seq<char>>,
>;

/// Relies on scraper's `Html::parse_document`, `Selector::parse`, `Html::select` and
/// `ElementRef::html`: the markup of each matching element, attributes in source
/// order. A selector that does
/// not compile matches nothing.
#[verifier::external_body]
pub(crate) fn select_fragments(html: &str, selector: &str) -> (r: Vec<String>)
    ensures
        r.deep_view() == fragments_of(html@, selector@),
{
    let doc = scraper::Html::parse_document(html);
    match scraper::Selector::parse(selector) {
        Ok(sel) => doc.select(&sel).map(|e| e.html()).collect(),
        Err(_) => Vec::new(),
    }
}

/// Relies on scraper's `Html::parse_document`, `Selector::parse`, `Html::select` and
/// `ElementRef::inner_html`: the markup inside each matching element, attributes
/// in source order. A selector
/// that does not compile matches nothing.
#[verifier::external_body]
pub(crate) fn select_inner_fragments(html: &str, selector: &str) -> (r: Vec<String>)
    ensures
        r.deep_view() == inner_fragments_of(html@, selector@),
{
    let doc = scraper::Html::parse_document(html);
    match scraper::Selector::parse(selector) {
        Ok(sel) => doc.select(&sel).map(|e| e.inner_html()).collect(),
        Err(_) => Vec::new(),
    }
}

/// Relies on scraper's `Html::parse_document`, `Selector::parse`, `Html::select` and
/// `ElementRef::text`: the text nodes below each matching element. A selector that
/// does not compile matches nothing.
#[verifier::external_body]
pub(crate) fn select_text_nodes(html: &str, selector: &str) -> (r: Vec<Vec<String>>)
    ensures
        r.deep_view() == text_nodes_of(html@, selector@),
{
    let doc = scraper::Html::parse_document(html);
    match scraper::Selector::parse(selector) {
        Ok(sel) => doc.select(&sel).map(|e| e.text().map(String::from).collect()).collect(),
        Err(_) => Vec::new(),
    }
}

/// Relies on scraper's `Html::parse_document`, `Selector::parse`, `Html::select` and
/// `Element::attr`: the named attribute of each matching element. A selector that
/// does not compile matches nothing.
#[verifier::external_body]
pub(crate) fn select_attrs(html: &str, selector: &str, name: &str) -> (r: Vec<Option<String>>)
    ensures
        r.deep_view() == attrs_of(html@, selector@, name@),
{
    let doc = scraper::Html::parse_document(html);
    match scraper::Selector::parse(selector) {
        Ok(sel) => doc.select(&sel).map(|e| e.value().attr(name).map(String::from)).collect(),
        Err(_) => Vec::new(),
    }
}

/// All the texts, one after another.
pub open spec fn concat_spec(parts: Seq<Seq<char>>) -> Seq<char>
    decreases parts.len(),
{
    if parts.len() == 0 {
        Seq::empty()
    } else {
        concat_spec(parts.drop_last()) + parts.last()
    }
}

pub open spec fn texts_spec(nodes: Seq<Seq<Seq<char>>>) -> Seq<Seq<char>> {
    nodes.map_values(|t: Seq<Seq<char>>| concat_spec(t))
}

/// The text of every element that `selector` matches, in the order in which
/// scraper's tree stores the nodes.
pub fn select_texts(html: &str, selector: &str) -> (r: Vec<String>)
    ensures
        r.deep_view() == texts_spec(text_nodes_of(html@, selector@)),
{
    let nodes = select_text_nodes(html, selector);
    let mut out: Vec<String> = Vec::new();
    let mut i: usize = 0;
    while i < nodes.len()
        invariant
            i <= nodes.len(),
            nodes.deep_view() == text_nodes_of(html@, selector@),
            out.deep_view() == texts_spec(nodes.deep_view().take(i as int)),
        decreases nodes.len() - i,
    {
        let t = concat_texts(&nodes[i]);
        let ghost prev = out.deep_view();
        out.push(t);
        proof {
            assert(nodes.deep_view()[i as int] == nodes@[i as int].deep_view());
            assert(out.deep_view() =~= prev.push(t@));
            assert(out.deep_view() =~= texts_spec(nodes.deep_view().take(i as int + 1)));
        }
        i = i + 1;
    }
    assert(nodes.deep_view().take(i as int) =~= nodes.deep_view());
    out
}

/// Concatenates the texts in order.
pub fn concat_texts(parts: &Vec<String>) -> (r: String)
    ensures
        r@ == concat_spec(parts.deep_view()),
{
    let mut out = String::new();
    let mut i: usize = 0;
    while i < parts.len()
        invariant
            i <= parts.len(),
            out@ == concat_spec(parts.deep_view().take(i as int)),
        decreases parts.len() - i,
    {
        proof {
            assert(parts.deep_view().take(i as int + 1).drop_last() =~= parts.deep_view().take(
                i as int,
            ));
        }
        out.append(parts[i].as_str());
        i = i + 1;
    }
    assert(parts.deep_view().take(i as int) =~= parts.deep_view());
    out
}

} // verus!
