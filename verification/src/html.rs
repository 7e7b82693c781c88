//! An HTML page parsed by the `select` crate, queried by node index.
//!
//! The parse and the queries are `select`'s own; their results are named
//! functions of the page's source text.
use vstd::prelude::*;
use select::document::Document;
use select::predicate::{Class, Name};

verus! {

#[verifier::external_type_specification]
#[verifier::external_body]
pub struct ExDocument(Document);

/// Which elements a search keeps.
pub enum NodeFilter {
    /// Elements with this tag name (`select::predicate::Name`).
    Named(Seq<char>),
    /// Elements whose `class` attribute lists this class (`select::predicate::Class`).
    WithClass(Seq<char>),
}

/// Indices, in document order, of the nodes of the page parsed from `html`
/// that `filter` keeps: what `Document::find` hands out.
pub uninterp spec fn html_find(html: Seq<char>, filter: NodeFilter) -> Seq<usize>;

/// Indices of the descendants of node `node` of the page parsed from `html`
/// that `filter` keeps: what `Node::find` hands out.
pub uninterp spec fn html_find_below(html: Seq<char>, node: int, filter: NodeFilter) -> Seq<usize>;

/// The text of node `node` and all its descendants in the page parsed from
/// `html`: what `Node::text` returns.
pub uninterp spec fn html_text(html: Seq<char>, node: int) -> Seq<char>;

/// A parsed HTML page: the `select` document, the number of its nodes, and
/// the source text it was parsed from.
pub struct HtmlPage {
    doc: Document,
    node_count: usize,
    source: Ghost<Seq<char>>,
}

impl HtmlPage {
    /// The text the page was parsed from.
    pub closed spec fn source(&self) -> Seq<char> {
        self.source@
    }

    /// The number of nodes of the page.
    pub closed spec fn len(&self) -> nat {
        self.node_count as nat
    }
}

/// Parses `html` into a page: `Document::from(&str)`.
/// Claimed: the page records `html` as its source (the document is a function
/// of that text), and its node count is the length of the document's node list.
#[verifier::external_body]
pub fn parse_page(html: &str) -> (p: HtmlPage)
    ensures
        p.source() == html@,
{
    let doc = Document::from(html);
    let node_count = doc.nodes.len();
    HtmlPage { doc, node_count, source: Ghost(html@) }
}

/// The elements named `name`, in document order: `Document::find(Name(name))`,
/// each node handed out mapped to its index.
/// Claimed: the result is `html_find` of the source, and every index is a node
/// of the page (the iterator walks the document's node list).
#[verifier::external_body]
pub fn find_named(page: &HtmlPage, name: &str) -> (r: Vec<usize>)
    ensures
        r@ == html_find(page.source(), NodeFilter::Named(name@)),
        forall|i: int| 0 <= i < r.len() ==> #[trigger] r[i] < page.len(),
{
    page.doc.find(Name(name)).map(|n| n.index()).collect()
}

/// The elements listing class `class`, in document order:
/// `Document::find(Class(class))`, each node handed out mapped to its index.
/// Claimed: the result is `html_find` of the source, and every index is a node
/// of the page.
#[verifier::external_body]
pub fn find_with_class(page: &HtmlPage, class: &str) -> (r: Vec<usize>)
    ensures
        r@ == html_find(page.source(), NodeFilter::WithClass(class@)),
        forall|i: int| 0 <= i < r.len() ==> #[trigger] r[i] < page.len(),
{
    page.doc.find(Class(class)).map(|n| n.index()).collect()
}

/// The descendants of node `node` named `name`: `Node::find(Name(name))` on
/// the node that `Document::nth(node)` gives, each mapped to its index.
/// Claimed: the result is `html_find_below` of the source, and every index is
/// a node of the page.
#[verifier::external_body]
pub fn find_named_below(page: &HtmlPage, node: usize, name: &str) -> (r: Vec<usize>)
    requires
        node < page.len(),
    ensures
        r@ == html_find_below(page.source(), node as int, NodeFilter::Named(name@)),
        forall|i: int| 0 <= i < r.len() ==> #[trigger] r[i] < page.len(),
{
    page.doc.nth(node).unwrap().find(Name(name)).map(|n| n.index()).collect()
}

/// The text of node `node`: `Node::text` on the node that `Document::nth(node)`
/// gives. Claimed: the result is `html_text` of the source.
#[verifier::external_body]
pub fn node_text(page: &HtmlPage, node: usize) -> (r: String)
    requires
        node < page.len(),
    ensures
        r@ == html_text(page.source(), node as int),
{
    page.doc.nth(node).unwrap().text()
}

} // verus!
