//! The listing page as the HTML library parses it.
//!
//! Nothing here is proved: each function below makes one call into the
//! `select` crate, and its contract is taken on trust. A node is handed
//! around as its index in the document, a selection as the indices of its
//! nodes in the order in which the selection yields them.
//!
//! The parser and the walks below a node recurse once for each level of
//! nesting, so a page nested tens of thousands of elements deep can use up
//! the stack. No contract here speaks of that.

use vstd::prelude::*;
use select::document::Document;
use select::predicate::{Class, Name, Predicate};
use select::selection::Selection;

verus! {

/// `select::document::Document`, a parsed page. Its inside is not looked
/// into.
#[verifier::external_type_specification]
#[verifier::external_body]
pub struct ExDocument(select::document::Document);

/// The document that `Document::from` builds from a page's text.
pub uninterp spec fn parsed_document(text: Seq<char>) -> Document;

/// The number of nodes that a document holds.
pub uninterp spec fn node_count(d: Document) -> nat;

/// The nodes that `Document::find` yields for an element name and a class.
pub uninterp spec fn found_in_document(d: Document, name: Seq<char>, class: Seq<char>) -> Seq<
    usize,
>;

/// The nodes of `Selection::children` for the selection of `nodes`.
pub uninterp spec fn children_of(d: Document, nodes: Seq<usize>) -> Seq<usize>;

/// Whether `Node::is` holds of a node for an element name.
pub uninterp spec fn node_has_name(d: Document, node: usize, name: Seq<char>) -> bool;

/// Whether `Node::is` holds of a node for a class.
pub uninterp spec fn node_has_class(d: Document, node: usize, class: Seq<char>) -> bool;

/// The nodes that `Node::find` yields below a node for an element name and
/// a class.
pub uninterp spec fn found_under_node(
    d: Document,
    node: usize,
    name: Seq<char>,
    class: Seq<char>,
) -> Seq<usize>;

/// The nodes of `Selection::find` for an element name, below the selection
/// of `nodes`.
pub uninterp spec fn found_by_name(d: Document, nodes: Seq<usize>, name: Seq<char>) -> Seq<usize>;

/// The nodes of `Selection::find` for an element name and a class, below
/// the selection of `nodes`.
pub uninterp spec fn found_by_name_and_class(
    d: Document,
    nodes: Seq<usize>,
    name: Seq<char>,
    class: Seq<char>,
) -> Seq<usize>;

/// The text that `Node::text` gathers from a node and what is below it.
pub uninterp spec fn node_text(d: Document, node: usize) -> Seq<char>;

/// The longest page, in characters, that is handed to the parser. The
/// parser gathers comments, attribute values and text in buffers that grow
/// by doubling and panic once one needs more than 2^31 bytes. A character
/// of the page adds four bytes at most to such a buffer, so a page of 2^29
/// characters stays within that.
pub const MAX_PAGE_CHARS: usize = 0x2000_0000;

/// The document came out of the parser.
pub open spec fn is_parsed(d: Document) -> bool {
    exists|text: Seq<char>| d == #[trigger] parsed_document(text)
}

/// Every index is that of a node of the document.
pub open spec fn all_nodes(d: Document, nodes: Seq<usize>) -> bool {
    forall|i: int| 0 <= i < nodes.len() ==> (#[trigger] nodes[i]) < node_count(d)
}

/// `Document::from` on a `&str`: the page's text parsed. The result is a
/// function of the text alone. Texts that could outgrow the parser's
/// buffers are left out.
#[verifier::external_body]
pub(crate) fn parse_document(body: &str) -> (d: Document)
    requires
        body@.len() <= MAX_PAGE_CHARS,
    ensures
        d == parsed_document(body@),
{
    Document::from(body)
}

/// `Document::find` with the predicate `Name(name).and(Class(class))`: the
/// matching nodes in the order of the resulting selection. Each is a node
/// of the document.
#[verifier::external_body]
pub(crate) fn document_find(doc: &Document, name: &str, class: &str) -> (r: Vec<usize>)
    requires
        is_parsed(*doc),
    ensures
        r@ == found_in_document(*doc, name@, class@),
        forall|i: int| 0 <= i < r@.len() ==> (#[trigger] r@[i]) < node_count(*doc),
{
    doc.find(Name(name).and(Class(class))).into_selection().iter().map(|n| n.index()).collect()
}

/// `Selection::children` on the selection that holds `nodes`: the children
/// of its nodes in the order of the resulting selection. Each is a node of
/// the document, and a selection without nodes has no children.
#[verifier::external_body]
pub(crate) fn selection_children(doc: &Document, nodes: &Vec<usize>) -> (r: Vec<usize>)
    requires
        is_parsed(*doc),
        all_nodes(*doc, nodes@),
    ensures
        r@ == children_of(*doc, nodes@),
        forall|i: int| 0 <= i < r@.len() ==> (#[trigger] r@[i]) < node_count(*doc),
        nodes@.len() == 0 ==> r@.len() == 0,
{
    let selection = Selection::new(doc, nodes.iter().copied().collect());
    selection.children().iter().map(|n| n.index()).collect()
}

/// `Node::is` with the predicate `Name(name)`.
#[verifier::external_body]
pub(crate) fn node_is_named(doc: &Document, node: usize, name: &str) -> (r: bool)
    requires
        is_parsed(*doc),
        node < node_count(*doc),
    ensures
        r == node_has_name(*doc, node, name@),
{
    doc.nth(node).unwrap().is(Name(name))
}

/// `Node::is` with the predicate `Class(class)`.
#[verifier::external_body]
pub(crate) fn node_is_classed(doc: &Document, node: usize, class: &str) -> (r: bool)
    requires
        is_parsed(*doc),
        node < node_count(*doc),
    ensures
        r == node_has_class(*doc, node, class@),
{
    doc.nth(node).unwrap().is(Class(class))
}

/// `Node::find` with the predicate `Name(name).and(Class(class))`: the
/// matching nodes below `node` in the order of the resulting selection.
/// Each is a node of the document.
#[verifier::external_body]
pub(crate) fn node_find(doc: &Document, node: usize, name: &str, class: &str) -> (r: Vec<usize>)
    requires
        is_parsed(*doc),
        node < node_count(*doc),
    ensures
        r@ == found_under_node(*doc, node, name@, class@),
        forall|i: int| 0 <= i < r@.len() ==> (#[trigger] r@[i]) < node_count(*doc),
{
    let found = doc.nth(node).unwrap().find(Name(name).and(Class(class)));
    found.into_selection().iter().map(|n| n.index()).collect()
}

/// `Selection::find` with the predicate `Name(name)` on the selection that
/// holds `nodes`: the matching nodes in the order of the resulting
/// selection. Each is a node of the document, and nothing is found below a
/// selection without nodes.
#[verifier::external_body]
pub(crate) fn selection_find_name(doc: &Document, nodes: &Vec<usize>, name: &str) -> (r: Vec<
    usize,
>)
    requires
        is_parsed(*doc),
        all_nodes(*doc, nodes@),
    ensures
        r@ == found_by_name(*doc, nodes@, name@),
        forall|i: int| 0 <= i < r@.len() ==> (#[trigger] r@[i]) < node_count(*doc),
        nodes@.len() == 0 ==> r@.len() == 0,
{
    let selection = Selection::new(doc, nodes.iter().copied().collect());
    selection.find(Name(name)).iter().map(|n| n.index()).collect()
}

/// `Selection::find` with the predicate `Name(name).and(Class(class))` on
/// the selection that holds `nodes`: the matching nodes in the order of the
/// resulting selection. Each is a node of the document, and nothing is
/// found below a selection without nodes.
#[verifier::external_body]
pub(crate) fn selection_find_name_and_class(
    doc: &Document,
    nodes: &Vec<usize>,
    name: &str,
    class: &str,
) -> (r: Vec<usize>)
    requires
        is_parsed(*doc),
        all_nodes(*doc, nodes@),
    ensures
        r@ == found_by_name_and_class(*doc, nodes@, name@, class@),
        forall|i: int| 0 <= i < r@.len() ==> (#[trigger] r@[i]) < node_count(*doc),
        nodes@.len() == 0 ==> r@.len() == 0,
{
    let selection = Selection::new(doc, nodes.iter().copied().collect());
    selection.find(Name(name).and(Class(class))).iter().map(|n| n.index()).collect()
}

/// `Node::text`: the text of a node and of everything below it.
#[verifier::external_body]
pub(crate) fn text_of_node(doc: &Document, node: usize) -> (r: String)
    requires
        is_parsed(*doc),
        node < node_count(*doc),
    ensures
        r@ == node_text(*doc, node),
{
    doc.nth(node).unwrap().text()
}

} // verus!
