//! Trusted boundary to the `dom_query` crate: parsing page markup into
//! a document tree and running structural queries over it. Query results
//! are opaque here; every value the extractors reason about is read out
//! as plain text through these wrappers. Selectors are parsed with
//! `dom_query::Matcher::new` rather than the panicking `select` entry
//! points, so a malformed query yields an empty selection instead.

use vstd::prelude::*;

verus! {

#[verifier::external_type_specification]
#[verifier::external_body]
pub struct ExDocument(dom_query::Document);

#[verifier::external_type_specification]
#[verifier::external_body]
pub struct ExSelection<'a>(dom_query::Selection<'a>);

/// Relies on `dom_query::Document`'s `From` impl: parses page markup
/// into a queryable tree.
#[verifier::external_body]
pub(crate) fn doc_from_html(html: &str) -> dom_query::Document {
    dom_query::Document::from(html)
}

/// Relies on `dom_query::Document::fragment`: parses a markup fragment
/// into a queryable tree.
#[verifier::external_body]
pub(crate) fn doc_from_fragment(html: &str) -> dom_query::Document {
    dom_query::Document::fragment(html)
}

/// Relies on `dom_query::Document::select_matcher`: all descendants of
/// the root matching the query, in document order.
#[verifier::external_body]
pub(crate) fn doc_select_all<'a>(doc: &'a dom_query::Document, sel: &str) -> Vec<
    dom_query::Selection<'a>,
> {
    match dom_query::Matcher::new(sel) {
        Ok(m) => doc.select_matcher(&m).iter().collect(),
        Err(_) => Vec::new(),
    }
}

/// Relies on `dom_query::Document::select_single_matcher`: the first
/// descendant of the root matching the query, as a possibly empty
/// selection.
#[verifier::external_body]
pub(crate) fn doc_select_first<'a>(doc: &'a dom_query::Document, sel: &str) -> dom_query::Selection<'a> {
    match dom_query::Matcher::new(sel) {
        Ok(m) => doc.select_single_matcher(&m),
        Err(_) => dom_query::Selection::default(),
    }
}

/// Relies on `dom_query::Selection::select_matcher`: all descendants of
/// the selection matching the query, in document order.
#[verifier::external_body]
pub(crate) fn sel_select_all<'a>(node: &dom_query::Selection<'a>, sel: &str) -> Vec<
    dom_query::Selection<'a>,
> {
    match dom_query::Matcher::new(sel) {
        Ok(m) => node.select_matcher(&m).iter().collect(),
        Err(_) => Vec::new(),
    }
}

/// Relies on `dom_query::Selection::select_single_matcher`: the first
/// descendant of the selection matching the query.
#[verifier::external_body]
pub(crate) fn sel_select_first<'a>(node: &dom_query::Selection<'a>, sel: &str) -> dom_query::Selection<
    'a,
> {
    match dom_query::Matcher::new(sel) {
        Ok(m) => node.select_single_matcher(&m),
        Err(_) => dom_query::Selection::default(),
    }
}

/// Relies on `dom_query::Selection::text`: the combined text content of
/// the selection's elements and their descendants.
#[verifier::external_body]
pub(crate) fn sel_text(node: &dom_query::Selection<'_>) -> String {
    node.text().to_string()
}

/// Relies on `dom_query::Selection::attr_or`: the named attribute of the
/// selection's first element, or the default where it is absent.
#[verifier::external_body]
pub(crate) fn sel_attr_or(node: &dom_query::Selection<'_>, name: &str, default: &str) -> String {
    node.attr_or(name, default).to_string()
}

/// Relies on `dom_query::Selection::exists`: whether the selection
/// matched any element.
#[verifier::external_body]
pub(crate) fn sel_exists(node: &dom_query::Selection<'_>) -> bool {
    node.exists()
}

} // verus!
