//! The boundary to the markdown converter.

use pulldown_cmark::html::push_html;
use pulldown_cmark::Parser;
use vstd::prelude::*;

verus! {

/// The HTML that the converter produces for a markdown text. The converter
/// reads nothing but the text, so equal texts give equal HTML.
pub uninterp spec fn markdown_html(markdown: Seq<char>) -> Seq<char>;

/// Converts markdown to HTML with `pulldown_cmark`: the events that
/// `Parser::new` yields for `markdown`, with no extension switched on, are
/// written by `html::push_html` onto an empty `String`, which is returned.
///
/// Trusted, not proved: the call returns for every text, and its result
/// depends on the text alone; that result is what `markdown_html` names.
#[verifier::external_body]
pub(crate) fn to_html(markdown: &str) -> (html: String)
    ensures
        html@ == markdown_html(markdown@),
{
    let parser = Parser::new(markdown);
    let mut html = String::new();
    push_html(&mut html, parser);
    html
}

} // verus!
