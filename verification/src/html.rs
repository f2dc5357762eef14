//! Markdown-to-HTML conversion, delegated to a commonmark renderer.

use vstd::prelude::*;

verus! {

/// The HTML that the commonmark renderer produces for the given Markdown
/// text, with the table and footnote extensions enabled.
pub uninterp spec fn html_of(md: Seq<char>) -> Seq<char>;

/// Converts Markdown into HTML.
///
/// Relies on pulldown_cmark's `Parser::new_ext` and `html::push_html`: the
/// parser is a pure function of the Markdown text and the chosen options,
/// and `push_html` appends the rendered events to the (empty) output string,
/// so the result is a function of the Markdown text alone.
#[verifier::external_body]
pub fn markdown_to_html(markdown: &str) -> (r: String)
    ensures
        r@ == html_of(markdown@),
{
    let parser = pulldown_cmark::Parser::new_ext(
        markdown,
        pulldown_cmark::Options::ENABLE_TABLES | pulldown_cmark::Options::ENABLE_FOOTNOTES,
    );
    let mut html = String::new();
    pulldown_cmark::html::push_html(&mut html, parser);
    html
}

} // verus!
