//! Markdown to HTML, through pulldown-cmark with every extension enabled.
use vstd::prelude::*;

verus! {

/// The HTML that pulldown-cmark renders for a markdown text, with all of its
/// options (tables, footnotes, strikethrough, task lists, smart punctuation, ...).
pub uninterp spec fn html_of(markdown: Seq<char>) -> Seq<char>;

/// Relies on pulldown_cmark's `Parser::new_ext` with `Options::all()`, rendered
/// by `html::push_html` into an empty string: the result depends on the text
/// alone, and an empty text yields no events and so no HTML.
#[verifier::external_body]
pub(crate) fn md_to_html(markdown: &str) -> (r: String)
    ensures
        r@ == html_of(markdown@),
        markdown@.len() == 0 ==> r@.len() == 0,
{
    let parser = pulldown_cmark::Parser::new_ext(markdown, pulldown_cmark::Options::all());
    let mut html_output = String::new();
    pulldown_cmark::html::push_html(&mut html_output, parser);
    html_output
}

/// Renders a markdown text to HTML.
pub fn render_markdown(markdown: &str) -> (r: String)
    ensures
        r@ == html_of(markdown@),
        markdown@.len() == 0 ==> r@.len() == 0,
{
    md_to_html(markdown)
}

} // verus!
