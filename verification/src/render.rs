//! Markdown rendering.
//!
//! Rendering is a pure, total function from source text to HTML markup:
//! the same text always yields byte-identical output, and no input fails
//! (unrecognized syntax passes through as literal text).

use vstd::prelude::*;

verus! {

/// The HTML that the markdown renderer emits for the given source text.
/// The conversion follows the markdown rules at length, so the output is
/// given a name rather than spelled out; it depends on the text alone.
pub uninterp spec fn html_of(text: Seq<char>) -> Seq<char>;

/// Relies on pulldown_cmark::Parser::new and pulldown_cmark::html::push_html:
/// parsing uses no options and no callbacks, so the emitted HTML is a
/// function of the source text alone, and the call never fails.
#[verifier::external_body]
fn push_markdown_html(text: &str) -> (r: String)
    ensures
        r@ == html_of(text@),
{
    let mut out = String::new();
    pulldown_cmark::html::push_html(&mut out, pulldown_cmark::Parser::new(text));
    out
}

/// Render markdown source text to an HTML string.
pub fn render(text: &str) -> (r: String)
    ensures
        r@ == html_of(text@),
{
    push_markdown_html(text)
}

/// Rendering is deterministic: two renderings of the same source text are
/// byte-identical.
pub proof fn lemma_render_deterministic(text: Seq<char>, first: Seq<char>, second: Seq<char>)
    requires
        first == html_of(text),
        second == html_of(text),
    ensures
        first == second,
{
}

} // verus!
