//! Escaping of the text that is placed inside LaTeX arguments.

use vstd::prelude::*;

verus! {

/// What an HTML-special character is replaced by; any other character
/// stands for itself.
pub open spec fn html_escape_char(c: char) -> Seq<char> {
    if c == '"' {
        seq!['&', 'q', 'u', 'o', 't', ';']
    } else if c == '&' {
        seq!['&', 'a', 'm', 'p', ';']
    } else if c == '<' {
        seq!['&', 'l', 't', ';']
    } else if c == '>' {
        seq!['&', 'g', 't', ';']
    } else {
        seq![c]
    }
}

/// `s` with each of `"`, `&`, `<` and `>` replaced by its HTML entity.
#[verifier::opaque]
pub open spec fn html_escaped(s: Seq<char>) -> Seq<char>
    decreases s.len(),
{
    if s.len() == 0 {
        Seq::empty()
    } else {
        html_escaped(s.drop_last()) + html_escape_char(s.last())
    }
}

/// `dest` as `pulldown_cmark::escape::escape_href` writes it: the bytes
/// that are unsafe in a link destination are percent-encoded, `&` and `'`
/// become HTML entities.
pub uninterp spec fn href_escaped(dest: Seq<char>) -> Seq<char>;

/// Appends `s` to `out` through `pulldown_cmark::escape::escape_html`,
/// which copies `s` and replaces `"`, `&`, `<` and `>` by `&quot;`, `&amp;`,
/// `&lt;` and `&gt;`. Writing to a `String` cannot fail.
#[verifier::external_body]
pub(crate) fn push_html_escaped(out: &mut String, s: &str)
    ensures
        final(out)@ == old(out)@ + html_escaped(s@),
{
    let _ = pulldown_cmark::escape::escape_html(out, s);
}

/// Appends `dest` to `out` through `pulldown_cmark::escape::escape_href`.
/// What is appended depends on `dest` alone. Writing to a `String` cannot
/// fail.
#[verifier::external_body]
pub(crate) fn push_href_escaped(out: &mut String, dest: &str)
    ensures
        final(out)@ == old(out)@ + href_escaped(dest@),
{
    let _ = pulldown_cmark::escape::escape_href(out, dest);
}

} // verus!
