//! Link references that name a paper instead of a target in the document:
//! an arXiv identifier or a DOI.

use vstd::prelude::*;
use vstd::string::StringExecFns;

verus! {

/// An arXiv identifier of the current scheme, such as `arXiv:1234.56789v2`;
/// group 1 is the identifier proper.
pub const NEW_ARXIV: &'static str = "^ar[xX]iv:([0-9]{4}[.][0-9]{4,}(v[0-9]+)?)$";

/// An arXiv identifier of the old scheme, such as `hep-th/9901001`; group 2
/// is the identifier proper.
pub const OLD_ARXIV: &'static str = "^(ar[xX]iv:)?([a-zA-Z.-]+/[0-9]{7}(v[0-9]+)?)$";

/// A DOI, such as `doi:10.1000/182`; group 2 is the identifier proper.
pub const DOI: &'static str = "^(doi:)?(10[.][0-9.]+/[0-9a-zA-Z()._-]+)$";

/// What the capture group `group` holds when the regular expression
/// `pattern` is matched against `text` by the `regex` crate: `None` where
/// the pattern does not compile, the text does not match, or the group took
/// no part in the match.
pub uninterp spec fn regex_capture(pattern: Seq<char>, text: Seq<char>, group: nat) -> Option<
    Seq<char>,
>;

/// Compiles `pattern` with `regex::Regex::new`, searches `text` with
/// `Regex::captures` and takes the group with `Captures::get`. The result
/// depends on the three arguments alone.
#[verifier::external_body]
fn capture(pattern: &str, text: &str, group: usize) -> (found: Option<String>)
    ensures
        found.deep_view() == regex_capture(pattern@, text@, group as nat),
{
    let regex = regex::Regex::new(pattern).ok()?;
    let captures = regex.captures(text)?;
    captures.get(group).map(|found| found.as_str().to_string())
}

/// The target and the label of a reference, given what each of the three
/// patterns found in it: the first that found something decides.
pub open spec fn link_of(
    new_arxiv: Option<Seq<char>>,
    old_arxiv: Option<Seq<char>>,
    doi: Option<Seq<char>>,
) -> Option<(Seq<char>, Seq<char>)> {
    if let Some(id) = new_arxiv {
        Some(("https://arxiv.org/abs/"@ + id, "arXiv:"@ + id))
    } else if let Some(id) = old_arxiv {
        Some(("https://arxiv.org/abs/"@ + id, id))
    } else if let Some(id) = doi {
        Some(("https://dx.doi.org/"@ + id, "doi:"@ + id))
    } else {
        None
    }
}

/// The target and the label of the reference `reference`, where it names a
/// paper.
pub open spec fn resolved(reference: Seq<char>) -> Option<(Seq<char>, Seq<char>)> {
    link_of(
        regex_capture(NEW_ARXIV@, reference, 1),
        regex_capture(OLD_ARXIV@, reference, 2),
        regex_capture(DOI@, reference, 2),
    )
}

/// `prefix` followed by `rest`.
fn prefixed(prefix: &str, rest: &str) -> (joined: String)
    ensures
        joined@ == prefix@ + rest@,
{
    let mut joined = String::from_str(prefix);
    joined.append(rest);
    joined
}

/// The target and the label of a reference, given the identifier that each
/// of the three patterns found in it.
pub fn reference_link(
    new_arxiv: Option<String>,
    old_arxiv: Option<String>,
    doi: Option<String>,
) -> (link: Option<(String, String)>)
    ensures
        link.deep_view() == link_of(new_arxiv.deep_view(), old_arxiv.deep_view(), doi.deep_view()),
{
    if let Some(id) = new_arxiv {
        Some((prefixed("https://arxiv.org/abs/", id.as_str()), prefixed("arXiv:", id.as_str())))
    } else if let Some(id) = old_arxiv {
        Some((prefixed("https://arxiv.org/abs/", id.as_str()), id))
    } else if let Some(id) = doi {
        Some((prefixed("https://dx.doi.org/", id.as_str()), prefixed("doi:", id.as_str())))
    } else {
        None
    }
}

/// Resolves a reference that the document does not define: an arXiv
/// identifier or a DOI becomes a link to the paper.
pub fn resolve_reference(reference: &str) -> (link: Option<(String, String)>)
    ensures
        link.deep_view() == resolved(reference@),
{
    reference_link(
        capture(NEW_ARXIV, reference, 1),
        capture(OLD_ARXIV, reference, 2),
        capture(DOI, reference, 2),
    )
}

} // verus!
