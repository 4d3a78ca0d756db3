//! A block of Markdown text.

use vstd::prelude::*;
use crate::latex::{latex_document, preamble, trailer};
use crate::laws::lemma_document_framed;
use crate::parse::{markdown_events, parse_markdown};
use crate::writer::push_latex;

verus! {

/// A block of Markdown, rendered with `pulldown-cmark`.
pub struct Markdown(pub String);

impl View for Markdown {
    type V = Seq<char>;

    open spec fn view(&self) -> Seq<char> {
        self.0@
    }
}

impl Markdown {
    /// The LaTeX document that the text is rendered to: the rendering of
    /// the events that the text parses into.
    pub fn render_tex(&self) -> (latex: String)
        ensures
            latex@ == latex_document(markdown_events(self@)),
            preamble().is_prefix_of(latex@),
            trailer().is_suffix_of(latex@),
    {
        let events = parse_markdown(self.0.as_str());
        let mut latex = String::new();
        push_latex(&mut latex, events.as_slice());
        proof {
            lemma_document_framed(markdown_events(self@));
            assert(Seq::<char>::empty() + latex_document(markdown_events(self@))
                =~= latex_document(markdown_events(self@)));
        }
        latex
    }
}

} // verus!
