//! Typesetting of the formulas in a document for HTML, with KaTeX.

use vstd::prelude::*;
use vstd::string::{StrSliceExecFns, StringExecFns};
use crate::event::{CodeKind, CodeKindView, DocEvent, DocEventView, Region, RegionView};

verus! {

/// Typesets the formula `source` with `katex::render_with_opts`, in display
/// mode or in line. An error of the script engine comes back as its
/// message. Nothing is promised of the outcome: the engine is set up at the
/// first call in each thread, which may fail.
#[verifier::external_body]
fn typeset(source: &str, display: bool) -> (rendered: Result<String, String>) {
    let mut opts = katex::Opts::default();
    opts.set_display_mode(display);
    katex::render_with_opts(source, opts).map_err(
        |error|
            match error {
                katex::Error::JsExecError(message) => message,
                other => other.to_string(),
            },
    )
}

/// The HTML that stands for a formula, given what typesetting it gave: the
/// typeset formula, or a marked element that shows the error.
pub open spec fn formula_markup(rendered: Result<Seq<char>, Seq<char>>, display: bool) -> Seq<
    char,
> {
    match rendered {
        Ok(html) => html,
        Err(message) => if display {
            "<div class=\"todo\">"@ + message + "</div>"@
        } else {
            "<span class=\"todo\">"@ + message + "</span>"@
        },
    }
}

/// The mathematical value of what typesetting gave.
pub open spec fn rendered_view(rendered: Result<String, String>) -> Result<Seq<char>, Seq<char>> {
    match rendered {
        Ok(html) => Ok(html@),
        Err(message) => Err(message@),
    }
}

/// The HTML event that stands for a formula, given what typesetting it
/// gave.
pub fn formula_event(rendered: Result<String, String>, display: bool) -> (event: DocEvent)
    ensures
        event.deep_view() == DocEventView::Html(formula_markup(rendered_view(rendered), display)),
{
    match rendered {
        Ok(html) => DocEvent::Html(html),
        Err(message) => {
            let mut html = String::from_str(
                if display {
                    "<div class=\"todo\">"
                } else {
                    "<span class=\"todo\">"
                },
            );
            html.append(message.as_str());
            html.append(
                if display {
                    "</div>"
                } else {
                    "</span>"
                },
            );
            DocEvent::Html(html)
        },
    }
}

/// Whether `event` opens or closes a fenced code block whose info string is
/// `math`.
pub open spec fn is_math_fence(tag: RegionView) -> bool {
    tag == RegionView::CodeBlock(CodeKindView::Fenced("math"@))
}

/// The formula inside a code span that is written between two dollar signs.
pub open spec fn dollar_formula(code: Seq<char>) -> Option<Seq<char>> {
    if code.len() >= 2 && code[0] == '$' && code.last() == '$' {
        Some(code.subrange(1, code.len() - 1))
    } else {
        None
    }
}

/// What becomes of an event on its way to the HTML renderer.
pub enum Passage {
    /// The event is taken out.
    Dropped,
    /// The event goes on as it is.
    Kept,
    /// The event is replaced by the HTML of the formula `source`.
    Typeset { source: Seq<char>, display: bool },
}

/// What becomes of the event `ev`, met inside `depth` math blocks.
pub open spec fn passage(depth: nat, ev: DocEventView) -> Passage {
    match ev {
        DocEventView::Start(tag) => if is_math_fence(tag) {
            Passage::Dropped
        } else {
            Passage::Kept
        },
        DocEventView::End(tag) => if is_math_fence(tag) {
            Passage::Dropped
        } else {
            Passage::Kept
        },
        DocEventView::Text(text) => if depth > 0 {
            Passage::Typeset { source: text, display: true }
        } else {
            Passage::Kept
        },
        DocEventView::Code(code) => match dollar_formula(code) {
            Some(source) => Passage::Typeset { source, display: false },
            None => Passage::Kept,
        },
        _ => Passage::Kept,
    }
}

/// The number of math blocks that are open after the event `ev`, met inside
/// `depth` of them. The count stays within the range of a `usize`, and the
/// end of a block that was never opened leaves it at zero.
pub open spec fn depth_after(depth: nat, ev: DocEventView) -> nat {
    match ev {
        DocEventView::Start(tag) => if is_math_fence(tag) && depth < usize::MAX {
            depth + 1
        } else {
            depth
        },
        DocEventView::End(tag) => if is_math_fence(tag) && depth > 0 {
            (depth - 1) as nat
        } else {
            depth
        },
        _ => depth,
    }
}

/// Whether `info` is the info string `math`.
fn is_math(info: &String) -> (math: bool)
    ensures
        math == (info@ == "math"@),
{
    let math = String::from_str("math");
    *info == math
}

/// The formula inside `code`, where it is written between two dollar signs.
fn formula_in(code: &str) -> (formula: Option<&str>)
    ensures
        match dollar_formula(code@) {
            Some(source) => formula matches Some(found) && found@ == source,
            None => formula is None,
        },
{
    let n = code.unicode_len();
    if n >= 2 && code.get_char(0) == '$' && code.get_char(n - 1) == '$' {
        Some(code.substring_char(1, n - 1))
    } else {
        None
    }
}

/// Replaces the formulas of a document by their HTML, on the way from the
/// parser to the HTML renderer: the text of each fenced code block marked
/// `math`, and each code span written between dollar signs.
pub struct KatexMiddleware {
    /// The number of math blocks that are open.
    tags: usize,
}

impl KatexMiddleware {
    /// The number of math blocks that are open.
    pub closed spec fn depth(&self) -> nat {
        self.tags as nat
    }

    /// The middleware at the start of a document.
    pub fn new() -> (middleware: KatexMiddleware)
        ensures
            middleware.depth() == 0,
    {
        KatexMiddleware { tags: 0 }
    }

    /// What goes on to the HTML renderer in place of `event`: nothing for
    /// the fences of a math block, the HTML of the formula for the text
    /// inside one and for a code span between dollar signs, the event itself
    /// otherwise. What the HTML of a formula holds is for KaTeX to say.
    pub fn map(&mut self, event: DocEvent) -> (mapped: Option<DocEvent>)
        ensures
            final(self).depth() == depth_after(old(self).depth(), event.deep_view()),
            match passage(old(self).depth(), event.deep_view()) {
                Passage::Dropped => mapped is None,
                Passage::Kept => mapped == Some(event),
                Passage::Typeset { .. } => mapped matches Some(DocEvent::Html(_)),
            },
    {
        match event {
            DocEvent::Start(Region::CodeBlock(CodeKind::Fenced(kind))) => {
                if is_math(&kind) {
                    if self.tags < usize::MAX {
                        self.tags += 1;
                    }
                    None
                } else {
                    Some(DocEvent::Start(Region::CodeBlock(CodeKind::Fenced(kind))))
                }
            },
            DocEvent::End(Region::CodeBlock(CodeKind::Fenced(kind))) => {
                if is_math(&kind) {
                    if self.tags > 0 {
                        self.tags -= 1;
                    }
                    None
                } else {
                    Some(DocEvent::End(Region::CodeBlock(CodeKind::Fenced(kind))))
                }
            },
            DocEvent::Text(text) => {
                if self.tags > 0 {
                    Some(formula_event(typeset(text.as_str(), true), true))
                } else {
                    Some(DocEvent::Text(text))
                }
            },
            DocEvent::Code(code) => {
                match formula_in(code.as_str()) {
                    Some(source) => Some(formula_event(typeset(source, false), false)),
                    None => Some(DocEvent::Code(code)),
                }
            },
            e => Some(e),
        }
    }
}

} // verus!
