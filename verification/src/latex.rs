//! What the LaTeX emitter writes: a state, and for each event the text it
//! adds in that state and the state it leaves.

use vstd::prelude::*;
use crate::decimal::decimal;
use crate::escape::{href_escaped, html_escaped};
use crate::event::{Align, CodeKindView, DocEventView, Level, LinkKind, RegionView};
use crate::footnote::{footnote_number, register};

verus! {

/// The running state of one pass of the emitter.
pub struct EmitterState {
    /// Whether the last fragment written ended in a newline. A fragment
    /// that holds nothing leaves the flag as it was; only a text event
    /// that holds nothing clears it.
    pub end_newline: bool,
    /// The number of columns that the table last opened declared.
    pub table_cells: nat,
    /// The number of cells closed so far in the current table row.
    pub table_cell_index: nat,
    /// The footnote names seen so far, in the order of their first
    /// appearance: the name at index `i` has the number `i + 1`.
    pub footnotes: Seq<Seq<char>>,
    /// Inside the alternative text of an image: the number of regions opened
    /// there and not yet closed. `None` outside of one.
    pub discarding: Option<nat>,
}

impl EmitterState {
    /// The state in which the first event is met, just after the preamble.
    pub open spec fn initial() -> EmitterState {
        EmitterState {
            end_newline: true,
            table_cells: 0,
            table_cell_index: 0,
            footnotes: Seq::empty(),
            discarding: None,
        }
    }
}

/// Whether `s` ends in a newline.
pub open spec fn ends_with_newline(s: Seq<char>) -> bool {
    s.len() > 0 && s.last() == '\n'
}

/// What starts every document.
pub open spec fn preamble() -> Seq<char> {
    "\\documentclass{article}\n\n"@ + "\\usepackage[normalem]{ulem}\n"@
        + "\\usepackage{minted}\n"@ + "\\usepackage{graphicx}\n"@ + "\\usepackage{hyperref}\n"@
        + "\\usepackage{amsmath}\n\n"@ + "\\setcounter{tocdepth}{6}\n"@
        + "\\setcounter{secnumdepth}{6}\n\n"@ + "\\begin{document}\n"@
}

/// What ends every document.
pub open spec fn trailer() -> Seq<char> {
    "\\end{document}\n"@
}

/// The newline that brings a block-level command to the start of a line.
pub open spec fn line_break_unless(at_line_start: bool) -> Seq<char> {
    if at_line_start {
        Seq::empty()
    } else {
        "\n"@
    }
}

/// The sectioning command of a heading level, without its backslash.
pub open spec fn section_command(level: Level) -> Seq<char> {
    match level {
        Level::H1 => "section*"@,
        Level::H2 => "subsection*"@,
        Level::H3 => "subsubsection*"@,
        Level::H4 => "paragraph"@,
        Level::H5 => "subparagraph"@,
        Level::H6 => "subsubparagraph"@,
    }
}

/// The column letter of an alignment.
pub open spec fn column_letter(alignment: Align) -> Seq<char> {
    match alignment {
        Align::Center => "c"@,
        Align::Right => "r"@,
        _ => "l"@,
    }
}

/// The column letters of a table, one for each declared column.
#[verifier::opaque]
pub open spec fn column_letters(alignments: Seq<Align>) -> Seq<char>
    decreases alignments.len(),
{
    if alignments.len() == 0 {
        Seq::empty()
    } else {
        column_letters(alignments.drop_last()) + column_letter(alignments.last())
    }
}

/// Whether `c` is white space: a character with the Unicode property
/// `White_Space`.
pub open spec fn is_white_space(c: char) -> bool {
    let n = c as u32;
    ||| 0x09 <= n <= 0x0d
    ||| n == 0x20
    ||| n == 0x85
    ||| n == 0xa0
    ||| n == 0x1680
    ||| 0x2000 <= n <= 0x200a
    ||| n == 0x2028
    ||| n == 0x2029
    ||| n == 0x202f
    ||| n == 0x205f
    ||| n == 0x3000
}

/// The first position from `from` on at which `s` holds a character that
/// is no white space, or the length of `s` where there is none.
pub open spec fn word_start(s: Seq<char>, from: int) -> int
    decreases s.len() - from,
{
    if from < 0 || from >= s.len() {
        s.len() as int
    } else if !is_white_space(s[from]) {
        from
    } else {
        word_start(s, from + 1)
    }
}

/// The first position from `from` on at which `s` holds white space, or the
/// length of `s` where there is none.
pub open spec fn word_end(s: Seq<char>, from: int) -> int
    decreases s.len() - from,
{
    if from < 0 || from >= s.len() {
        s.len() as int
    } else if is_white_space(s[from]) {
        from
    } else {
        word_end(s, from + 1)
    }
}

/// The language token of a fenced code block: the first word of its info
/// string, which the white space around it delimits. It is empty where the
/// info string holds no word.
pub open spec fn language_of(info: Seq<char>) -> Seq<char> {
    info.subrange(word_start(info, 0), word_end(info, word_start(info, 0)))
}

/// The line that opens the listing of a code block.
pub open spec fn code_block_opening(kind: CodeKindView) -> Seq<char> {
    match kind {
        CodeKindView::Indented => "\\begin{minted}{text}\n"@,
        CodeKindView::Fenced(info) => if language_of(info).len() == 0 {
            "\\begin{minted}{text}\n"@
        } else {
            "\\begin{minted}{"@ + html_escaped(language_of(info)) + "}\n"@
        },
    }
}

/// The lines that open a list.
pub open spec fn list_opening(start: Option<u64>) -> Seq<char> {
    match start {
        None => "\\begin{itemize}\n"@,
        Some(first) => if first == 1 {
            "\\begin{enumerate}\n"@
        } else {
            "\\begin{enumerate}\n"@ + "\\setcounter{enumi}{"@ + decimal(first as nat) + "}\n"@
        },
    }
}

/// What the start of a region adds, outside of an image's alternative text.
pub open spec fn start_text(st: EmitterState, tag: RegionView) -> Seq<char> {
    match tag {
        RegionView::Paragraph => if st.end_newline {
            "\n"@
        } else {
            "\n\n"@
        },
        RegionView::Heading(level) => line_break_unless(st.end_newline) + "\\"@ + section_command(
            level,
        ) + "{"@,
        RegionView::Table(alignments) => line_break_unless(st.end_newline)
            + "\\begin{center}\n\\begin{tabular}{"@ + column_letters(alignments) + "}\n"@,
        RegionView::TableHead => Seq::empty(),
        RegionView::TableRow => Seq::empty(),
        RegionView::TableCell => Seq::empty(),
        RegionView::BlockQuote => line_break_unless(st.end_newline) + "\\begin{quotation}\n"@,
        RegionView::CodeBlock(kind) => line_break_unless(st.end_newline) + code_block_opening(kind),
        RegionView::List(start) => line_break_unless(st.end_newline) + list_opening(start),
        RegionView::Item => line_break_unless(st.end_newline) + "\\item "@,
        RegionView::Emphasis => "{\\em "@,
        RegionView::Strong => "{\\bf "@,
        RegionView::Strikethrough => "\\sout{"@,
        RegionView::Link(link_type, dest) => if link_type == LinkKind::Email {
            "\\href{mailto:"@ + href_escaped(dest) + "}{"@
        } else {
            "\\href{"@ + href_escaped(dest) + "}{"@
        },
        RegionView::Image(dest) => "\\includegraphics{"@ + href_escaped(dest) + "}\n"@,
        RegionView::FootnoteDefinition(name) => line_break_unless(st.end_newline)
            + "\\footnotetext["@ + decimal(footnote_number(st.footnotes, name)) + "]{"@,
        RegionView::HtmlBlock => line_break_unless(st.end_newline) + "\\begin{verbatim}\n"@,
        RegionView::MetadataBlock => line_break_unless(st.end_newline) + "\\begin{comment}\n"@,
    }
}

/// The state that the start of a region leaves, outside of an image's
/// alternative text.
pub open spec fn start_state(st: EmitterState, tag: RegionView) -> EmitterState {
    match tag {
        RegionView::Paragraph => EmitterState { end_newline: true, ..st },
        RegionView::Heading(_) => EmitterState { end_newline: false, ..st },
        RegionView::Table(alignments) => EmitterState {
            end_newline: true,
            table_cells: alignments.len(),
            ..st
        },
        RegionView::TableHead => EmitterState { table_cell_index: 0, ..st },
        RegionView::TableRow => EmitterState { table_cell_index: 0, ..st },
        RegionView::TableCell => st,
        RegionView::BlockQuote => EmitterState { end_newline: true, ..st },
        RegionView::CodeBlock(_) => EmitterState { end_newline: true, ..st },
        RegionView::List(_) => EmitterState { end_newline: true, ..st },
        RegionView::Item => EmitterState { end_newline: false, ..st },
        RegionView::Emphasis => EmitterState { end_newline: false, ..st },
        RegionView::Strong => EmitterState { end_newline: false, ..st },
        RegionView::Strikethrough => EmitterState { end_newline: false, ..st },
        RegionView::Link(_, _) => EmitterState { end_newline: false, ..st },
        RegionView::Image(_) => EmitterState { end_newline: true, discarding: Some(0), ..st },
        RegionView::FootnoteDefinition(name) => EmitterState {
            end_newline: false,
            footnotes: register(st.footnotes, name),
            ..st
        },
        RegionView::HtmlBlock => EmitterState { end_newline: true, ..st },
        RegionView::MetadataBlock => EmitterState { end_newline: true, ..st },
    }
}

/// What the end of a region adds, outside of an image's alternative text.
pub open spec fn end_text(st: EmitterState, tag: RegionView) -> Seq<char> {
    match tag {
        RegionView::Paragraph => Seq::empty(),
        RegionView::Heading(_) => "}\n"@,
        RegionView::Table(_) => "\\end{tabular}\n\\end{center}\n"@,
        RegionView::TableHead => "\\hline\n"@,
        RegionView::TableRow => Seq::empty(),
        RegionView::TableCell => if st.table_cell_index + 1 == st.table_cells {
            "\\\\\n"@
        } else {
            " & "@
        },
        RegionView::BlockQuote => "\\end{quotation}\n"@,
        RegionView::CodeBlock(_) => "\\end{minted}\n"@,
        RegionView::List(start) => if start is Some {
            "\\end{enumerate}\n"@
        } else {
            "\\end{itemize}\n"@
        },
        RegionView::Item => "\n"@,
        RegionView::Emphasis => "}"@,
        RegionView::Strong => "}"@,
        RegionView::Strikethrough => "}"@,
        RegionView::Link(_, _) => "}"@,
        RegionView::Image(_) => Seq::empty(),
        RegionView::FootnoteDefinition(_) => "}\n"@,
        RegionView::HtmlBlock => "\\end{verbatim}\n"@,
        RegionView::MetadataBlock => "\\end{comment}\n"@,
    }
}

/// The state that the end of a region leaves, outside of an image's
/// alternative text.
pub open spec fn end_state(st: EmitterState, tag: RegionView) -> EmitterState {
    match tag {
        RegionView::Paragraph => st,
        RegionView::TableRow => st,
        RegionView::Image(_) => st,
        RegionView::TableCell => EmitterState {
            end_newline: st.table_cell_index + 1 == st.table_cells,
            table_cell_index: st.table_cell_index + 1,
            ..st
        },
        RegionView::Emphasis => EmitterState { end_newline: false, ..st },
        RegionView::Strong => EmitterState { end_newline: false, ..st },
        RegionView::Strikethrough => EmitterState { end_newline: false, ..st },
        RegionView::Link(_, _) => EmitterState { end_newline: false, ..st },
        _ => EmitterState { end_newline: true, ..st },
    }
}

/// The box of a task list item.
pub open spec fn task_marker(checked: bool) -> Seq<char> {
    if checked {
        "\\makebox[0pt][l]{$\\square$}\\raisebox{.15ex}{\\hspace{0.1em}$\\checkmark$}\\n"@
    } else {
        "\\makebox[0pt][l]{$\\square$}\\n"@
    }
}

/// The position after the end of the alternative text of an image: that of
/// the event after the first end of a region, from `from` on, that closes no
/// region opened since, `depth` regions being open at `from`. It is the
/// number of events where there is no such end.
pub open spec fn alt_text_end(events: Seq<DocEventView>, from: int, depth: nat) -> int
    decreases events.len() - from,
{
    if from < 0 || from >= events.len() {
        events.len() as int
    } else {
        match events[from] {
            DocEventView::Start(_) => alt_text_end(events, from + 1, depth + 1),
            DocEventView::End(_) => if depth == 0 {
                from + 1
            } else {
                alt_text_end(events, from + 1, (depth - 1) as nat)
            },
            _ => alt_text_end(events, from + 1, depth),
        }
    }
}

/// The text that the event `ev` adds to the output when it is met in the
/// state `st`.
pub open spec fn emitted(st: EmitterState, ev: DocEventView) -> Seq<char> {
    if st.discarding is Some {
        Seq::empty()
    } else {
        match ev {
            DocEventView::Start(tag) => start_text(st, tag),
            DocEventView::End(tag) => end_text(st, tag),
            DocEventView::Text(text) => text,
            DocEventView::Code(text) => "\\mintinline{text}{"@ + text + "}"@,
            DocEventView::InlineMath(text) => "$"@ + text + "$"@,
            DocEventView::DisplayMath(text) => "\\begin{align*}"@ + text + "\\end{align*}"@,
            DocEventView::Html(text) => "\\begin{verbatim}"@ + text + "\\end{verbatim}"@,
            DocEventView::InlineHtml(text) => text,
            DocEventView::SoftBreak => "\n"@,
            DocEventView::HardBreak => "\\\\"@ + "\n"@,
            DocEventView::Rule => line_break_unless(st.end_newline) + "\\hline\n"@,
            DocEventView::FootnoteReference(name) => "\\footnotemark["@ + decimal(
                footnote_number(st.footnotes, name),
            ) + "]"@,
            DocEventView::TaskListMarker(checked) => task_marker(checked),
        }
    }
}

/// The state in which the event after `ev` is met, when `ev` is met in
/// the state `st`.
pub open spec fn next_state(st: EmitterState, ev: DocEventView) -> EmitterState {
    match st.discarding {
        Some(depth) => match ev {
            DocEventView::Start(_) => EmitterState { discarding: Some(depth + 1), ..st },
            DocEventView::End(_) => if depth == 0 {
                EmitterState { discarding: None, ..st }
            } else {
                EmitterState { discarding: Some((depth - 1) as nat), ..st }
            },
            DocEventView::FootnoteReference(name) => EmitterState {
                footnotes: register(st.footnotes, name),
                ..st
            },
            _ => st,
        },
        None => match ev {
            DocEventView::Start(tag) => start_state(st, tag),
            DocEventView::End(tag) => end_state(st, tag),
            DocEventView::Text(text) => EmitterState { end_newline: ends_with_newline(text), ..st },
            DocEventView::InlineHtml(text) => EmitterState {
                end_newline: if text.len() == 0 {
                    st.end_newline
                } else {
                    ends_with_newline(text)
                },
                ..st
            },
            DocEventView::Code(_) => EmitterState { end_newline: false, ..st },
            DocEventView::InlineMath(_) => EmitterState { end_newline: false, ..st },
            DocEventView::DisplayMath(_) => EmitterState { end_newline: false, ..st },
            DocEventView::Html(_) => EmitterState { end_newline: false, ..st },
            DocEventView::SoftBreak => EmitterState { end_newline: true, ..st },
            DocEventView::HardBreak => EmitterState { end_newline: true, ..st },
            DocEventView::Rule => EmitterState { end_newline: true, ..st },
            DocEventView::FootnoteReference(name) => EmitterState {
                end_newline: false,
                footnotes: register(st.footnotes, name),
                ..st
            },
            DocEventView::TaskListMarker(_) => EmitterState { end_newline: false, ..st },
        },
    }
}

/// The names that the footnote references among `events` add to `names`.
pub open spec fn register_references(names: Seq<Seq<char>>, events: Seq<DocEventView>) -> Seq<
    Seq<char>,
>
    decreases events.len(),
{
    if events.len() == 0 {
        names
    } else {
        let earlier = register_references(names, events.drop_last());
        match events.last() {
            DocEventView::FootnoteReference(name) => register(earlier, name),
            _ => earlier,
        }
    }
}

/// The state that is left when `events` have been met in turn, starting in
/// the state `st`.
pub open spec fn state_after(st: EmitterState, events: Seq<DocEventView>) -> EmitterState
    decreases events.len(),
{
    if events.len() == 0 {
        st
    } else {
        next_state(state_after(st, events.drop_last()), events.last())
    }
}

/// The text that `events` add when they are met in turn, starting in the
/// state `st`.
pub open spec fn body(st: EmitterState, events: Seq<DocEventView>) -> Seq<char>
    decreases events.len(),
{
    if events.len() == 0 {
        Seq::empty()
    } else {
        body(st, events.drop_last()) + emitted(
            state_after(st, events.drop_last()),
            events.last(),
        )
    }
}

/// The LaTeX document that `events` are rendered to.
pub open spec fn latex_document(events: Seq<DocEventView>) -> Seq<char> {
    preamble() + body(EmitterState::initial(), events) + trailer()
}

/// Meeting `first` and then `rest` is meeting `first + rest`.
pub proof fn lemma_concat(st: EmitterState, first: Seq<DocEventView>, rest: Seq<DocEventView>)
    ensures
        state_after(st, first + rest) == state_after(state_after(st, first), rest),
        body(st, first + rest) == body(st, first) + body(state_after(st, first), rest),
    decreases rest.len(),
{
    if rest.len() == 0 {
        assert(first + rest =~= first);
        assert(body(st, first) + Seq::<char>::empty() =~= body(st, first));
    } else {
        assert((first + rest).drop_last() =~= first + rest.drop_last());
        assert((first + rest).last() == rest.last());
        lemma_concat(st, first, rest.drop_last());
        let mid = state_after(state_after(st, first), rest.drop_last());
        assert(body(st, first + rest) =~= body(st, first) + (body(
            state_after(st, first),
            rest.drop_last(),
        ) + emitted(mid, rest.last())));
    }
}

/// Meeting one event is one step.
pub proof fn lemma_single(st: EmitterState, ev: DocEventView)
    ensures
        state_after(st, seq![ev]) == next_state(st, ev),
        body(st, seq![ev]) == emitted(st, ev),
{
    let one = seq![ev];
    assert(one.drop_last() =~= Seq::<DocEventView>::empty());
    assert(one.last() == ev);
    assert(state_after(st, one.drop_last()) == st);
    assert(body(st, one.drop_last()) =~= Seq::<char>::empty());
    assert(Seq::<char>::empty() + emitted(st, ev) =~= emitted(st, ev));
}

} // verus!
