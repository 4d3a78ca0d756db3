//! The LaTeX emitter: one pass over the events of a document.

use vstd::prelude::*;
use vstd::string::{StrSliceExecFns, StringExecFns};
use crate::decimal::{decimal, push_decimal};
use crate::escape::{href_escaped, html_escaped, push_href_escaped, push_html_escaped};
use crate::event::{
    Align, CodeKind, DocEvent, DocEventView, Level, LinkKind, Region, RegionView,
};
use crate::footnote::{footnote_number, number_for, register};
use crate::latex::{
    alt_text_end, body, column_letters, emitted, ends_with_newline, is_white_space, language_of,
    latex_document, lemma_concat, lemma_single, line_break_unless, next_state, preamble,
    register_references, state_after, trailer, word_end, word_start, EmitterState,
};

verus! {

/// Whether `s` ends in a newline.
fn ends_in_newline(s: &str) -> (b: bool)
    ensures
        b == ends_with_newline(s@),
{
    let n = s.unicode_len();
    n > 0 && s.get_char(n - 1) == '\n'
}

/// Whether `c` is white space.
fn white_space(c: char) -> (white: bool)
    ensures
        white == is_white_space(c),
{
    let n = c as u32;
    (0x09 <= n && n <= 0x0d) || n == 0x20 || n == 0x85 || n == 0xa0 || n == 0x1680 || (0x2000 <= n
        && n <= 0x200a) || n == 0x2028 || n == 0x2029 || n == 0x202f || n == 0x205f || n == 0x3000
}

/// The language token of the info string of a fenced code block.
fn language(info: &str) -> (lang: &str)
    ensures
        lang@ == language_of(info@),
{
    let n = info.unicode_len();
    let mut start: usize = 0;
    while start < n && white_space(info.get_char(start))
        invariant
            start <= n,
            n == info@.len(),
            word_start(info@, 0) == word_start(info@, start as int),
        decreases n - start,
    {
        start += 1;
    }
    let mut end: usize = start;
    while end < n && !white_space(info.get_char(end))
        invariant
            start <= end <= n,
            n == info@.len(),
            word_end(info@, start as int) == word_end(info@, end as int),
        decreases n - end,
    {
        end += 1;
    }
    info.substring_char(start, end)
}

/// Writes the LaTeX rendering of a sequence of events.
pub struct LatexWriter<'a> {
    /// The events of the document.
    events: &'a [DocEvent],
    /// The position of the event that is met next.
    next: usize,
    /// What has been written.
    writer: String,
    /// Whether the last write that wrote something ended in a newline.
    end_newline: bool,
    table_cells: usize,
    table_cell_index: usize,
    /// The footnote names seen so far; a name's number is its index plus one.
    numbers: Vec<String>,
    /// The nesting depth inside the alternative text of an image.
    discarding: Ghost<Option<nat>>,
}

/// The mathematical value of a [`LatexWriter`].
pub struct LatexWriterView {
    /// The events of the document.
    pub events: Seq<DocEventView>,
    /// The number of events met so far.
    pub position: nat,
    /// What has been written so far.
    pub written: Seq<char>,
    /// The running state of the emitter.
    pub state: EmitterState,
}

impl<'a> View for LatexWriter<'a> {
    type V = LatexWriterView;

    closed spec fn view(&self) -> LatexWriterView {
        LatexWriterView {
            events: self.events.deep_view(),
            position: self.next as nat,
            written: self.writer@,
            state: self.state(),
        }
    }
}

impl<'a> LatexWriter<'a> {
    /// The running state of the emitter.
    closed spec fn state(&self) -> EmitterState {
        EmitterState {
            end_newline: self.end_newline,
            table_cells: self.table_cells as nat,
            table_cell_index: self.table_cell_index as nat,
            footnotes: self.numbers.deep_view(),
            discarding: self.discarding@,
        }
    }

    /// Nothing has been met yet.
    pub open spec fn is_fresh(&self) -> bool {
        &&& self@.position == 0
        &&& self@.state == EmitterState::initial()
    }

    /// Whether the writer is what `before` becomes by the one event `ev`,
    /// met outside the alternative text of an image: the state has taken the
    /// step, the text of the event is written, and no event was taken.
    closed spec fn steps(&self, before: &LatexWriter<'a>, ev: DocEventView) -> bool {
        &&& self.state() == next_state(before.state(), ev)
        &&& self.writer@ == before.writer@ + emitted(before.state(), ev)
        &&& self.events == before.events
        &&& self.next == before.next
        &&& self.numbers.len() <= before.numbers.len() + 1
        &&& self.table_cell_index <= before.table_cell_index + 1
    }

    /// A writer that appends the rendering of `events` to `writer`.
    pub fn new(events: &'a [DocEvent], writer: String) -> (w: Self)
        ensures
            w.is_fresh(),
            w@.events == events.deep_view(),
            w@.written == writer@,
    {
        let w = LatexWriter {
            events,
            next: 0,
            writer,
            end_newline: true,
            table_cells: 0,
            table_cell_index: 0,
            numbers: Vec::new(),
            discarding: Ghost(None),
        };
        assert(w.numbers.deep_view() =~= Seq::<Seq<char>>::empty());
        w
    }

    /// Writes a newline.
    fn write_newline(&mut self)
        ensures
            final(self).writer@ == old(self).writer@ + "\n"@,
            *final(self) == (LatexWriter {
                writer: final(self).writer,
                end_newline: true,
                ..*old(self)
            }),
    {
        self.end_newline = true;
        self.writer.append("\n");
    }

    /// Writes `s`, and records whether it ended in a newline; writing
    /// nothing leaves the record as it is.
    fn write(&mut self, s: &str)
        ensures
            final(self).writer@ == old(self).writer@ + s@,
            *final(self) == (LatexWriter {
                writer: final(self).writer,
                end_newline: if s@.len() == 0 {
                    old(self).end_newline
                } else {
                    ends_with_newline(s@)
                },
                ..*old(self)
            }),
    {
        self.writer.append(s);
        if !s.is_empty() {
            self.end_newline = ends_in_newline(s);
        }
    }

    /// Brings the output to the start of a line.
    fn start_line(&mut self)
        ensures
            final(self).writer@ == old(self).writer@ + line_break_unless(old(self).end_newline),
            *final(self) == (LatexWriter {
                writer: final(self).writer,
                end_newline: true,
                ..*old(self)
            }),
    {
        if !self.end_newline {
            self.write_newline();
        } else {
            assert(self.writer@ + Seq::<char>::empty() =~= self.writer@);
        }
    }

    /// Writes the number of the footnote `name`, which it allocates where
    /// the name is new.
    fn write_footnote_number(&mut self, name: &String)
        requires
            old(self).numbers.len() < usize::MAX,
        ensures
            final(self).writer@ == old(self).writer@ + decimal(
                footnote_number(old(self).numbers.deep_view(), name@),
            ),
            final(self).numbers.deep_view() == register(old(self).numbers.deep_view(), name@),
            final(self).numbers.len() <= old(self).numbers.len() + 1,
            *final(self) == (LatexWriter {
                writer: final(self).writer,
                numbers: final(self).numbers,
                ..*old(self)
            }),
    {
        let number = number_for(&mut self.numbers, name);
        push_decimal(&mut self.writer, number as u64);
    }

    /// Writes the column letters of a table.
    fn write_columns(&mut self, alignments: &Vec<Align>)
        ensures
            final(self).writer@ == old(self).writer@ + column_letters(alignments@),
            *final(self) == (LatexWriter {
                writer: final(self).writer,
                end_newline: final(self).end_newline,
                ..*old(self)
            }),
    {
        let mut i: usize = 0;
        proof {
            reveal(column_letters);
            assert(self.writer@ + column_letters(alignments@.take(0)) =~= self.writer@);
        }
        while i < alignments.len()
            invariant
                i <= alignments.len(),
                self.writer@ == old(self).writer@ + column_letters(alignments@.take(i as int)),
                *self == (LatexWriter {
                    writer: self.writer,
                    end_newline: self.end_newline,
                    ..*old(self)
                }),
            decreases alignments.len() - i,
        {
            match alignments[i] {
                Align::Center => self.write("c"),
                Align::Right => self.write("r"),
                _ => self.write("l"),
            }
            proof {
                reveal(column_letters);
                let upto = alignments@.take(i + 1);
                assert(upto.drop_last() =~= alignments@.take(i as int));
                assert(upto.last() == alignments@[i as int]);
                assert(self.writer@ =~= old(self).writer@ + column_letters(upto));
            }
            i += 1;
        }
        assert(alignments@.take(i as int) =~= alignments@);
    }

    /// Writes the whole document: the preamble, the rendering of each event
    /// in turn, and the trailer. Returns what was written, after what the
    /// writer held before.
    pub fn run(self) -> (tex: String)
        requires
            self.is_fresh(),
        ensures
            tex@ == self@.written + latex_document(self@.events),
            (self@.written + preamble()).is_prefix_of(tex@),
            trailer().is_suffix_of(tex@),
    {
        let mut this = self;
        let ghost prefix = this.writer@;
        let ghost all = this.events.deep_view();
        let ghost initial = EmitterState::initial();
        assert(this.numbers.deep_view().len() == 0);
        this.write("\\documentclass{article}\n\n");
        this.write("\\usepackage[normalem]{ulem}\n");
        this.write("\\usepackage{minted}\n");
        this.write("\\usepackage{graphicx}\n");
        this.write("\\usepackage{hyperref}\n");
        this.write("\\usepackage{amsmath}\n\n");
        this.write("\\setcounter{tocdepth}{6}\n");
        this.write("\\setcounter{secnumdepth}{6}\n\n");
        this.write("\\begin{document}\n");
        proof {
            reveal_strlit("\\begin{document}\n");
            assert(all.take(0) =~= Seq::<DocEventView>::empty());
            assert(this.writer@ =~= prefix + preamble() + body(initial, all.take(0)));
        }
        let events = this.events;
        while this.next < events.len()
            invariant
                events == this.events,
                all == events.deep_view(),
                all.len() == events.len(),
                initial == EmitterState::initial(),
                this.next <= events.len(),
                this.numbers.len() <= this.next,
                this.table_cell_index <= this.next,
                this.discarding@ is None || this.next == events.len(),
                this.state() == state_after(initial, all.take(this.next as int)),
                this.writer@ == prefix + preamble() + body(initial, all.take(this.next as int)),
            decreases events.len() - this.next,
        {
            let ghost before = this;
            let ghost at = this.next as int;
            let event = &events[this.next];
            let ghost ev = event.deep_view();
            assert(all[at] == ev);
            this.next += 1;
            match event {
                DocEvent::Start(tag) => {
                    this.start_tag(tag);
                },
                DocEvent::End(tag) => {
                    this.end_tag(tag);
                    proof {
                        lemma_single(before.state(), ev);
                        assert(all.subrange(at, at + 1) =~= seq![ev]);
                    }
                },
                _ => {
                    this.leaf_event(event);
                    proof {
                        lemma_single(before.state(), ev);
                        assert(all.subrange(at, at + 1) =~= seq![ev]);
                    }
                },
            }
            proof {
                let taken = all.subrange(at, this.next as int);
                assert(all.take(this.next as int) =~= all.take(at) + taken);
                lemma_concat(initial, all.take(at), taken);
                assert(this.writer@ =~= prefix + preamble() + body(
                    initial,
                    all.take(this.next as int),
                ));
            }
        }
        this.write("\\end{document}\n");
        proof {
            assert(all.take(this.next as int) =~= all);
            assert(this.writer@ =~= prefix + latex_document(all));
            lemma_framed(prefix, body(initial, all));
        }
        this.writer
    }

    /// Writes an event that neither opens nor closes a region.
    fn leaf_event(&mut self, event: &DocEvent)
        requires
            old(self).discarding@ is None,
            old(self).numbers.len() < usize::MAX,
            !(event.deep_view() is Start),
            !(event.deep_view() is End),
        ensures
            final(self).steps(old(self), event.deep_view()),
    {
        let ghost ev = event.deep_view();
        match event {
            DocEvent::Text(text) => {
                self.write(text.as_str());
                self.end_newline = ends_in_newline(text.as_str());
            },
            DocEvent::InlineHtml(html) => {
                self.write(html.as_str());
            },
            DocEvent::Code(text) => {
                self.write("\\mintinline{text}{");
                self.write(text.as_str());
                self.write("}");
                proof {
                    reveal_strlit("}");
                    assert(self.writer@ =~= old(self).writer@ + emitted(old(self).state(), ev));
                }
            },
            DocEvent::InlineMath(text) => {
                self.write("$");
                self.write(text.as_str());
                self.write("$");
                proof {
                    reveal_strlit("$");
                    assert(self.writer@ =~= old(self).writer@ + emitted(old(self).state(), ev));
                }
            },
            DocEvent::DisplayMath(text) => {
                self.write("\\begin{align*}");
                self.write(text.as_str());
                self.write("\\end{align*}");
                proof {
                    reveal_strlit("\\end{align*}");
                    assert(self.writer@ =~= old(self).writer@ + emitted(old(self).state(), ev));
                }
            },
            DocEvent::Html(html) => {
                self.write("\\begin{verbatim}");
                self.write(html.as_str());
                self.write("\\end{verbatim}");
                proof {
                    reveal_strlit("\\end{verbatim}");
                    assert(self.writer@ =~= old(self).writer@ + emitted(old(self).state(), ev));
                }
            },
            DocEvent::SoftBreak => {
                self.write_newline();
            },
            DocEvent::HardBreak => {
                self.write("\\\\");
                self.write_newline();
                assert(self.writer@ =~= old(self).writer@ + emitted(old(self).state(), ev));
            },
            DocEvent::Rule => {
                self.start_line();
                self.write("\\hline\n");
                proof {
                    reveal_strlit("\\hline\n");
                    assert(self.writer@ =~= old(self).writer@ + emitted(old(self).state(), ev));
                }
            },
            DocEvent::FootnoteReference(name) => {
                self.write("\\footnotemark[");
                self.write_footnote_number(name);
                self.write("]");
                proof {
                    reveal_strlit("]");
                    assert(self.writer@ =~= old(self).writer@ + emitted(old(self).state(), ev));
                }
            },
            DocEvent::TaskListMarker(true) => {
                self.write(
                    "\\makebox[0pt][l]{$\\square$}\\raisebox{.15ex}{\\hspace{0.1em}$\\checkmark$}\\n",
                );
                proof {
                    reveal_strlit(
                        "\\makebox[0pt][l]{$\\square$}\\raisebox{.15ex}{\\hspace{0.1em}$\\checkmark$}\\n",
                    );
                }
            },
            DocEvent::TaskListMarker(false) => {
                self.write("\\makebox[0pt][l]{$\\square$}\\n");
                proof {
                    reveal_strlit("\\makebox[0pt][l]{$\\square$}\\n");
                }
            },
            _ => {},
        }
    }

    /// Opens the region `tag`, which is the event just taken. An image is
    /// written whole: the events of its alternative text are taken and
    /// dropped, so that the next event is the one after the end of the
    /// image. After any other tag no further event is taken.
    fn start_tag(&mut self, tag: &Region)
        requires
            old(self).discarding@ is None,
            1 <= old(self).next <= old(self).events.len(),
            old(self).numbers.len() < old(self).next,
            old(self).table_cell_index < old(self).next,
            old(self).events.deep_view()[old(self).next - 1] == DocEventView::Start(tag.deep_view()),
        ensures
            final(self).events == old(self).events,
            final(self).next == if tag.deep_view() is Image {
                alt_text_end(old(self).events.deep_view(), old(self).next as int, 0)
            } else {
                old(self).next as int
            },
            old(self).next <= final(self).next <= final(self).events.len(),
            final(self).numbers.len() <= final(self).next,
            final(self).table_cell_index <= final(self).next,
            final(self).discarding@ is None || final(self).next == final(self).events.len(),
            final(self).state() == state_after(
                old(self).state(),
                old(self).events.deep_view().subrange(
                    old(self).next - 1,
                    final(self).next as int,
                ),
            ),
            final(self).writer@ == old(self).writer@ + body(
                old(self).state(),
                old(self).events.deep_view().subrange(
                    old(self).next - 1,
                    final(self).next as int,
                ),
            ),
    {
        let ghost events = self.events.deep_view();
        let ghost ev = DocEventView::Start(tag.deep_view());
        let ghost at = self.next - 1;
        let ghost from = self.next as int;
        match tag {
            Region::Paragraph => self.start_paragraph(),
            Region::Heading(level) => self.start_heading(level),
            Region::Table(alignments) => self.start_table(alignments),
            Region::TableHead | Region::TableRow | Region::TableCell => self.start_table_part(tag),
            Region::BlockQuote | Region::HtmlBlock | Region::MetadataBlock | Region::Item => {
                self.start_block(tag)
            },
            Region::CodeBlock(kind) => self.start_code_block(kind),
            Region::List(start) => self.start_list(start),
            Region::Emphasis | Region::Strong | Region::Strikethrough => self.start_span(tag),
            Region::Link(kind, dest) => self.start_link(kind, dest),
            Region::Image(dest) => {
                self.start_image(dest);
                self.consume_text();
            },
            Region::FootnoteDefinition(name) => self.start_footnote_definition(name),
        }
        proof {
            let rest = events.subrange(from, self.next as int);
            if !(tag.deep_view() is Image) {
                assert(rest =~= Seq::<DocEventView>::empty());
            }
            lemma_single(old(self).state(), ev);
            lemma_concat(old(self).state(), seq![ev], rest);
            assert(events.subrange(at, self.next as int) =~= seq![ev] + rest);
            assert(self.writer@ =~= old(self).writer@ + (emitted(old(self).state(), ev)
                + Seq::<char>::empty()));
        }
    }

    /// Opens a paragraph: a blank line separates it from what stands before.
    fn start_paragraph(&mut self)
        requires
            old(self).discarding@ is None,
        ensures
            final(self).steps(old(self), DocEventView::Start(RegionView::Paragraph)),
    {
        if self.end_newline {
            self.write("\n");
        } else {
            self.write("\n\n");
        }
        proof {
            reveal_strlit("\n");
            reveal_strlit("\n\n");
        }
    }

    /// Opens a heading with the sectioning command of its level.
    fn start_heading(&mut self, level: &Level)
        requires
            old(self).discarding@ is None,
        ensures
            final(self).steps(old(self), DocEventView::Start(RegionView::Heading(*level))),
    {
        let section = match level {
            Level::H1 => "section*",
            Level::H2 => "subsection*",
            Level::H3 => "subsubsection*",
            Level::H4 => "paragraph",
            Level::H5 => "subparagraph",
            Level::H6 => "subsubparagraph",
        };
        self.start_line();
        self.write("\\");
        self.write(section);
        self.write("{");
        proof {
            reveal_strlit("{");
            assert(self.writer@ =~= old(self).writer@ + (line_break_unless(old(self).end_newline)
                + "\\"@ + section@ + "{"@));
        }
    }

    /// Opens a table with one column letter for each declared column, and
    /// remembers the number of columns.
    fn start_table(&mut self, alignments: &Vec<Align>)
        requires
            old(self).discarding@ is None,
        ensures
            final(self).steps(old(self), DocEventView::Start(RegionView::Table(alignments@))),
    {
        self.start_line();
        self.write("\\begin{center}\n\\begin{tabular}{");
        self.write_columns(alignments);
        self.table_cells = alignments.len();
        self.write("}\n");
        proof {
            reveal_strlit("}\n");
            assert(self.writer@ =~= old(self).writer@ + (line_break_unless(old(self).end_newline)
                + "\\begin{center}\n\\begin{tabular}{"@ + column_letters(alignments@) + "}\n"@));
        }
    }

    /// Opens the head, a row or a cell of a table: a head or a row starts
    /// at its first cell, and nothing is written.
    fn start_table_part(&mut self, tag: &Region)
        requires
            old(self).discarding@ is None,
            tag.deep_view() is TableHead || tag.deep_view() is TableRow
                || tag.deep_view() is TableCell,
        ensures
            final(self).steps(old(self), DocEventView::Start(tag.deep_view())),
    {
        match tag {
            Region::TableHead => {
                self.table_cell_index = 0;
            },
            Region::TableRow => {
                self.table_cell_index = 0;
            },
            _ => {},
        }
        assert(self.writer@ + Seq::<char>::empty() =~= self.writer@);
    }

    /// Opens a block that starts on a line of its own: a quotation, a block
    /// of HTML or of metadata, or a list item.
    fn start_block(&mut self, tag: &Region)
        requires
            old(self).discarding@ is None,
            tag.deep_view() is BlockQuote || tag.deep_view() is HtmlBlock
                || tag.deep_view() is MetadataBlock || tag.deep_view() is Item,
        ensures
            final(self).steps(old(self), DocEventView::Start(tag.deep_view())),
    {
        self.start_line();
        let opening = match tag {
            Region::BlockQuote => "\\begin{quotation}\n",
            Region::HtmlBlock => "\\begin{verbatim}\n",
            Region::MetadataBlock => "\\begin{comment}\n",
            _ => "\\item ",
        };
        self.write(opening);
        proof {
            reveal_strlit("\\begin{quotation}\n");
            reveal_strlit("\\begin{verbatim}\n");
            reveal_strlit("\\begin{comment}\n");
            reveal_strlit("\\item ");
            assert(self.writer@ =~= old(self).writer@ + (line_break_unless(old(self).end_newline)
                + opening@));
        }
    }

    /// Opens the listing of a code block, in its language where it names
    /// one.
    fn start_code_block(&mut self, kind: &CodeKind)
        requires
            old(self).discarding@ is None,
        ensures
            final(self).steps(
                old(self),
                DocEventView::Start(RegionView::CodeBlock(kind.deep_view())),
            ),
    {
        self.start_line();
        let ghost lead = line_break_unless(old(self).end_newline);
        match kind {
            CodeKind::Fenced(info) => {
                let lang = language(info.as_str());
                if lang.is_empty() {
                    self.write("\\begin{minted}{text}\n");
                    proof {
                        reveal_strlit("\\begin{minted}{text}\n");
                        assert(self.writer@ =~= old(self).writer@ + (lead
                            + "\\begin{minted}{text}\n"@));
                    }
                } else {
                    self.write("\\begin{minted}{");
                    push_html_escaped(&mut self.writer, lang);
                    self.write("}\n");
                    proof {
                        reveal_strlit("}\n");
                        assert(self.writer@ =~= old(self).writer@ + (lead + ("\\begin{minted}{"@
                            + html_escaped(lang@) + "}\n"@)));
                    }
                }
            },
            CodeKind::Indented => {
                self.write("\\begin{minted}{text}\n");
                proof {
                    reveal_strlit("\\begin{minted}{text}\n");
                    assert(self.writer@ =~= old(self).writer@ + (lead
                        + "\\begin{minted}{text}\n"@));
                }
            },
        }
    }

    /// Opens a list; an ordered list that does not start at one sets its
    /// counter.
    fn start_list(&mut self, start: &Option<u64>)
        requires
            old(self).discarding@ is None,
        ensures
            final(self).steps(old(self), DocEventView::Start(RegionView::List(*start))),
    {
        self.start_line();
        let ghost lead = line_break_unless(old(self).end_newline);
        match start {
            Some(first) => {
                self.write("\\begin{enumerate}\n");
                if *first != 1 {
                    self.write("\\setcounter{enumi}{");
                    push_decimal(&mut self.writer, *first);
                    self.write("}\n");
                    proof {
                        reveal_strlit("}\n");
                        assert(self.writer@ =~= old(self).writer@ + (lead + (
                        "\\begin{enumerate}\n"@ + "\\setcounter{enumi}{"@ + decimal(
                            *first as nat,
                        ) + "}\n"@)));
                    }
                } else {
                    proof {
                        reveal_strlit("\\begin{enumerate}\n");
                        assert(self.writer@ =~= old(self).writer@ + (lead
                            + "\\begin{enumerate}\n"@));
                    }
                }
            },
            None => {
                self.write("\\begin{itemize}\n");
                proof {
                    reveal_strlit("\\begin{itemize}\n");
                    assert(self.writer@ =~= old(self).writer@ + (lead + "\\begin{itemize}\n"@));
                }
            },
        }
    }

    /// Opens emphasis, strong emphasis or struck text.
    fn start_span(&mut self, tag: &Region)
        requires
            old(self).discarding@ is None,
            tag.deep_view() is Emphasis || tag.deep_view() is Strong
                || tag.deep_view() is Strikethrough,
        ensures
            final(self).steps(old(self), DocEventView::Start(tag.deep_view())),
    {
        match tag {
            Region::Emphasis => self.write("{\\em "),
            Region::Strong => self.write("{\\bf "),
            _ => self.write("\\sout{"),
        }
        proof {
            reveal_strlit("{\\em ");
            reveal_strlit("{\\bf ");
            reveal_strlit("\\sout{");
        }
    }

    /// Opens a link to `dest`, or to the mail address `dest`.
    fn start_link(&mut self, kind: &LinkKind, dest: &String)
        requires
            old(self).discarding@ is None,
        ensures
            final(self).steps(old(self), DocEventView::Start(RegionView::Link(*kind, dest@))),
    {
        match kind {
            LinkKind::Email => self.write("\\href{mailto:"),
            _ => self.write("\\href{"),
        }
        let ghost opened = self.writer@;
        push_href_escaped(&mut self.writer, dest.as_str());
        self.write("}{");
        proof {
            reveal_strlit("}{");
            assert(self.writer@ =~= opened + (href_escaped(dest@) + "}{"@));
            assert(self.writer@ =~= old(self).writer@ + emitted(
                old(self).state(),
                DocEventView::Start(RegionView::Link(*kind, dest@)),
            ));
        }
    }

    /// Writes the image `dest`, and enters its alternative text.
    fn start_image(&mut self, dest: &String)
        requires
            old(self).discarding@ is None,
        ensures
            final(self).steps(old(self), DocEventView::Start(RegionView::Image(dest@))),
            final(self).discarding@ == Some(0nat),
    {
        self.write("\\includegraphics{");
        push_href_escaped(&mut self.writer, dest.as_str());
        self.write("}\n");
        self.discarding = Ghost(Some(0nat));
        proof {
            reveal_strlit("}\n");
            assert(self.writer@ =~= old(self).writer@ + ("\\includegraphics{"@ + href_escaped(
                dest@,
            ) + "}\n"@));
        }
    }

    /// Opens the text of the footnote `name`, under its number.
    fn start_footnote_definition(&mut self, name: &String)
        requires
            old(self).discarding@ is None,
            old(self).numbers.len() < usize::MAX,
        ensures
            final(self).steps(
                old(self),
                DocEventView::Start(RegionView::FootnoteDefinition(name@)),
            ),
    {
        self.start_line();
        self.write("\\footnotetext[");
        self.write_footnote_number(name);
        self.write("]{");
        proof {
            reveal_strlit("]{");
            assert(self.writer@ =~= old(self).writer@ + (line_break_unless(old(self).end_newline)
                + "\\footnotetext["@ + decimal(
                footnote_number(old(self).numbers.deep_view(), name@),
            ) + "]{"@));
        }
    }

    /// Closes the region `tag`.
    fn end_tag(&mut self, tag: &Region)
        requires
            old(self).discarding@ is None,
            old(self).table_cell_index < usize::MAX,
        ensures
            final(self).steps(old(self), DocEventView::End(tag.deep_view())),
    {
        proof {
            reveal_strlit("}\n");
            reveal_strlit("\\end{tabular}\n\\end{center}\n");
            reveal_strlit("\\hline\n");
            reveal_strlit("\\\\\n");
            reveal_strlit(" & ");
            reveal_strlit("\\end{quotation}\n");
            reveal_strlit("\\end{minted}\n");
            reveal_strlit("\\end{enumerate}\n");
            reveal_strlit("\\end{itemize}\n");
            reveal_strlit("}");
            reveal_strlit("\\end{verbatim}\n");
            reveal_strlit("\\end{comment}\n");
            assert(old(self).writer@ + Seq::<char>::empty() =~= old(self).writer@);
        }
        match tag {
            Region::Paragraph => {},
            Region::Heading(_) => {
                self.write("}\n");
            },
            Region::Table(_) => {
                self.write("\\end{tabular}\n\\end{center}\n");
            },
            Region::TableHead => {
                self.write("\\hline\n");
            },
            Region::TableRow => {},
            Region::TableCell => {
                self.table_cell_index += 1;
                if self.table_cell_index == self.table_cells {
                    self.write("\\\\\n");
                } else {
                    self.write(" & ");
                }
            },
            Region::BlockQuote => {
                self.write("\\end{quotation}\n");
            },
            Region::CodeBlock(_) => {
                self.write("\\end{minted}\n");
            },
            Region::List(Some(_)) => {
                self.write("\\end{enumerate}\n");
            },
            Region::List(None) => {
                self.write("\\end{itemize}\n");
            },
            Region::Item => {
                self.write_newline();
            },
            Region::Emphasis => {
                self.write("}");
            },
            Region::Strong => {
                self.write("}");
            },
            Region::Strikethrough => {
                self.write("}");
            },
            Region::Link(_, _) => {
                self.write("}");
            },
            Region::Image(_) => {},
            Region::FootnoteDefinition(_) => {
                self.write("}\n");
            },
            Region::HtmlBlock => {
                self.write("\\end{verbatim}\n");
            },
            Region::MetadataBlock => {
                self.write("\\end{comment}\n");
            },
        }
    }

    /// Takes and drops the events up to and including the end of the region
    /// that was just opened. Footnote references among them are numbered.
    fn consume_text(&mut self)
        requires
            old(self).discarding@ == Some(0nat),
            old(self).next <= old(self).events.len(),
            old(self).numbers.len() <= old(self).next,
        ensures
            final(self).events == old(self).events,
            old(self).next <= final(self).next <= final(self).events.len(),
            final(self).numbers.len() <= final(self).next,
            final(self).state() == state_after(
                old(self).state(),
                old(self).events.deep_view().subrange(
                    old(self).next as int,
                    final(self).next as int,
                ),
            ),
            body(
                old(self).state(),
                old(self).events.deep_view().subrange(
                    old(self).next as int,
                    final(self).next as int,
                ),
            ) == Seq::<char>::empty(),
            final(self).discarding@ is None || final(self).next == final(self).events.len(),
            final(self).next == alt_text_end(
                old(self).events.deep_view(),
                old(self).next as int,
                0,
            ),
            final(self).numbers.deep_view() == register_references(
                old(self).numbers.deep_view(),
                old(self).events.deep_view().subrange(
                    old(self).next as int,
                    final(self).next as int,
                ),
            ),
            *final(self) == (LatexWriter {
                next: final(self).next,
                numbers: final(self).numbers,
                discarding: final(self).discarding,
                ..*old(self)
            }),
    {
        let ghost all = self.events.deep_view();
        let ghost from = self.next as int;
        let events = self.events;
        let mut nest: usize = 0;
        assert(all.subrange(from, from) =~= Seq::<DocEventView>::empty());
        while self.next < events.len()
            invariant_except_break
                self.discarding@ == Some(nest as nat),
                alt_text_end(all, from, 0) == alt_text_end(all, self.next as int, nest as nat),
            invariant
                events == self.events,
                all == events.deep_view(),
                all.len() == events.len(),
                0 <= from <= self.next <= events.len(),
                nest <= self.next - from,
                self.numbers.len() <= self.next,
                self.state() == state_after(old(self).state(), all.subrange(from, self.next as int)),
                body(old(self).state(), all.subrange(from, self.next as int)) == Seq::<char>::empty(),
                self.numbers.deep_view() == register_references(
                    old(self).numbers.deep_view(),
                    all.subrange(from, self.next as int),
                ),
                *self == (LatexWriter {
                    next: self.next,
                    numbers: self.numbers,
                    discarding: self.discarding,
                    ..*old(self)
                }),
            ensures
                self.discarding@ is None || self.next == events.len(),
                self.next == alt_text_end(all, from, 0),
            decreases events.len() - self.next,
        {
            let ghost before = self.state();
            let ghost seen = all.subrange(from, self.next as int);
            let event = &events[self.next];
            proof {
                let ev = event.deep_view();
                assert(all[self.next as int] == ev);
                let upto = all.subrange(from, self.next + 1);
                assert(upto.drop_last() =~= seen);
                assert(upto.last() == ev);
                assert(body(old(self).state(), upto) =~= Seq::<char>::empty());
            }
            self.next += 1;
            match event {
                DocEvent::Start(_) => {
                    nest += 1;
                    self.discarding = Ghost(Some(nest as nat));
                },
                DocEvent::End(_) => {
                    if nest == 0 {
                        self.discarding = Ghost(None);
                        break ;
                    }
                    nest -= 1;
                    self.discarding = Ghost(Some(nest as nat));
                },
                DocEvent::FootnoteReference(name) => {
                    let _ = number_for(&mut self.numbers, name);
                },
                _ => {},
            }
        }
    }
}

/// Appends to `s` the LaTeX document that `events` are rendered to: what
/// is appended begins with the preamble and ends with the trailer.
pub fn push_latex(s: &mut String, events: &[DocEvent])
    ensures
        final(s)@ == old(s)@ + latex_document(events.deep_view()),
        (old(s)@ + preamble()).is_prefix_of(final(s)@),
        trailer().is_suffix_of(final(s)@),
{
    let tex = LatexWriter::new(events, String::new()).run();
    s.append(tex.as_str());
    proof {
        assert(Seq::<char>::empty() + latex_document(events.deep_view()) =~= latex_document(
            events.deep_view(),
        ));
        lemma_framed(old(s)@, body(EmitterState::initial(), events.deep_view()));
    }
}

/// A document that follows `before` begins with `before` and the preamble
/// and ends with the trailer, whatever stands between them.
proof fn lemma_framed(before: Seq<char>, between: Seq<char>)
    ensures
        (before + preamble()).is_prefix_of(before + (preamble() + between + trailer())),
        trailer().is_suffix_of(before + (preamble() + between + trailer())),
{
    let tex = before + (preamble() + between + trailer());
    let start = before + preamble();
    assert(tex.subrange(0, start.len() as int) =~= start);
    assert(tex.subrange(tex.len() - trailer().len(), tex.len() as int) =~= trailer());
}

} // verus!
